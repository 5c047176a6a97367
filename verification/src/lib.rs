//! Core of a small contact manager: a record store with atomic id issuance,
//! an email-uniqueness rule, paginated listing and case-insensitive search,
//! and a single-slot background export job tracked by a lock-free-style
//! state machine.

pub mod archive_json;
pub mod contact_model;
pub mod contact_repo;
pub mod contacts_archiver;
pub mod text_match;
