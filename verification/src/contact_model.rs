//! Contact records: identity, field access, and field-level validation.

use vstd::prelude::*;

use crate::text_match::{is_substring, lower_of, to_lowercase, contains_substring};

verus! {

/// Per-field validation messages; a field is `None` when it passed.
#[derive(Debug)]
pub struct ContactErrors {
    pub first: Option<String>,
    pub last: Option<String>,
    pub phone: Option<String>,
    pub email: Option<String>,
}

/// The mathematical value of a `ContactErrors`.
pub struct ContactErrorsView {
    pub first: Option<Seq<char>>,
    pub last: Option<Seq<char>>,
    pub phone: Option<Seq<char>>,
    pub email: Option<Seq<char>>,
}

impl View for ContactErrors {
    type V = ContactErrorsView;

    open spec fn view(&self) -> ContactErrorsView {
        ContactErrorsView {
            first: self.first.deep_view(),
            last: self.last.deep_view(),
            phone: self.phone.deep_view(),
            email: self.email.deep_view(),
        }
    }
}

/// The error set whose only entry is the given email message, if any.
pub open spec fn email_only_errors(msg: Option<Seq<char>>) -> ContactErrorsView {
    ContactErrorsView { first: None, last: None, phone: None, email: msg }
}

impl Default for ContactErrors {
    /// An empty error set: every field passed.
    fn default() -> (r: Self)
        ensures
            r@ == email_only_errors(None),
    {
        ContactErrors { first: None, last: None, phone: None, email: None }
    }
}

/// A process-unique surrogate identifier, assigned once at creation.
#[derive(Clone, Copy, PartialEq, Eq, Structural)]
pub struct ContactId(u32);

impl View for ContactId {
    type V = u32;

    closed spec fn view(&self) -> u32 {
        self.0
    }
}

impl DeepView for ContactId {
    type V = u32;

    open spec fn deep_view(&self) -> u32 {
        self.view()
    }
}

impl ContactId {
    pub fn new(id: u32) -> (r: Self)
        ensures
            r@ == id,
    {
        ContactId(id)
    }

    pub fn value(&self) -> (r: u32)
        ensures
            r == self@,
    {
        self.0
    }
}

/// The mathematical value of a `Contact`.
pub struct ContactView {
    pub id: u32,
    pub first: Seq<char>,
    pub last: Seq<char>,
    pub phone: Seq<char>,
    pub email: Seq<char>,
}

/// A contact record. `first`, `last` and `phone` are free text; `email` is
/// required, must be syntactically valid, and is unique across the store.
pub struct Contact {
    id: ContactId,
    first: String,
    last: String,
    phone: String,
    email: String,
}

impl View for Contact {
    type V = ContactView;

    closed spec fn view(&self) -> ContactView {
        ContactView {
            id: self.id@,
            first: self.first@,
            last: self.last@,
            phone: self.phone@,
            email: self.email@,
        }
    }
}

impl DeepView for Contact {
    type V = ContactView;

    open spec fn deep_view(&self) -> ContactView {
        self.view()
    }
}

impl Clone for Contact {
    fn clone(&self) -> (r: Self)
        ensures
            r == *self,
    {
        Contact {
            id: self.id,
            first: self.first.clone(),
            last: self.last.clone(),
            phone: self.phone.clone(),
            email: self.email.clone(),
        }
    }
}

/// What `validator`'s email check returns for a given sequence of characters:
/// conformance to the HTML5 email-address grammar, a function of the
/// characters alone.
pub uninterp spec fn is_valid_email(s: Seq<char>) -> bool;

/// Relies on `validator::ValidateEmail::validate_email`: a pure check of the
/// characters against the HTML5 email-address grammar.
#[verifier::external_body]
fn email_syntax_ok(s: &str) -> (r: bool)
    ensures
        r == is_valid_email(s@),
{
    validator::ValidateEmail::validate_email(&s)
}

pub open spec fn msg_email_required() -> Seq<char> {
    "Email Required"@
}

pub open spec fn msg_email_not_valid() -> Seq<char> {
    "Email Not Valid"@
}

/// The email message a candidate email earns, if any: it is required, and
/// must conform to the email grammar.
pub open spec fn email_error(email: Seq<char>) -> Option<Seq<char>> {
    if email.len() == 0 {
        Some(msg_email_required())
    } else if !is_valid_email(email) {
        Some(msg_email_not_valid())
    } else {
        None
    }
}

/// A contact passes validation exactly when its email earns no message.
pub open spec fn contact_valid(c: ContactView) -> bool {
    email_error(c.email) is None
}

/// A contact matches a query when its lowercased `first` or `last` contains
/// the lowercased query as a substring.
pub open spec fn matches_text(c: ContactView, q: Seq<char>) -> bool {
    is_substring(lower_of(q), lower_of(c.first)) || is_substring(lower_of(q), lower_of(c.last))
}

impl Contact {
    pub fn new(id: ContactId, first: String, last: String, phone: String, email: String) -> (c:
        Self)
        ensures
            c@ == (ContactView {
                id: id@,
                first: first@,
                last: last@,
                phone: phone@,
                email: email@,
            }),
    {
        Contact { id, first, last, phone, email }
    }

    /// A contact with the given id and randomly drawn fields.
    pub fn new_fake(id: ContactId) -> (c: Self)
        ensures
            c@.id == id@,
    {
        Contact {
            id,
            first: fake_first_name(),
            last: fake_last_name(),
            phone: fake_phone(),
            email: fake_email(),
        }
    }

    /// Whether this contact's `first` or `last` contains the query,
    /// case-insensitively.
    pub fn match_text(&self, query: &str) -> (r: bool)
        ensures
            r == matches_text(self@, query@),
            query@.len() == 0 ==> r,
    {
        let q = to_lowercase(query);
        proof {
            if query@.len() == 0 {
                crate::text_match::lemma_empty_is_substring(lower_of(self@.first));
                assert(lower_of(query@) =~= Seq::<char>::empty());
            }
        }
        let first_lower = to_lowercase(self.first.as_str());
        if contains_substring(first_lower.as_str(), q.as_str()) {
            return true;
        }
        let last_lower = to_lowercase(self.last.as_str());
        contains_substring(last_lower.as_str(), q.as_str())
    }

    /// The message the candidate email earns, if any; `None` when the email
    /// is acceptable. Both the validation pass and the live uniqueness check
    /// route through this single check.
    pub fn validate_email(email: &str) -> (r: Option<String>)
        ensures
            r.deep_view() == email_error(email@),
    {
        if email.unicode_len() == 0 {
            Some(String::from_str("Email Required"))
        } else if !email_syntax_ok(email) {
            Some(String::from_str("Email Not Valid"))
        } else {
            None
        }
    }

    /// Validates the record's fields. Phone checking is deliberately left
    /// disabled: `phone` is free text by design.
    pub fn validate(&self) -> (r: Result<(), ContactErrors>)
        ensures
            r is Ok <==> contact_valid(self@),
            r matches Err(e) ==> e@ == email_only_errors(email_error(self@.email)),
    {
        let err_email = Self::validate_email(self.email.as_str());

        let err_phone: Option<String> = None;

        if err_email.is_some() || err_phone.is_some() {
            Err(ContactErrors { first: None, last: None, phone: err_phone, email: err_email })
        } else {
            Ok(())
        }
    }

    pub fn id(&self) -> (r: ContactId)
        ensures
            r@ == self@.id,
    {
        self.id
    }

    pub fn first(&self) -> (r: &str)
        ensures
            r@ == self@.first,
    {
        self.first.as_str()
    }

    pub fn last(&self) -> (r: &str)
        ensures
            r@ == self@.last,
    {
        self.last.as_str()
    }

    pub fn phone(&self) -> (r: &str)
        ensures
            r@ == self@.phone,
    {
        self.phone.as_str()
    }

    pub fn email(&self) -> (r: &str)
        ensures
            r@ == self@.email,
    {
        self.email.as_str()
    }
}

/// Relies on `fakeit::name::first`: a randomly drawn first name.
#[verifier::external_body]
fn fake_first_name() -> String {
    fakeit::name::first()
}

/// Relies on `fakeit::name::last`: a randomly drawn last name.
#[verifier::external_body]
fn fake_last_name() -> String {
    fakeit::name::last()
}

/// Relies on `fakeit::contact::phone`: a randomly drawn phone number.
#[verifier::external_body]
fn fake_phone() -> String {
    fakeit::contact::phone()
}

/// Relies on `fakeit::contact::email`: a randomly drawn email address.
#[verifier::external_body]
fn fake_email() -> String {
    fakeit::contact::email()
}

/// The values a form submission carries for a new or edited contact.
pub struct NewContactForm {
    pub first_name: String,
    pub last_name: String,
    pub phone: String,
    pub email: String,
}

impl NewContactForm {
    /// Builds the record the form describes, under the given id.
    pub fn build_contact(self, id: ContactId) -> (c: Contact)
        ensures
            c@ == (ContactView {
                id: id@,
                first: self.first_name@,
                last: self.last_name@,
                phone: self.phone@,
                email: self.email@,
            }),
    {
        Contact::new(id, self.first_name, self.last_name, self.phone, self.email)
    }
}

} // verus!
