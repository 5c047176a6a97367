use contact_app::contact_model::{Contact, ContactId, NewContactForm};
use contact_app::contact_repo::{ContactRepo, PAGE_SIZE};

fn mk(id: u32, first: &str, last: &str, phone: &str, email: &str) -> Contact {
    Contact::new(
        ContactId::new(id),
        String::from(first),
        String::from(last),
        String::from(phone),
        String::from(email),
    )
}

#[test]
fn ten_creates_fill_one_page() {
    let mut repo = ContactRepo::build();
    let mut last_id: Option<u32> = None;
    for i in 0..10u32 {
        let id = repo.pop_id();
        if let Some(prev) = last_id {
            assert!(id.value() > prev);
        }
        assert_eq!(id.value(), i);
        last_id = Some(id.value());
        let c = mk(
            id.value(),
            "First",
            "Last",
            "555-0100",
            &format!("a{}@x.com", i),
        );
        assert!(repo.save(&c).is_ok());
    }
    assert_eq!(repo.count(), 10);
    let page1 = repo.all_by_page(1);
    assert_eq!(page1.len(), 10);
    for (i, c) in page1.iter().enumerate() {
        assert_eq!(c.id().value(), i as u32);
        assert_eq!(c.email(), format!("a{}@x.com", i));
    }
    let page2 = repo.all_by_page(2);
    assert!(page2.is_empty());
}

#[test]
fn duplicate_email_is_one_structured_failure() {
    let mut repo = ContactRepo::build();
    let id1 = repo.pop_id();
    let first = mk(id1.value(), "Ann", "Ada", "1", "a@x.com");
    assert!(repo.save(&first).is_ok());

    let id2 = repo.pop_id();
    let second = mk(id2.value(), "Bob", "Bee", "2", "a@x.com");
    let errors = repo.save(&second).unwrap_err();
    assert_eq!(errors.email.as_deref(), Some("Email Must Be Unique"));
    assert!(errors.first.is_none());
    assert!(errors.last.is_none());
    assert!(errors.phone.is_none());
    assert_eq!(repo.count(), 1);
}

#[test]
fn n_saves_of_one_email_yield_one_success() {
    let mut repo = ContactRepo::build();
    let mut successes = 0;
    let mut uniqueness_failures = 0;
    for i in 0..5u32 {
        let id = repo.pop_id();
        let c = mk(id.value(), &format!("P{}", i), "Q", "", "contested@x.com");
        match repo.save(&c) {
            Ok(()) => successes += 1,
            Err(errors) => {
                assert_eq!(errors.email.as_deref(), Some("Email Must Be Unique"));
                uniqueness_failures += 1;
            }
        }
    }
    assert_eq!(successes, 1);
    assert_eq!(uniqueness_failures, 4);
    assert_eq!(repo.count(), 1);
    assert_eq!(
        repo.find_by_email(String::from("contested@x.com")).unwrap().first(),
        "P0"
    );
}

#[test]
fn search_paginates_the_filtered_set() {
    let mut repo = ContactRepo::build();
    for i in 0..12u32 {
        let id = repo.pop_id();
        let c = mk(id.value(), "Match", "M", "", &format!("m{}@x.com", i));
        assert!(repo.save(&c).is_ok());
        let id = repo.pop_id();
        let c = mk(id.value(), "Other", "O", "", &format!("o{}@x.com", i));
        assert!(repo.save(&c).is_ok());
    }
    let page1 = repo.search("match", 1);
    assert_eq!(page1.len(), 10);
    let page2 = repo.search("match", 2);
    assert_eq!(page2.len(), 2);
    for c in page1.iter().chain(page2.iter()) {
        assert_eq!(c.first(), "Match");
    }
    assert!(repo.search("match", 3).is_empty());
}

#[test]
fn next_id_previews_the_counter_without_issuing() {
    let mut repo = ContactRepo::build();
    assert_eq!(repo.next_id(), 0);
    assert_eq!(repo.next_id(), 0);
    let id = repo.pop_id();
    assert_eq!(id.value(), 0);
    assert_eq!(repo.next_id(), 1);
}

#[test]
fn seeding_commits_the_first_draw_in_id_order() {
    let repo = ContactRepo::build_with_fake_data(8);
    let all = repo.all();
    assert!(!all.is_empty());
    assert_eq!(all[0].id().value(), 0);
    for pair in all.windows(2) {
        assert!(pair[0].id().value() < pair[1].id().value());
    }
    assert!(all.iter().all(|c| c.id().value() < 8));
}

#[test]
fn page_size_is_ten() {
    assert_eq!(PAGE_SIZE, 10);
}

#[test]
fn low_pages_clamp_to_page_one() {
    let mut repo = ContactRepo::build();
    for i in 0..15u32 {
        let id = repo.pop_id();
        let c = mk(id.value(), "F", "L", "", &format!("p{}@x.com", i));
        assert!(repo.save(&c).is_ok());
    }
    let page0 = repo.all_by_page(0);
    let page1 = repo.all_by_page(1);
    assert_eq!(page0.len(), 10);
    assert_eq!(page0.len(), page1.len());
    for (a, b) in page0.iter().zip(page1.iter()) {
        assert_eq!(a.id().value(), b.id().value());
    }
    let page2 = repo.all_by_page(2);
    assert_eq!(page2.len(), 5);
    let far = repo.all_by_page(9999);
    assert!(far.is_empty());
}

#[test]
fn search_is_case_insensitive_on_first_and_last() {
    let mut repo = ContactRepo::build();
    let data = [
        ("Carson", "Wells", "carson@x.com"),
        ("Anton", "Chigurh", "anton@x.com"),
        ("Llewelyn", "Moss", "moss@x.com"),
        ("Ed Tom", "Bell", "bell@x.com"),
    ];
    for (first, last, email) in data {
        let id = repo.pop_id();
        let c = mk(id.value(), first, last, "", email);
        assert!(repo.save(&c).is_ok());
    }
    let hits = repo.search("WELL", 1);
    assert_eq!(hits.len(), 1);
    assert_eq!(hits[0].email(), "carson@x.com");

    let hits = repo.search("o", 1);
    let emails: Vec<&str> = hits.iter().map(|c| c.email()).collect();
    assert_eq!(emails, vec!["carson@x.com", "anton@x.com", "moss@x.com", "bell@x.com"]);

    let hits = repo.search("zzz", 1);
    assert!(hits.is_empty());
}

#[test]
fn empty_query_returns_unfiltered_page() {
    let mut repo = ContactRepo::build();
    for i in 0..12u32 {
        let id = repo.pop_id();
        let c = mk(id.value(), "F", "L", "", &format!("q{}@x.com", i));
        assert!(repo.save(&c).is_ok());
    }
    let searched = repo.search("", 2);
    let listed = repo.all_by_page(2);
    assert_eq!(searched.len(), 2);
    assert_eq!(searched.len(), listed.len());
    for (a, b) in searched.iter().zip(listed.iter()) {
        assert_eq!(a.id().value(), b.id().value());
    }
}

#[test]
fn search_matches_only_first_or_last() {
    let mut repo = ContactRepo::build();
    let id = repo.pop_id();
    let c = mk(id.value(), "Ann", "Lee", "777", "match-me@x.com");
    assert!(repo.save(&c).is_ok());
    assert!(repo.search("match-me", 1).is_empty());
    assert!(repo.search("777", 1).is_empty());
    assert_eq!(repo.search("ann", 1).len(), 1);
    assert_eq!(repo.search("LEE", 1).len(), 1);
}

#[test]
fn validate_email_allows_own_record() {
    let mut repo = ContactRepo::build();
    let id_a = repo.pop_id();
    let a = mk(id_a.value(), "Ann", "Ada", "", "ann@x.com");
    assert!(repo.save(&a).is_ok());
    let id_b = repo.pop_id();
    let b = mk(id_b.value(), "Bob", "Bee", "", "bob@x.com");
    assert!(repo.save(&b).is_ok());

    assert_eq!(repo.validate_email(Some(id_a), String::from("ann@x.com")), None);
    assert_eq!(
        repo.validate_email(Some(id_b), String::from("ann@x.com")),
        Some(String::from("Email Must Be Unique"))
    );
    assert_eq!(
        repo.validate_email(None, String::from("ann@x.com")),
        Some(String::from("Email Must Be Unique"))
    );
    assert_eq!(repo.validate_email(None, String::from("new@x.com")), None);
    assert_eq!(
        repo.validate_email(None, String::from("")),
        Some(String::from("Email Required"))
    );
    assert_eq!(
        repo.validate_email(None, String::from("not-an-email")),
        Some(String::from("Email Not Valid"))
    );
}

#[test]
fn validate_rejects_bad_emails() {
    let c = mk(0, "A", "B", "123", "");
    let errors = c.validate().unwrap_err();
    assert_eq!(errors.email.as_deref(), Some("Email Required"));

    let c = mk(0, "A", "B", "123", "nope");
    let errors = c.validate().unwrap_err();
    assert_eq!(errors.email.as_deref(), Some("Email Not Valid"));

    let c = mk(0, "A", "B", "not a phone", "fine@x.com");
    assert!(c.validate().is_ok());
}

#[test]
fn update_overwrites_own_record() {
    let mut repo = ContactRepo::build();
    let id = repo.pop_id();
    let c = mk(id.value(), "Ann", "Ada", "1", "ann@x.com");
    assert!(repo.save(&c).is_ok());

    let changed = mk(id.value(), "Anne", "Ada", "2", "ann@x.com");
    assert!(repo.update(&changed).is_ok());
    let got = repo.find(id).unwrap();
    assert_eq!(got.first(), "Anne");
    assert_eq!(got.phone(), "2");
    assert_eq!(repo.count(), 1);
}

#[test]
fn update_to_taken_email_is_uniqueness_error() {
    let mut repo = ContactRepo::build();
    let id_a = repo.pop_id();
    assert!(repo.save(&mk(id_a.value(), "Ann", "Ada", "", "ann@x.com")).is_ok());
    let id_b = repo.pop_id();
    assert!(repo.save(&mk(id_b.value(), "Bob", "Bee", "", "bob@x.com")).is_ok());

    let stolen = mk(id_b.value(), "Bob", "Bee", "", "ann@x.com");
    let errors = repo.update(&stolen).unwrap_err();
    assert_eq!(errors.email.as_deref(), Some("Email Must Be Unique"));
    assert!(errors.first.is_none());
    assert!(errors.last.is_none());
    assert!(errors.phone.is_none());
    assert_eq!(repo.find(id_b).unwrap().email(), "bob@x.com");
    assert_eq!(repo.count(), 2);
}

#[test]
fn update_missing_id_is_silent_noop() {
    let mut repo = ContactRepo::build();
    let ghost_record = mk(42, "No", "One", "", "no-one@x.com");
    assert!(repo.update(&ghost_record).is_ok());
    assert_eq!(repo.count(), 0);
}

#[test]
fn update_rejects_invalid_record() {
    let mut repo = ContactRepo::build();
    let id = repo.pop_id();
    assert!(repo.save(&mk(id.value(), "Ann", "Ada", "", "ann@x.com")).is_ok());
    let bad = mk(id.value(), "Ann", "Ada", "", "broken");
    let errors = repo.update(&bad).unwrap_err();
    assert_eq!(errors.email.as_deref(), Some("Email Not Valid"));
    assert_eq!(repo.find(id).unwrap().email(), "ann@x.com");
}

#[test]
fn delete_is_idempotent_and_keeps_counter() {
    let mut repo = ContactRepo::build();
    let id = repo.pop_id();
    assert!(repo.save(&mk(id.value(), "Ann", "Ada", "", "ann@x.com")).is_ok());
    repo.delete(id);
    assert_eq!(repo.count(), 0);
    repo.delete(id);
    assert_eq!(repo.count(), 0);
    repo.delete(ContactId::new(999));
    assert_eq!(repo.count(), 0);

    let next = repo.pop_id();
    assert_eq!(next.value(), 1);
}

#[test]
fn find_and_find_by_email() {
    let mut repo = ContactRepo::build();
    let id = repo.pop_id();
    assert!(repo.save(&mk(id.value(), "Ann", "Ada", "", "ann@x.com")).is_ok());

    assert_eq!(repo.find(id).unwrap().email(), "ann@x.com");
    assert!(repo.find(ContactId::new(7)).is_none());
    assert_eq!(
        repo.find_by_email(String::from("ann@x.com")).unwrap().id().value(),
        id.value()
    );
    assert!(repo.find_by_email(String::from("whom@x.com")).is_none());
}

#[test]
fn fake_data_seeding_sets_counter() {
    let mut repo = ContactRepo::build_with_fake_data(25);
    assert!(repo.count() <= 25);
    let id = repo.pop_id();
    assert_eq!(id.value(), 25);
}

#[test]
fn fake_contact_keeps_its_id() {
    let c = Contact::new_fake(ContactId::new(7));
    assert_eq!(c.id().value(), 7);
}

#[test]
fn form_builds_contact() {
    let form = NewContactForm {
        first_name: String::from("Ann"),
        last_name: String::from("Ada"),
        phone: String::from("555"),
        email: String::from("ann@x.com"),
    };
    let c = form.build_contact(ContactId::new(3));
    assert_eq!(c.id().value(), 3);
    assert_eq!(c.first(), "Ann");
    assert_eq!(c.last(), "Ada");
    assert_eq!(c.phone(), "555");
    assert_eq!(c.email(), "ann@x.com");
}

#[test]
fn match_text_is_case_insensitive_substring() {
    let c = mk(0, "ann", "lovelace", "", "a@x.com");
    assert!(c.match_text("ANN"));
    assert!(c.match_text("Lace"));
    assert!(c.match_text("nn"));
    assert!(c.match_text(""));
    assert!(!c.match_text("bob"));

    let upper = mk(1, "ANN", "LOVELACE", "", "b@x.com");
    assert!(upper.match_text("ann"));
}
