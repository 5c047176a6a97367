use contact_app::archive_json::encode_contacts_json;
use contact_app::contact_model::{Contact, ContactId};
use contact_app::contact_repo::ContactRepo;

fn mk(id: u32, first: &str, last: &str, phone: &str, email: &str) -> Contact {
    Contact::new(
        ContactId::new(id),
        String::from(first),
        String::from(last),
        String::from(phone),
        String::from(email),
    )
}

#[test]
fn empty_set_encodes_as_empty_array() {
    let contacts: Vec<Contact> = Vec::new();
    assert_eq!(encode_contacts_json(&contacts), "[]");
}

#[test]
fn one_contact_encodes_exactly() {
    let contacts = vec![mk(7, "Ann", "Ada", "555-0100", "ann@x.com")];
    assert_eq!(
        encode_contacts_json(&contacts),
        r#"[{"id":7,"first":"Ann","last":"Ada","phone":"555-0100","email":"ann@x.com"}]"#
    );
}

#[test]
fn contacts_are_comma_separated_in_order() {
    let contacts = vec![
        mk(0, "A", "B", "1", "a@x.com"),
        mk(1, "C", "D", "2", "c@x.com"),
    ];
    assert_eq!(
        encode_contacts_json(&contacts),
        r#"[{"id":0,"first":"A","last":"B","phone":"1","email":"a@x.com"},{"id":1,"first":"C","last":"D","phone":"2","email":"c@x.com"}]"#
    );
}

#[test]
fn quotes_backslashes_and_controls_are_escaped() {
    let contacts = vec![mk(
        4294967295,
        "Say \"hi\"",
        "Back\\slash",
        "line\nbreak\ttab",
        "ctl\u{1}\u{1f}@x.com",
    )];
    assert_eq!(
        encode_contacts_json(&contacts),
        "[{\"id\":4294967295,\"first\":\"Say \\\"hi\\\"\",\"last\":\"Back\\\\slash\",\"phone\":\"line\\nbreak\\ttab\",\"email\":\"ctl\\u0001\\u001f@x.com\"}]"
    );
}

#[test]
fn short_escapes_cover_their_controls() {
    let contacts = vec![mk(1, "\u{8}\u{c}\r", "plain", "", "e@x.com")];
    assert_eq!(
        encode_contacts_json(&contacts),
        "[{\"id\":1,\"first\":\"\\b\\f\\r\",\"last\":\"plain\",\"phone\":\"\",\"email\":\"e@x.com\"}]"
    );
}

#[test]
fn unicode_passes_through_unescaped() {
    let contacts = vec![mk(2, "Ana\u{ef}s", "Mu\u{f1}oz", "", "u@x.com")];
    assert_eq!(
        encode_contacts_json(&contacts),
        "[{\"id\":2,\"first\":\"Ana\u{ef}s\",\"last\":\"Mu\u{f1}oz\",\"phone\":\"\",\"email\":\"u@x.com\"}]"
    );
}

#[test]
fn snapshot_covers_whole_store() {
    let mut repo = ContactRepo::build();
    for i in 0..3u32 {
        let id = repo.pop_id();
        let c = mk(id.value(), "F", "L", "", &format!("s{}@x.com", i));
        assert!(repo.save(&c).is_ok());
    }
    let encoded = encode_contacts_json(&repo.all());
    assert!(encoded.starts_with('['));
    assert!(encoded.ends_with(']'));
    assert!(encoded.contains(r#""email":"s0@x.com""#));
    assert!(encoded.contains(r#""email":"s1@x.com""#));
    assert!(encoded.contains(r#""email":"s2@x.com""#));
    assert_eq!(encoded.matches("{\"id\":").count(), 3);
}
