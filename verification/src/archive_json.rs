//! The archive artifact format: a JSON array of contact objects, with
//! string escaping, written by a verified encoder.

use vstd::prelude::*;

use crate::contact_model::{Contact, ContactView};

verus! {

/// The decimal digit `d` as characters.
pub open spec fn dec_digit_seq(d: nat) -> Seq<char> {
    if d == 0 {
        "0"@
    } else if d == 1 {
        "1"@
    } else if d == 2 {
        "2"@
    } else if d == 3 {
        "3"@
    } else if d == 4 {
        "4"@
    } else if d == 5 {
        "5"@
    } else if d == 6 {
        "6"@
    } else if d == 7 {
        "7"@
    } else if d == 8 {
        "8"@
    } else {
        "9"@
    }
}

/// The decimal rendering of `n`, most significant digit first, no leading
/// zeros (except for zero itself).
pub open spec fn dec_str(n: nat) -> Seq<char>
    decreases n,
{
    if n < 10 {
        dec_digit_seq(n)
    } else {
        dec_str(n / 10) + dec_digit_seq(n % 10)
    }
}

/// The hexadecimal digit `d` as characters, lower case.
pub open spec fn hex_digit_seq(d: nat) -> Seq<char> {
    if d < 10 {
        dec_digit_seq(d)
    } else if d == 10 {
        "a"@
    } else if d == 11 {
        "b"@
    } else if d == 12 {
        "c"@
    } else if d == 13 {
        "d"@
    } else if d == 14 {
        "e"@
    } else {
        "f"@
    }
}

/// The JSON escape of one character inside a string value: quote and
/// backslash are escaped, control characters use the short escapes or the
/// `\u00..` form, and every other character stands as itself.
pub open spec fn json_escape_char(c: char) -> Seq<char> {
    if c == '"' {
        "\\\""@
    } else if c == '\\' {
        "\\\\"@
    } else if c == '\u{8}' {
        "\\b"@
    } else if c == '\t' {
        "\\t"@
    } else if c == '\n' {
        "\\n"@
    } else if c == '\u{c}' {
        "\\f"@
    } else if c == '\r' {
        "\\r"@
    } else if (c as u32) < 32 {
        "\\u00"@ + hex_digit_seq((c as u32 / 16) as nat) + hex_digit_seq((c as u32 % 16) as nat)
    } else {
        Seq::empty().push(c)
    }
}

/// The JSON escape of a whole string value.
pub open spec fn json_escape_str(s: Seq<char>) -> Seq<char>
    decreases s.len(),
{
    if s.len() == 0 {
        Seq::empty()
    } else {
        json_escape_str(s.drop_last()) + json_escape_char(s.last())
    }
}

/// One contact as a JSON object.
pub open spec fn json_of_contact(c: ContactView) -> Seq<char> {
    "{\"id\":"@ + dec_str(c.id as nat) + ",\"first\":\""@ + json_escape_str(c.first)
        + "\",\"last\":\""@ + json_escape_str(c.last) + "\",\"phone\":\""@ + json_escape_str(
        c.phone,
    ) + "\",\"email\":\""@ + json_escape_str(c.email) + "\"}"@
}

/// The contacts as comma-separated JSON objects, in order.
pub open spec fn json_items(s: Seq<ContactView>) -> Seq<char>
    decreases s.len(),
{
    if s.len() == 0 {
        Seq::empty()
    } else if s.len() == 1 {
        json_of_contact(s[0])
    } else {
        json_items(s.drop_last()) + ","@ + json_of_contact(s.last())
    }
}

/// The archive artifact: the full record set as a JSON array.
pub open spec fn json_of_contacts(s: Seq<ContactView>) -> Seq<char> {
    "["@ + json_items(s) + "]"@
}

/// Appends the decimal digit `d`.
fn append_dec_digit(out: &mut String, d: u32)
    requires
        d < 10,
    ensures
        final(out)@ == old(out)@ + dec_digit_seq(d as nat),
{
    if d == 0 {
        out.append("0");
    } else if d == 1 {
        out.append("1");
    } else if d == 2 {
        out.append("2");
    } else if d == 3 {
        out.append("3");
    } else if d == 4 {
        out.append("4");
    } else if d == 5 {
        out.append("5");
    } else if d == 6 {
        out.append("6");
    } else if d == 7 {
        out.append("7");
    } else if d == 8 {
        out.append("8");
    } else {
        out.append("9");
    }
}

/// Appends the hexadecimal digit `d`, lower case.
fn append_hex_digit(out: &mut String, d: u32)
    requires
        d < 16,
    ensures
        final(out)@ == old(out)@ + hex_digit_seq(d as nat),
{
    if d < 10 {
        append_dec_digit(out, d);
    } else if d == 10 {
        out.append("a");
    } else if d == 11 {
        out.append("b");
    } else if d == 12 {
        out.append("c");
    } else if d == 13 {
        out.append("d");
    } else if d == 14 {
        out.append("e");
    } else {
        out.append("f");
    }
}

/// Appends the decimal rendering of `n`.
fn append_u32(out: &mut String, n: u32)
    ensures
        final(out)@ == old(out)@ + dec_str(n as nat),
    decreases n,
{
    if n < 10 {
        append_dec_digit(out, n);
    } else {
        append_u32(out, n / 10);
        append_dec_digit(out, n % 10);
    }
}

/// Appends the JSON escape of every character of `s`.
fn append_escaped(out: &mut String, s: &str)
    ensures
        final(out)@ == old(out)@ + json_escape_str(s@),
{
    let n = s.unicode_len();
    let mut i: usize = 0;
    proof {
        assert(s@.subrange(0, 0) =~= Seq::<char>::empty());
        assert(out@ =~= old(out)@ + json_escape_str(s@.subrange(0, 0)));
    }
    while i < n
        invariant
            n == s@.len(),
            i <= n,
            out@ == old(out)@ + json_escape_str(s@.subrange(0, i as int)),
        decreases n - i,
    {
        let c = s.get_char(i);
        if c == '"' {
            out.append("\\\"");
        } else if c == '\\' {
            out.append("\\\\");
        } else if c == '\u{8}' {
            out.append("\\b");
        } else if c == '\t' {
            out.append("\\t");
        } else if c == '\n' {
            out.append("\\n");
        } else if c == '\u{c}' {
            out.append("\\f");
        } else if c == '\r' {
            out.append("\\r");
        } else if (c as u32) < 32 {
            out.append("\\u00");
            append_hex_digit(out, (c as u32) / 16);
            append_hex_digit(out, (c as u32) % 16);
        } else {
            let piece = s.substring_char(i, i + 1);
            proof {
                assert(piece@ =~= Seq::empty().push(c));
            }
            out.append(piece);
        }
        proof {
            let t = s@.subrange(0, i + 1);
            assert(t.drop_last() =~= s@.subrange(0, i as int));
            assert(t.last() == c);
            assert(out@ =~= old(out)@ + json_escape_str(s@.subrange(0, i + 1)));
        }
        i = i + 1;
    }
    proof {
        assert(s@.subrange(0, n as int) =~= s@);
    }
}

/// Appends one contact as a JSON object.
fn append_contact(out: &mut String, c: &Contact)
    ensures
        final(out)@ == old(out)@ + json_of_contact(c@),
{
    out.append("{\"id\":");
    append_u32(out, c.id().value());
    out.append(",\"first\":\"");
    append_escaped(out, c.first());
    out.append("\",\"last\":\"");
    append_escaped(out, c.last());
    out.append("\",\"phone\":\"");
    append_escaped(out, c.phone());
    out.append("\",\"email\":\"");
    append_escaped(out, c.email());
    out.append("\"}");
    proof {
        assert(out@ =~= old(out)@ + json_of_contact(c@));
    }
}

/// Serializes a snapshot of the record set into the archive artifact.
pub fn encode_contacts_json(contacts: &Vec<Contact>) -> (r: String)
    ensures
        r@ == json_of_contacts(contacts.deep_view()),
{
    let mut out = String::from_str("[");
    let n = contacts.len();
    let mut i: usize = 0;
    proof {
        assert(contacts.deep_view().subrange(0, 0) =~= Seq::<ContactView>::empty());
        assert(out@ =~= "["@ + json_items(contacts.deep_view().subrange(0, 0)));
    }
    while i < n
        invariant
            n == contacts@.len(),
            i <= n,
            out@ == "["@ + json_items(contacts.deep_view().subrange(0, i as int)),
        decreases n - i,
    {
        if i > 0 {
            out.append(",");
        }
        append_contact(&mut out, &contacts[i]);
        proof {
            let s = contacts.deep_view();
            let t = s.subrange(0, i + 1);
            assert(t.drop_last() =~= s.subrange(0, i as int));
            assert(t.last() == contacts@[i as int]@);
            if i == 0 {
                assert(t.len() == 1);
                assert(t[0] == contacts@[0]@);
                assert(out@ =~= "["@ + json_items(t));
            } else {
                assert(out@ =~= "["@ + json_items(t));
            }
        }
        i = i + 1;
    }
    proof {
        assert(contacts.deep_view().subrange(0, n as int) =~= contacts.deep_view());
    }
    let r = out.concat("]");
    proof {
        assert(r@ =~= json_of_contacts(contacts.deep_view()));
    }
    r
}

} // verus!
