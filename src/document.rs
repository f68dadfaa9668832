//! Documents as the bulk encoder reads them, and their compact JSON text.
use vstd::prelude::*;

use crate::text::{digit_char, push_char, push_str};

verus! {

/// The value of one member of a document.
#[derive(Clone, Debug, PartialEq, Eq)]
pub enum FieldValue {
    /// A JSON string, held unescaped.
    Text(String),
    /// Any other JSON value (number, boolean, null, array or object), held as its compact
    /// JSON text.
    Json(String),
}

/// One member of a document: its name and its value.
#[derive(Clone, Debug, PartialEq, Eq)]
pub struct Field {
    pub name: String,
    pub value: FieldValue,
}

/// A document to be loaded: a JSON object, member by member in order, or any other JSON
/// value, held as its compact JSON text.
#[derive(Clone, Debug, PartialEq, Eq)]
pub enum Document {
    Object(Vec<Field>),
    Other(String),
}

/// A lower-case hexadecimal digit.
pub open spec fn hex_digit(n: nat) -> char
    recommends
        n < 16,
{
    if n < 10 {
        digit_char(n)
    } else {
        ((n + 87) as u8) as char
    }
}

/// How one character is written inside a JSON string: a quote and a backslash behind a
/// backslash; backspace, form feed, line feed, carriage return and tab as `\b`, `\f`,
/// `\n`, `\r` and `\t`; the other characters below 32 as `\u00` and two hexadecimal
/// digits; every other character as itself.
pub open spec fn escaped_char(c: char) -> Seq<char> {
    if c == '"' {
        seq!['\\', '"']
    } else if c == '\\' {
        seq!['\\', '\\']
    } else if c == '\x08' {
        seq!['\\', 'b']
    } else if c == '\x0c' {
        seq!['\\', 'f']
    } else if c == '\n' {
        seq!['\\', 'n']
    } else if c == '\r' {
        seq!['\\', 'r']
    } else if c == '\t' {
        seq!['\\', 't']
    } else if (c as u32) < 32 {
        seq!['\\', 'u', '0', '0', hex_digit((c as u32 / 16) as nat), hex_digit((c as u32 % 16) as nat)]
    } else {
        seq![c]
    }
}

/// The characters of `s`, each written as inside a JSON string.
pub open spec fn escaped(s: Seq<char>) -> Seq<char>
    decreases s.len(),
{
    if s.len() == 0 {
        Seq::empty()
    } else {
        escaped(s.drop_last()) + escaped_char(s.last())
    }
}

/// The JSON string literal for the characters `s`: quoted, with the characters that JSON
/// requires escaped.
pub open spec fn json_quoted(s: Seq<char>) -> Seq<char> {
    seq!['"'] + escaped(s) + seq!['"']
}

/// Relies on `serde_json::to_string` applied to a `str`: it writes the string between
/// quotes, escaping each byte by serde_json's table, which escapes only the quote, the
/// backslash and the bytes below 32 (so every character that is not ASCII is written as
/// itself). Writing a `str` into memory cannot fail, so the error arm is never taken.
#[verifier::external_body]
pub(crate) fn quote(s: &str) -> (r: String)
    ensures
        r@ == json_quoted(s@),
{
    serde_json::to_string(s).unwrap_or_default()
}

/// The JSON text of a member value.
pub open spec fn value_text(v: FieldValue) -> Seq<char> {
    match v {
        FieldValue::Text(s) => json_quoted(s@),
        FieldValue::Json(t) => t@,
    }
}

/// The JSON text of one member: `"name":value`.
pub open spec fn member_text(f: Field) -> Seq<char> {
    json_quoted(f.name@) + seq![':'] + value_text(f.value)
}

/// The members' texts in order, separated by commas.
pub open spec fn members_text(fs: Seq<Field>) -> Seq<char>
    decreases fs.len(),
{
    if fs.len() == 0 {
        Seq::empty()
    } else if fs.len() == 1 {
        member_text(fs[0])
    } else {
        members_text(fs.drop_last()) + seq![','] + member_text(fs.last())
    }
}

/// The JSON text of an object with the members `fs`.
pub open spec fn object_text(fs: Seq<Field>) -> Seq<char> {
    seq!['{'] + members_text(fs) + seq!['}']
}

/// The compact JSON text of a document.
pub open spec fn document_text(d: Document) -> Seq<char> {
    match d {
        Document::Object(fs) => object_text(fs@),
        Document::Other(t) => t@,
    }
}

/// The name of the member that carries a document's identifier.
pub open spec fn id_name() -> Seq<char> {
    "_id"@
}

/// Whether a member is the identifier member.
pub open spec fn is_id(f: Field) -> bool {
    f.name@ == id_name()
}

/// The members of `fs` without the identifier members, in order.
pub open spec fn without_id(fs: Seq<Field>) -> Seq<Field>
    decreases fs.len(),
{
    if fs.len() == 0 {
        Seq::empty()
    } else if is_id(fs.last()) {
        without_id(fs.drop_last())
    } else {
        without_id(fs.drop_last()).push(fs.last())
    }
}

/// The members that an object written with or without its identifier members holds.
pub open spec fn kept(fs: Seq<Field>, drop_id: bool) -> Seq<Field> {
    if drop_id {
        without_id(fs)
    } else {
        fs
    }
}

/// Whether `name` is the identifier member's name.
pub fn is_id_name(name: &String) -> (r: bool)
    ensures
        r == (name@ == id_name()),
{
    let id = String::from_str("_id");
    *name == id
}

fn append_member(out: &mut String, f: &Field)
    ensures
        final(out)@ == old(out)@ + member_text(*f),
{
    let name = quote(f.name.as_str());
    push_str(out, name.as_str());
    push_char(out, ':');
    match &f.value {
        FieldValue::Text(s) => {
            let q = quote(s.as_str());
            push_str(out, q.as_str());
        },
        FieldValue::Json(t) => {
            push_str(out, t.as_str());
        },
    }
    assert(final(out)@ =~= old(out)@ + member_text(*f));
}

/// Appends the JSON text of an object with the members of `fields`, leaving out the
/// identifier members when `drop_id` is set.
pub(crate) fn append_object(out: &mut String, fields: &Vec<Field>, drop_id: bool)
    ensures
        final(out)@ == old(out)@ + object_text(kept(fields@, drop_id)),
{
    let ghost start = out@;
    push_char(out, '{');
    let mut written: usize = 0;
    let mut i: usize = 0;
    while i < fields.len()
        invariant
            i <= fields.len(),
            written <= i,
            written == kept(fields@.take(i as int), drop_id).len(),
            out@ == start + seq!['{'] + members_text(kept(fields@.take(i as int), drop_id)),
        decreases fields.len() - i,
    {
        let f = &fields[i];
        let ghost before = kept(fields@.take(i as int), drop_id);
        assert(fields@.take(i as int + 1).drop_last() =~= fields@.take(i as int));
        assert(fields@.take(i as int + 1).last() == fields@[i as int]);
        let skip = drop_id && is_id_name(&f.name);
        if !skip {
            if written > 0 {
                push_char(out, ',');
            }
            append_member(out, f);
            written = written + 1;
            let ghost after = kept(fields@.take(i as int + 1), drop_id);
            assert(after == before.push(*f));
            assert(after.drop_last() =~= before);
            assert(out@ =~= start + seq!['{'] + members_text(after));
        }
        i = i + 1;
    }
    assert(fields@.take(fields.len() as int) =~= fields@);
    push_char(out, '}');
    assert(final(out)@ =~= start + object_text(kept(fields@, drop_id)));
}

impl Document {
    /// The compact JSON text of the document.
    pub fn to_json(&self) -> (r: String)
        ensures
            r@ == document_text(*self),
    {
        let mut r = String::new();
        match self {
            Document::Object(fields) => {
                append_object(&mut r, fields, false);
                assert(r@ =~= document_text(*self));
            },
            Document::Other(t) => {
                r = t.clone();
            },
        }
        r
    }
}

} // verus!
