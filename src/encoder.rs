//! Turns a batch of documents into the lines of a bulk request: for each document an
//! action line, then a source line.
use vstd::prelude::*;

use crate::action::BulkAction;
use crate::document::{
    append_object, is_id, is_id_name, json_quoted, object_text, quote, without_id,
    document_text, Document, Field, FieldValue,
};
use crate::text::{append_decimal, decimal};

verus! {

/// Why a document cannot be written under the chosen action.
#[derive(Clone, Copy, Debug, PartialEq, Eq, Structural)]
pub enum EncodingError {
    /// The document at `position` of the batch is not a JSON object.
    NotAnObject { position: usize },
    /// The document at `position` has no `_id` member.
    MissingId { position: usize },
    /// The `_id` member of the document at `position` is not a string.
    IdNotString { position: usize },
}

/// `i` is the first identifier member of `fs`.
pub open spec fn first_id_at(fs: Seq<Field>, i: int) -> bool {
    &&& 0 <= i < fs.len()
    &&& is_id(fs[i])
    &&& forall|j: int| 0 <= j < i ==> !is_id(#[trigger] fs[j])
}

/// Whether `fs` holds an identifier member.
pub open spec fn has_id(fs: Seq<Field>) -> bool {
    exists|i: int| 0 <= i < fs.len() && is_id(#[trigger] fs[i])
}

/// The value of the first identifier member of `fs`.
pub open spec fn id_value(fs: Seq<Field>) -> FieldValue
    recommends
        has_id(fs),
{
    fs[choose|i: int| first_id_at(fs, i)].value
}

/// What is wrong with the document at `position` under `mode`, if anything.
pub open spec fn document_error(mode: BulkAction, d: Document, position: usize) -> Option<
    EncodingError,
> {
    match mode {
        BulkAction::Update => match d {
            Document::Other(_) => Some(EncodingError::NotAnObject { position }),
            Document::Object(fs) => if !has_id(fs@) {
                Some(EncodingError::MissingId { position })
            } else if id_value(fs@) is Json {
                Some(EncodingError::IdNotString { position })
            } else {
                None
            },
        },
        _ => None,
    }
}

/// The action line of a document under `Create` or `Index`.
pub open spec fn plain_action_line(mode: BulkAction) -> Seq<char> {
    match mode {
        BulkAction::Create => "{\"create\":{}}"@,
        _ => "{\"index\":{}}"@,
    }
}

/// The action line of an update of the document with identifier `id`.
pub open spec fn update_action_line(id: Seq<char>) -> Seq<char> {
    "{\"update\":{\"_id\":"@ + json_quoted(id) + "}}"@
}

/// The source line of an update with the members `fs`, the identifier left out.
pub open spec fn update_source_line(fs: Seq<Field>) -> Seq<char> {
    "{\"doc\":"@ + object_text(without_id(fs)) + seq!['}']
}

/// The two lines of a document under `mode`, for a document that `document_error` accepts.
pub open spec fn document_lines(mode: BulkAction, d: Document) -> Seq<Seq<char>> {
    match mode {
        BulkAction::Update => match d {
            Document::Object(fs) => seq![
                update_action_line(id_value(fs@)->Text_0@),
                update_source_line(fs@),
            ],
            Document::Other(_) => Seq::empty(),
        },
        _ => seq![plain_action_line(mode), document_text(d)],
    }
}

/// The first error in a batch, with its position.
pub open spec fn batch_error(mode: BulkAction, docs: Seq<Document>) -> Option<EncodingError>
    decreases docs.len(),
{
    if docs.len() == 0 {
        None
    } else {
        match batch_error(mode, docs.drop_last()) {
            Some(e) => Some(e),
            None => document_error(mode, docs.last(), (docs.len() - 1) as usize),
        }
    }
}

/// The lines of a batch: the two lines of each document, in the batch's order.
pub open spec fn encoded(mode: BulkAction, docs: Seq<Document>) -> Seq<Seq<char>>
    decreases docs.len(),
{
    if docs.len() == 0 {
        Seq::empty()
    } else {
        encoded(mode, docs.drop_last()) + document_lines(mode, docs.last())
    }
}

/// The text of each line.
pub open spec fn lines_view(lines: Seq<String>) -> Seq<Seq<char>> {
    lines.map_values(|l: String| l@)
}

/// The message of an encoding error.
pub open spec fn error_message(e: EncodingError) -> Seq<char> {
    match e {
        EncodingError::NotAnObject { position } => "document "@ + decimal(position as nat)
            + " is not an object"@,
        EncodingError::MissingId { position } => "document "@ + decimal(position as nat)
            + " has no `_id` field"@,
        EncodingError::IdNotString { position } => "document "@ + decimal(position as nat)
            + " has an `_id` field that is not a string"@,
    }
}

impl EncodingError {
    /// A sentence that names the document and what is wrong with it.
    pub fn message(&self) -> (r: String)
        ensures
            r@ == error_message(*self),
    {
        let mut r = String::from_str("document ");
        match self {
            EncodingError::NotAnObject { position } => {
                append_decimal(&mut r, *position);
                r.append(" is not an object");
            },
            EncodingError::MissingId { position } => {
                append_decimal(&mut r, *position);
                r.append(" has no `_id` field");
            },
            EncodingError::IdNotString { position } => {
                append_decimal(&mut r, *position);
                r.append(" has an `_id` field that is not a string");
            },
        }
        r
    }
}

proof fn lemma_first_id_unique(fs: Seq<Field>, i: int)
    requires
        first_id_at(fs, i),
    ensures
        has_id(fs),
        id_value(fs) == fs[i].value,
{
    assert(is_id(fs[i]));
    let c = choose|c: int| first_id_at(fs, c);
    assert(first_id_at(fs, c));
    if c < i {
        assert(!is_id(fs[c]));
    } else if c > i {
        assert(!is_id(fs[i]));
    }
}

fn find_id(fields: &Vec<Field>) -> (r: Option<usize>)
    ensures
        r matches Some(i) ==> first_id_at(fields@, i as int),
        r is None ==> !has_id(fields@),
{
    let mut i: usize = 0;
    while i < fields.len()
        invariant
            i <= fields.len(),
            forall|j: int| 0 <= j < i ==> !is_id(#[trigger] fields@[j]),
        decreases fields.len() - i,
    {
        if is_id_name(&fields[i].name) {
            return Some(i);
        }
        i = i + 1;
    }
    None
}

fn push_line(lines: &mut Vec<String>, line: String)
    ensures
        lines_view(final(lines)@) == lines_view(old(lines)@).push(line@),
{
    lines.push(line);
    assert(lines_view(lines@) =~= lines_view(old(lines)@).push(line@));
}

fn encode_document(mode: BulkAction, d: &Document, position: usize, lines: &mut Vec<String>) -> (r:
    Result<(), EncodingError>)
    ensures
        r is Ok <==> document_error(mode, *d, position) is None,
        r matches Err(e) ==> document_error(mode, *d, position) == Some(e),
        r is Ok ==> lines_view(final(lines)@) == lines_view(old(lines)@) + document_lines(mode, *d),
{
    let ghost start = lines_view(lines@);
    match mode {
        BulkAction::Update => match d {
            Document::Other(_) => Err(EncodingError::NotAnObject { position }),
            Document::Object(fields) => match find_id(fields) {
                None => Err(EncodingError::MissingId { position }),
                Some(i) => {
                    proof {
                        lemma_first_id_unique(fields@, i as int);
                    }
                    match &fields[i].value {
                        FieldValue::Json(_) => Err(EncodingError::IdNotString { position }),
                        FieldValue::Text(id) => {
                            let mut action = String::from_str("{\"update\":{\"_id\":");
                            let q = quote(id.as_str());
                            action.append(q.as_str());
                            action.append("}}");
                            let mut source = String::from_str("{\"doc\":");
                            append_object(&mut source, fields, true);
                            source.append("}");
                            proof {
                                reveal_strlit("}");
                            }
                            assert(source@ =~= update_source_line(fields@));
                            push_line(lines, action);
                            push_line(lines, source);
                            assert(lines_view(lines@) =~= start + document_lines(mode, *d));
                            Ok(())
                        },
                    }
                },
            },
        },
        _ => {
            let action = if mode == BulkAction::Create {
                String::from_str("{\"create\":{}}")
            } else {
                String::from_str("{\"index\":{}}")
            };
            push_line(lines, action);
            push_line(lines, d.to_json());
            assert(lines_view(lines@) =~= start + document_lines(mode, *d));
            Ok(())
        },
    }
}

proof fn lemma_error_stays(mode: BulkAction, docs: Seq<Document>, k: int)
    requires
        0 <= k <= docs.len(),
        batch_error(mode, docs.take(k)) is Some,
    ensures
        batch_error(mode, docs) == batch_error(mode, docs.take(k)),
    decreases docs.len() - k,
{
    if k == docs.len() {
        assert(docs.take(k) =~= docs);
    } else {
        assert(docs.drop_last().take(k) =~= docs.take(k));
        lemma_error_stays(mode, docs.drop_last(), k);
    }
}

/// Writes a batch as the lines of a bulk request under `mode`, two lines per document in
/// the batch's order. A document that the action cannot take fails the whole batch: the
/// error names the first such document and no line is returned.
pub fn encode_batch(mode: BulkAction, docs: &Vec<Document>) -> (r: Result<
    Vec<String>,
    EncodingError,
>)
    ensures
        r is Ok <==> batch_error(mode, docs@) is None,
        r matches Ok(lines) ==> lines_view(lines@) == encoded(mode, docs@),
        r matches Err(e) ==> batch_error(mode, docs@) == Some(e),
{
    let mut lines: Vec<String> = Vec::new();
    let mut i: usize = 0;
    while i < docs.len()
        invariant
            i <= docs.len(),
            batch_error(mode, docs@.take(i as int)) is None,
            lines_view(lines@) == encoded(mode, docs@.take(i as int)),
        decreases docs.len() - i,
    {
        let ghost prefix = docs@.take(i as int + 1);
        assert(prefix.drop_last() =~= docs@.take(i as int));
        assert(prefix.last() == docs@[i as int]);
        match encode_document(mode, &docs[i], i, &mut lines) {
            Err(e) => {
                proof {
                    lemma_error_stays(mode, docs@, i as int + 1);
                }
                return Err(e);
            },
            Ok(()) => {},
        }
        i = i + 1;
    }
    assert(docs@.take(docs.len() as int) =~= docs@);
    Ok(lines)
}

/// A document that is an object whose first `_id` member holds a string.
pub open spec fn carries_string_id(d: Document) -> bool {
    match d {
        Document::Object(fs) => has_id(fs@) && id_value(fs@) is Text,
        Document::Other(_) => false,
    }
}

/// The identifier that such a document carries.
pub open spec fn id_of(d: Document) -> Seq<char> {
    match d {
        Document::Object(fs) => id_value(fs@)->Text_0@,
        Document::Other(_) => Seq::empty(),
    }
}

proof fn lemma_encoded_pairs(mode: BulkAction, docs: Seq<Document>)
    requires
        forall|i: int|
            0 <= i < docs.len() ==> #[trigger] document_lines(mode, docs[i]).len() == 2,
    ensures
        encoded(mode, docs).len() == 2 * docs.len(),
        forall|i: int|
            #![trigger docs[i]]
            0 <= i < docs.len() ==> encoded(mode, docs)[2 * i] == document_lines(mode, docs[i])[0]
                && encoded(mode, docs)[2 * i + 1] == document_lines(mode, docs[i])[1],
    decreases docs.len(),
{
    if docs.len() > 0 {
        let init = docs.drop_last();
        assert forall|i: int| 0 <= i < init.len() implies #[trigger] document_lines(
            mode,
            init[i],
        ).len() == 2 by {
            assert(init[i] == docs[i]);
        }
        lemma_encoded_pairs(mode, init);
        let last = document_lines(mode, docs.last());
        assert(last.len() == 2);
        let all = encoded(mode, docs);
        assert(all == encoded(mode, init) + last);
        assert forall|i: int| #![trigger docs[i]] 0 <= i < docs.len() implies encoded(mode, docs)[2 * i]
            == document_lines(mode, docs[i])[0] && encoded(mode, docs)[2 * i + 1]
            == document_lines(mode, docs[i])[1] by {
            if i < init.len() {
                assert(init[i] == docs[i]);
            } else {
                assert(docs[i] == docs.last());
            }
        }
    }
}

proof fn lemma_no_error(mode: BulkAction, docs: Seq<Document>)
    requires
        forall|i: int|
            0 <= i < docs.len() ==> document_error(mode, #[trigger] docs[i], i as usize) is None,
    ensures
        batch_error(mode, docs) is None,
    decreases docs.len(),
{
    if docs.len() > 0 {
        let init = docs.drop_last();
        assert forall|i: int| 0 <= i < init.len() implies document_error(
            mode,
            #[trigger] init[i],
            i as usize,
        ) is None by {
            assert(init[i] == docs[i]);
        }
        lemma_no_error(mode, init);
        assert(document_error(mode, docs[docs.len() - 1], (docs.len() - 1) as usize) is None);
    }
}

/// Under `Create` or `Index` every batch encodes, into two lines per document. Under
/// `Update` a batch whose documents all carry a string `_id` encodes into two lines per
/// document too, and the action line of each document carries its identifier.
pub proof fn lemma_two_lines_per_document(mode: BulkAction, docs: Seq<Document>)
    requires
        mode == BulkAction::Update ==> forall|i: int|
            0 <= i < docs.len() ==> carries_string_id(#[trigger] docs[i]),
    ensures
        batch_error(mode, docs) is None,
        encoded(mode, docs).len() == 2 * docs.len(),
        mode == BulkAction::Update ==> forall|i: int|
            0 <= i < docs.len() ==> encoded(mode, docs)[2 * i] == update_action_line(
                #[trigger] id_of(docs[i]),
            ),
{
    assert forall|i: int| 0 <= i < docs.len() implies #[trigger] document_lines(
        mode,
        docs[i],
    ).len() == 2 && document_error(mode, docs[i], i as usize) is None by {
        if mode == BulkAction::Update {
            assert(carries_string_id(docs[i]));
        }
    }
    lemma_no_error(mode, docs);
    lemma_encoded_pairs(mode, docs);
    if mode == BulkAction::Update {
        assert forall|i: int| 0 <= i < docs.len() implies encoded(mode, docs)[2 * i]
            == update_action_line(#[trigger] id_of(docs[i])) by {
            assert(carries_string_id(docs[i]));
            assert(document_lines(mode, docs[i]).len() == 2);
        }
    }
}

/// Under `Update`, a batch fails as a whole at its first document that is an object with
/// no `_id` member, when every document before it encodes: the error is `MissingId` with
/// that document's position.
pub proof fn lemma_missing_id_fails_batch(docs: Seq<Document>, k: int)
    requires
        0 <= k < docs.len(),
        forall|j: int|
            0 <= j < k ==> document_error(BulkAction::Update, #[trigger] docs[j], j as usize)
                is None,
        docs[k] matches Document::Object(fs) && !has_id(fs@),
    ensures
        batch_error(BulkAction::Update, docs) == Some(EncodingError::MissingId { position: k as usize }),
{
    let prefix = docs.take(k);
    assert forall|j: int| 0 <= j < prefix.len() implies document_error(
        BulkAction::Update,
        #[trigger] prefix[j],
        j as usize,
    ) is None by {
        assert(prefix[j] == docs[j]);
    }
    lemma_no_error(BulkAction::Update, prefix);
    let upto = docs.take(k + 1);
    assert(upto.drop_last() =~= prefix);
    assert(upto.last() == docs[k]);
    lemma_error_stays(BulkAction::Update, docs, k + 1);
}

} // verus!
