//! What a bulk response says: its overall error flag and cause, and one result per
//! operation of the request.
use vstd::prelude::*;

use crate::text::{append_decimal, decimal, push_str};

verus! {

/// A parsed bulk response.
#[derive(Clone, Debug, PartialEq, Eq)]
pub struct BulkResponse {
    /// The top-level error, when the store rejected the request as a whole.
    pub error: Option<ErrorType>,
    /// Whether any operation failed, when the store says so.
    pub errors: Option<bool>,
    /// One result per operation, in the request's order.
    pub items: Option<Vec<BulkItem>>,
}

/// A top-level error: an object with a type, or a bare message.
#[derive(Clone, Debug, PartialEq, Eq)]
pub enum ErrorType {
    Object(ErrorCause),
    Message(String),
}

/// The type of a top-level error.
#[derive(Clone, Debug, PartialEq, Eq)]
pub struct ErrorCause {
    pub kind: String,
}

/// The result of one operation, under the name of its action.
#[derive(Clone, Debug, PartialEq, Eq)]
pub enum BulkItem {
    Create { create: ResponseItem },
    Index { index: ResponseItem },
    Update { update: ResponseItem },
}

/// The result of one operation: where it went, its status and, when it failed, why.
#[derive(Clone, Debug, PartialEq, Eq)]
pub struct ResponseItem {
    pub index: String,
    pub id: String,
    pub status: u16,
    pub error: Option<ResponseError>,
}

/// Why one operation failed.
#[derive(Clone, Debug, PartialEq, Eq)]
pub struct ResponseError {
    pub caused_by: CausedBy,
}

/// The underlying cause of a failed operation.
#[derive(Clone, Debug, PartialEq, Eq)]
pub struct CausedBy {
    pub kind: String,
    pub reason: String,
}

/// The result inside an item, whatever its action.
pub open spec fn item_of(b: BulkItem) -> ResponseItem {
    match b {
        BulkItem::Create { create } => create,
        BulkItem::Index { index } => index,
        BulkItem::Update { update } => update,
    }
}

/// Whether the store accepted the operation: a create only with `201 Created`, an index or
/// an update with `200 OK` or `201 Created`.
pub open spec fn accepted(b: BulkItem) -> bool {
    match b {
        BulkItem::Create { create } => create.status == 201,
        BulkItem::Index { index } => index.status == 200 || index.status == 201,
        BulkItem::Update { update } => update.status == 200 || update.status == 201,
    }
}

/// How many of `items` the store accepted.
pub open spec fn count_accepted(items: Seq<BulkItem>) -> nat
    decreases items.len(),
{
    if items.len() == 0 {
        0
    } else {
        count_accepted(items.drop_last()) + if accepted(items.last()) {
            1nat
        } else {
            0nat
        }
    }
}

/// How many operations of a response the store accepted.
pub open spec fn success_total(r: BulkResponse) -> nat {
    match r.items {
        Some(items) => count_accepted(items@),
        None => 0,
    }
}

/// The description of the top-level error, `unknown` when there is none.
pub open spec fn cause_text(r: BulkResponse) -> Seq<char> {
    match r.error {
        Some(ErrorType::Object(c)) => c.kind@,
        Some(ErrorType::Message(m)) => m@,
        None => "unknown"@,
    }
}

/// `type - reason` of a failed operation.
pub open spec fn failure_text(e: ResponseError) -> Seq<char> {
    e.caused_by.kind@ + " - "@ + e.caused_by.reason@
}

/// `<index> type - reason` of an item that failed.
pub open spec fn item_message(b: BulkItem) -> Option<Seq<char>> {
    match item_of(b).error {
        Some(e) => Some("<"@ + item_of(b).index@ + "> "@ + failure_text(e)),
        None => None,
    }
}

/// `<index> type` of an item that failed: the index and the type of the cause, which
/// together say what went wrong where.
pub open spec fn item_pair(b: BulkItem) -> Option<Seq<char>> {
    match item_of(b).error {
        Some(e) => Some("<"@ + item_of(b).index@ + "> "@ + e.caused_by.kind@),
        None => None,
    }
}

/// The index and cause type of each failed item, in order.
pub open spec fn messages(items: Seq<BulkItem>) -> Seq<Seq<char>>
    decreases items.len(),
{
    if items.len() == 0 {
        Seq::empty()
    } else {
        match item_pair(items.last()) {
            Some(m) => messages(items.drop_last()).push(m),
            None => messages(items.drop_last()),
        }
    }
}

/// The distinct messages of `ms`, in the order of their first occurrence.
pub open spec fn distinct(ms: Seq<Seq<char>>) -> Seq<Seq<char>>
    decreases ms.len(),
{
    if ms.len() == 0 {
        Seq::empty()
    } else if distinct(ms.drop_last()).contains(ms.last()) {
        distinct(ms.drop_last())
    } else {
        distinct(ms.drop_last()).push(ms.last())
    }
}

/// How often `m` occurs in `ms`.
pub open spec fn occurrences(ms: Seq<Seq<char>>, m: Seq<char>) -> nat
    decreases ms.len(),
{
    if ms.len() == 0 {
        0
    } else {
        occurrences(ms.drop_last(), m) + if ms.last() == m {
            1nat
        } else {
            0nat
        }
    }
}

/// One entry of the tally: `(count) message`.
pub open spec fn tally_entry(ms: Seq<Seq<char>>, m: Seq<char>) -> Seq<char> {
    "("@ + decimal(occurrences(ms, m)) + ") "@ + m
}

/// The entries for the messages `keys`, separated by `, `.
pub open spec fn tally_of(ms: Seq<Seq<char>>, keys: Seq<Seq<char>>) -> Seq<char>
    decreases keys.len(),
{
    if keys.len() == 0 {
        Seq::empty()
    } else if keys.len() == 1 {
        tally_entry(ms, keys[0])
    } else {
        tally_of(ms, keys.drop_last()) + ", "@ + tally_entry(ms, keys.last())
    }
}

/// The tally of the failed items of a response that reports errors, one entry per
/// distinct pair of index and cause type; empty otherwise.
pub open spec fn error_tally(r: BulkResponse) -> Seq<char> {
    match r.items {
        Some(items) => if r.errors == Some(true) {
            tally_of(messages(items@), distinct(messages(items@)))
        } else {
            Seq::empty()
        },
        None => Seq::empty(),
    }
}

/// The text of each string.
pub open spec fn texts(v: Seq<String>) -> Seq<Seq<char>> {
    v.map_values(|s: String| s@)
}

impl BulkItem {
    fn result(&self) -> (r: &ResponseItem)
        ensures
            *r == item_of(*self),
    {
        match self {
            BulkItem::Create { create } => create,
            BulkItem::Index { index } => index,
            BulkItem::Update { update } => update,
        }
    }

    /// Whether the store accepted this operation.
    pub fn is_success(&self) -> (r: bool)
        ensures
            r == accepted(*self),
    {
        match self {
            BulkItem::Create { create } => create.status == 201,
            BulkItem::Index { index } => index.status == 200 || index.status == 201,
            BulkItem::Update { update } => update.status == 200 || update.status == 201,
        }
    }

    /// `type - reason` when the operation failed.
    pub fn error_type(&self) -> (r: Option<String>)
        ensures
            r is Some <==> item_of(*self).error is Some,
            r matches Some(t) ==> t@ == failure_text(item_of(*self).error->0),
    {
        match &self.result().error {
            Some(e) => {
                let mut t = e.caused_by.kind.clone();
                push_str(&mut t, " - ");
                push_str(&mut t, e.caused_by.reason.as_str());
                Some(t)
            },
            None => None,
        }
    }

    /// The index that the operation went to.
    pub fn index(&self) -> (r: String)
        ensures
            r@ == item_of(*self).index@,
    {
        self.result().index.clone()
    }

    /// `<index> type` when the operation failed.
    pub fn error_pair(&self) -> (r: Option<String>)
        ensures
            r is Some <==> item_pair(*self) is Some,
            r matches Some(m) ==> m@ == item_pair(*self)->0,
    {
        match &self.result().error {
            Some(e) => {
                let mut m = String::from_str("<");
                push_str(&mut m, self.result().index.as_str());
                push_str(&mut m, "> ");
                push_str(&mut m, e.caused_by.kind.as_str());
                Some(m)
            },
            None => None,
        }
    }

    /// `<index> type - reason` when the operation failed.
    pub fn error_message(&self) -> (r: Option<String>)
        ensures
            r is Some <==> item_message(*self) is Some,
            r matches Some(m) ==> m@ == item_message(*self)->0,
    {
        match self.error_type() {
            Some(t) => {
                let mut m = String::from_str("<");
                push_str(&mut m, self.index().as_str());
                push_str(&mut m, "> ");
                push_str(&mut m, t.as_str());
                Some(m)
            },
            None => None,
        }
    }
}

fn position_of(keys: &Vec<String>, m: &String) -> (r: Option<usize>)
    ensures
        r matches Some(j) ==> j < keys.len() && keys@[j as int]@ == m@,
        r is None ==> !texts(keys@).contains(m@),
{
    let mut j: usize = 0;
    while j < keys.len()
        invariant
            j <= keys.len(),
            forall|k: int| 0 <= k < j ==> keys@[k]@ != m@,
        decreases keys.len() - j,
    {
        if keys[j] == *m {
            return Some(j);
        }
        j = j + 1;
    }
    assert(!texts(keys@).contains(m@)) by {
        if texts(keys@).contains(m@) {
            let k = choose|k: int| 0 <= k < keys.len() && texts(keys@)[k] == m@;
            assert(keys@[k]@ == m@);
        }
    }
    None
}

impl BulkResponse {
    /// The description of the top-level error: its type, or its message, or `unknown`.
    pub fn error_cause(&self) -> (r: String)
        ensures
            r@ == cause_text(*self),
    {
        match &self.error {
            Some(ErrorType::Object(c)) => c.kind.clone(),
            Some(ErrorType::Message(m)) => m.clone(),
            None => String::from_str("unknown"),
        }
    }

    /// Whether the store reported that some operation failed.
    pub fn has_errors(&self) -> (r: bool)
        ensures
            r == (self.errors == Some(true)),
    {
        match self.errors {
            Some(true) => true,
            _ => false,
        }
    }

    /// How many operations the store accepted.
    pub fn success_count(&self) -> (r: usize)
        ensures
            r == success_total(*self),
    {
        match &self.items {
            Some(items) => {
                let mut n: usize = 0;
                let mut i: usize = 0;
                while i < items.len()
                    invariant
                        i <= items.len(),
                        n <= i,
                        n == count_accepted(items@.take(i as int)),
                    decreases items.len() - i,
                {
                    assert(items@.take(i as int + 1).drop_last() =~= items@.take(i as int));
                    if items[i].is_success() {
                        n = n + 1;
                    }
                    i = i + 1;
                }
                assert(items@.take(items.len() as int) =~= items@);
                n
            },
            None => 0,
        }
    }

    /// The failed operations, tallied by index and cause type (`<index> type`) in the order
    /// of first occurrence, as `(count) <index> type` entries separated by `, `; empty
    /// unless the response reports errors.
    pub fn error_counts(&self) -> (r: String)
        ensures
            r@ == error_tally(*self),
    {
        let mut out = String::new();
        match &self.items {
            Some(items) => {
                if self.has_errors() {
                    let (keys, counts) = tally(items);
                    let ghost ms = messages(items@);
                    let mut k: usize = 0;
                    while k < keys.len()
                        invariant
                            k <= keys.len(),
                            keys.len() == counts.len(),
                            texts(keys@) == distinct(ms),
                            forall|j: int|
                                0 <= j < keys.len() ==> counts@[j] == occurrences(
                                    ms,
                                    #[trigger] keys@[j]@,
                                ),
                            out@ == tally_of(ms, texts(keys@).take(k as int)),
                        decreases keys.len() - k,
                    {
                        let ghost before = out@;
                        if k > 0 {
                            push_str(&mut out, ", ");
                        }
                        push_str(&mut out, "(");
                        append_decimal(&mut out, counts[k]);
                        push_str(&mut out, ") ");
                        push_str(&mut out, keys[k].as_str());
                        let ghost upto = texts(keys@).take(k as int + 1);
                        assert(upto.drop_last() =~= texts(keys@).take(k as int));
                        assert(upto.last() == keys@[k as int]@);
                        assert(out@ =~= tally_of(ms, upto));
                        k = k + 1;
                    }
                    assert(texts(keys@).take(keys.len() as int) =~= texts(keys@));
                }
            },
            None => {},
        }
        out
    }
}

proof fn lemma_occurrences_push(ms: Seq<Seq<char>>, m: Seq<char>, x: Seq<char>)
    ensures
        occurrences(ms.push(m), x) == occurrences(ms, x) + if m == x {
            1nat
        } else {
            0nat
        },
{
    assert(ms.push(m).drop_last() =~= ms);
}

proof fn lemma_distinct_contains(ms: Seq<Seq<char>>, x: Seq<char>)
    ensures
        distinct(ms).contains(x) <==> ms.contains(x),
    decreases ms.len(),
{
    if ms.len() > 0 {
        let init = ms.drop_last();
        let d = distinct(init);
        lemma_distinct_contains(init, x);
        if init.contains(x) {
            let k = choose|k: int| 0 <= k < init.len() && init[k] == x;
            assert(ms[k] == x);
        }
        if ms.contains(x) && x != ms.last() {
            let k = choose|k: int| 0 <= k < ms.len() && ms[k] == x;
            assert(init[k] == x);
        }
        if x == ms.last() {
            assert(ms[ms.len() - 1] == x);
        }
        if !d.contains(ms.last()) {
            let p = d.push(ms.last());
            assert(p[d.len() as int] == ms.last());
            if d.contains(x) {
                let k = choose|k: int| 0 <= k < d.len() && d[k] == x;
                assert(p[k] == x);
            }
            if p.contains(x) && x != ms.last() {
                let k = choose|k: int| 0 <= k < p.len() && p[k] == x;
                assert(d[k] == x);
            }
        }
    }
}

proof fn lemma_occurrences_absent(ms: Seq<Seq<char>>, x: Seq<char>)
    requires
        !distinct(ms).contains(x),
    ensures
        occurrences(ms, x) == 0,
    decreases ms.len(),
{
    lemma_distinct_contains(ms, x);
    if ms.len() > 0 {
        let init = ms.drop_last();
        assert(x != ms.last());
        lemma_distinct_contains(init, x);
        if init.contains(x) {
            let k = choose|k: int| 0 <= k < init.len() && init[k] == x;
            assert(ms[k] == x);
        }
        lemma_occurrences_absent(init, x);
    }
}

/// The distinct index and cause type pairs of the failed items, in order of first
/// occurrence, with how often each occurs.
fn tally(items: &Vec<BulkItem>) -> (r: (Vec<String>, Vec<usize>))
    ensures
        r.0.len() == r.1.len(),
        texts(r.0@) == distinct(messages(items@)),
        forall|j: int|
            0 <= j < r.0.len() ==> r.1@[j] == occurrences(messages(items@), #[trigger] r.0@[j]@),
{
    let mut keys: Vec<String> = Vec::new();
    let mut counts: Vec<usize> = Vec::new();
    let mut i: usize = 0;
    while i < items.len()
        invariant
            i <= items.len(),
            keys.len() == counts.len(),
            texts(keys@) == distinct(messages(items@.take(i as int))),
            forall|j: int|
                0 <= j < keys.len() ==> counts@[j] == occurrences(
                    messages(items@.take(i as int)),
                    #[trigger] keys@[j]@,
                ) && counts@[j] <= i,
            forall|a: int, b: int|
                0 <= a < b < keys.len() ==> #[trigger] keys@[a]@ != #[trigger] keys@[b]@,
        decreases items.len() - i,
    {
        let ghost prev = messages(items@.take(i as int));
        let ghost upto = items@.take(i as int + 1);
        assert(upto.drop_last() =~= items@.take(i as int));
        assert(upto.last() == items@[i as int]);
        match items[i].error_pair() {
            Some(m) => {
                assert(messages(upto) == prev.push(m@));
                assert(prev.push(m@).drop_last() =~= prev);
                match position_of(&keys, &m) {
                    Some(j) => {
                        assert(texts(keys@).contains(m@)) by {
                            assert(texts(keys@)[j as int] == m@);
                        }
                        let c = counts[j];
                        counts.set(j, c + 1);
                        assert forall|k: int| 0 <= k < keys.len() implies counts@[k]
                            == occurrences(messages(upto), #[trigger] keys@[k]@) && counts@[k]
                            <= i + 1 by {
                            lemma_occurrences_push(prev, m@, keys@[k]@);
                            if k != j {
                                if k < j {
                                    assert(keys@[k]@ != keys@[j as int]@);
                                } else {
                                    assert(keys@[j as int]@ != keys@[k]@);
                                }
                            }
                        }
                    },
                    None => {
                        let ghost old_keys = keys@;
                        let ghost old_counts = counts@;
                        keys.push(m);
                        counts.push(1);
                        assert(texts(keys@) =~= texts(old_keys).push(m@));
                        assert forall|k: int| 0 <= k < keys.len() implies counts@[k]
                            == occurrences(messages(upto), #[trigger] keys@[k]@) && counts@[k]
                            <= i + 1 by {
                            lemma_occurrences_push(prev, m@, keys@[k]@);
                            if k < old_keys.len() {
                                assert(keys@[k] == old_keys[k]);
                                assert(texts(old_keys)[k] == old_keys[k]@);
                                assert(old_keys[k]@ != m@);
                            } else {
                                lemma_occurrences_absent(prev, m@);
                            }
                        }
                        assert forall|a: int, b: int| 0 <= a < b < keys.len() implies
                            #[trigger] keys@[a]@ != #[trigger] keys@[b]@ by {
                            if b == old_keys.len() {
                                assert(texts(old_keys)[a] == old_keys[a]@);
                            } else {
                                assert(keys@[a] == old_keys[a]);
                                assert(keys@[b] == old_keys[b]);
                            }
                        }
                    },
                }
            },
            None => {
                assert(messages(upto) == prev);
            },
        }
        i = i + 1;
    }
    assert(items@.take(items.len() as int) =~= items@);
    (keys, counts)
}

} // verus!
