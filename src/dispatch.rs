//! The engine of a bulk destination: it queues documents, hands out full batches to be
//! sent, and adds up what the store confirmed.
use vstd::prelude::*;

use crate::bulk_response::{success_total, BulkResponse};
use crate::document::Document;
use crate::retry::{
    finish_with, lemma_throttled_then_accepted, received, step_of, throttled_reply,
    throttled_state,
};
use crate::text::push_str;

verus! {

/// How many documents one bulk request carries.
pub const BATCH_SIZE: usize = 5000;

/// A batch handed out to be sent: its task number and its documents in arrival order.
#[derive(Debug)]
pub struct Batch {
    pub task: usize,
    pub documents: Vec<Document>,
}

/// Why a destination cannot be set up.
#[derive(Clone, Copy, Debug, PartialEq, Eq, Structural)]
pub enum OutputError {
    /// The destination address names no host.
    MissingHost,
}

impl OutputError {
    /// A sentence that says what is wrong.
    pub fn message(&self) -> (r: String)
        ensures
            r@ == "Url missing host_str"@,
    {
        String::from_str("Url missing host_str")
    }
}

/// One task: how many documents its batch holds and, once it has ended, how many of them
/// the store confirmed.
pub struct TaskView {
    pub size: nat,
    pub successes: Option<nat>,
}

/// What an engine holds: where it sends, the documents waiting for a batch, its tasks
/// in the order they were handed out, every document submitted, and the documents
/// handed out in batches, in order.
pub struct OutputView {
    pub hostname: Seq<char>,
    pub index: Seq<char>,
    pub pending: Seq<Document>,
    pub tasks: Seq<TaskView>,
    pub submitted: Seq<Document>,
    pub dispatched: Seq<Document>,
}

/// The number of documents in all of `tasks`.
pub open spec fn total_size(tasks: Seq<TaskView>) -> nat
    decreases tasks.len(),
{
    if tasks.len() == 0 {
        0
    } else {
        total_size(tasks.drop_last()) + tasks.last().size
    }
}

/// The confirmed documents of one task: none until it has ended.
pub open spec fn confirmed_of(t: TaskView) -> nat {
    match t.successes {
        Some(n) => n,
        None => 0,
    }
}

/// The number of confirmed documents over all of `tasks`.
pub open spec fn confirmed_total(tasks: Seq<TaskView>) -> nat
    decreases tasks.len(),
{
    if tasks.len() == 0 {
        0
    } else {
        confirmed_total(tasks.drop_last()) + confirmed_of(tasks.last())
    }
}

/// The relations that hold of every engine: fewer documents wait than a batch holds,
/// no task confirms more documents than its batch held, the batches handed out are the
/// submitted documents in arrival order with the waiting ones after them.
pub open spec fn consistent(v: OutputView) -> bool {
    &&& v.pending.len() < BATCH_SIZE
    &&& forall|t: int|
        0 <= t < v.tasks.len() ==> (#[trigger] v.tasks[t]).size <= BATCH_SIZE && confirmed_of(
            v.tasks[t],
        ) <= v.tasks[t].size
    &&& total_size(v.tasks) == v.dispatched.len()
    &&& v.submitted == v.dispatched + v.pending
}

/// The index named by a path: the path without its leading slashes.
pub open spec fn trim_slashes(s: Seq<char>) -> Seq<char>
    decreases s.len(),
{
    if s.len() > 0 && s[0] == '/' {
        trim_slashes(s.skip(1))
    } else {
        s
    }
}

/// A bulk destination: one host and one index.
pub struct ElasticsearchOutput {
    hostname: String,
    index: String,
    queue: Vec<Document>,
    sizes: Vec<usize>,
    results: Vec<Option<usize>>,
    confirmed: usize,
    submitted: Ghost<Seq<Document>>,
    dispatched: Ghost<Seq<Document>>,
}

impl View for ElasticsearchOutput {
    type V = OutputView;

    closed spec fn view(&self) -> OutputView {
        OutputView {
            hostname: self.hostname@,
            index: self.index@,
            pending: self.queue@,
            tasks: Seq::new(
                self.sizes@.len(),
                |t: int|
                    TaskView {
                        size: self.sizes@[t] as nat,
                        successes: match self.results@[t] {
                            Some(n) => Some(n as nat),
                            None => None,
                        },
                    },
            ),
            submitted: self.submitted@,
            dispatched: self.dispatched@,
        }
    }
}

proof fn lemma_push_task(tasks: Seq<TaskView>, t: TaskView)
    requires
        t.successes is None,
    ensures
        total_size(tasks.push(t)) == total_size(tasks) + t.size,
        confirmed_total(tasks.push(t)) == confirmed_total(tasks),
{
    assert(tasks.push(t).drop_last() =~= tasks);
}

proof fn lemma_complete_task(tasks: Seq<TaskView>, t: int, n: nat)
    requires
        0 <= t < tasks.len(),
        tasks[t].successes is None,
    ensures
        total_size(tasks.update(t, TaskView { size: tasks[t].size, successes: Some(n) }))
            == total_size(tasks),
        confirmed_total(tasks.update(t, TaskView { size: tasks[t].size, successes: Some(n) }))
            == confirmed_total(tasks) + n,
    decreases tasks.len(),
{
    let done = TaskView { size: tasks[t].size, successes: Some(n) };
    let updated = tasks.update(t, done);
    if t == tasks.len() - 1 {
        assert(updated.drop_last() =~= tasks.drop_last());
    } else {
        assert(updated.drop_last() =~= tasks.drop_last().update(t, done));
        lemma_complete_task(tasks.drop_last(), t, n);
    }
}

proof fn lemma_confirmed_within_size(tasks: Seq<TaskView>)
    requires
        forall|t: int|
            0 <= t < tasks.len() ==> confirmed_of(#[trigger] tasks[t]) <= tasks[t].size,
    ensures
        confirmed_total(tasks) <= total_size(tasks),
    decreases tasks.len(),
{
    if tasks.len() > 0 {
        let init = tasks.drop_last();
        assert forall|t: int| 0 <= t < init.len() implies confirmed_of(#[trigger] init[t])
            <= init[t].size by {
            assert(init[t] == tasks[t]);
        }
        lemma_confirmed_within_size(init);
        assert(confirmed_of(tasks[tasks.len() - 1]) <= tasks[tasks.len() - 1].size);
    }
}

/// However documents were submitted and tasks ended, an engine never confirms more
/// documents than were submitted to it.
pub proof fn lemma_never_inflated(v: OutputView)
    requires
        consistent(v),
    ensures
        confirmed_total(v.tasks) <= v.submitted.len(),
{
    lemma_confirmed_within_size(v.tasks);
}

/// A task that has ended with `n` confirmed documents.
pub open spec fn ended(t: TaskView, n: nat) -> TaskView {
    TaskView { size: t.size, successes: Some(n) }
}

/// A batch that is throttled any number of times and then accepted with a `200` or
/// `201` response counts once: every throttled reply makes its task resend rather than
/// end, the accepted response ends it with that response's count of accepted
/// operations, and recording that outcome adds exactly that count to the confirmed
/// total, when it is no more than the batch held.
pub proof fn lemma_throttled_batch_counted_once(
    v: OutputView,
    task: int,
    throttled: Seq<BulkResponse>,
    status: u16,
    response: BulkResponse,
)
    requires
        consistent(v),
        0 <= task < v.tasks.len(),
        v.tasks[task].successes is None,
        status == 200 || status == 201,
        success_total(response) <= v.tasks[task].size,
    ensures
        forall|i: int|
            0 <= i < throttled.len() ==> step_of(
                throttled_state(i as nat),
                throttled_reply(#[trigger] throttled[i]),
            ).1 is Retry,
        step_of(throttled_state(throttled.len()), received(status, response)).1 == finish_with(
            success_total(response) as usize,
        ),
        confirmed_total(v.tasks.update(task, ended(v.tasks[task], success_total(response))))
            == confirmed_total(v.tasks) + success_total(response),
{
    lemma_throttled_then_accepted(throttled, status, response);
    lemma_complete_task(v.tasks, task, success_total(response));
}

impl ElasticsearchOutput {
    /// The engine's relations, and that its running count of confirmed documents is their
    /// total, held at the largest `usize`.
    pub closed spec fn wf(&self) -> bool {
        &&& consistent(self@)
        &&& self.sizes.len() == self.results.len()
        &&& self.confirmed == if confirmed_total(self@.tasks) > usize::MAX {
            usize::MAX as nat
        } else {
            confirmed_total(self@.tasks)
        }
    }

    /// Every engine that the library hands out satisfies its relations.
    pub proof fn lemma_consistent(&self)
        requires
            self.wf(),
        ensures
            consistent(self@),
    {
    }

    /// An engine for the index named by `path` on `host`. An address without a host is
    /// refused.
    pub fn try_new(host: Option<String>, path: String) -> (r: Result<Self, OutputError>)
        ensures
            host is None <==> r is Err,
            r matches Err(e) ==> e == OutputError::MissingHost,
            r matches Ok(o) ==> {
                &&& o.wf()
                &&& o@.hostname == host->0@
                &&& o@.index == trim_slashes(path@)
                &&& o@.pending.len() == 0
                &&& o@.tasks.len() == 0
                &&& o@.submitted.len() == 0
            },
    {
        match host {
            None => Err(OutputError::MissingHost),
            Some(hostname) => {
                let index = trim_leading_slashes(&path);
                let o = ElasticsearchOutput {
                    hostname,
                    index,
                    queue: Vec::new(),
                    sizes: Vec::new(),
                    results: Vec::new(),
                    confirmed: 0,
                    submitted: Ghost(Seq::empty()),
                    dispatched: Ghost(Seq::empty()),
                };
                assert(o@.tasks =~= Seq::<TaskView>::empty());
                assert(o@.submitted =~= o@.dispatched + o@.pending);
                Ok(o)
            },
        }
    }

    /// Queues a document. When that fills a batch, the whole queue is handed out as the
    /// batch of a new task and the queue starts empty.
    pub fn send(&mut self, doc: Document) -> (r: Option<Batch>)
        requires
            old(self).wf(),
        ensures
            final(self).wf(),
            final(self)@.hostname == old(self)@.hostname,
            final(self)@.index == old(self)@.index,
            final(self)@.submitted == old(self)@.submitted.push(doc),
            old(self)@.pending.len() + 1 == BATCH_SIZE ==> {
                &&& r matches Some(b) && b.task == old(self)@.tasks.len() && b.documents@
                    == old(self)@.pending.push(doc)
                &&& final(self)@.pending.len() == 0
                &&& final(self)@.tasks == old(self)@.tasks.push(
                    TaskView { size: BATCH_SIZE as nat, successes: None },
                )
            },
            old(self)@.pending.len() + 1 < BATCH_SIZE ==> {
                &&& r is None
                &&& final(self)@.pending == old(self)@.pending.push(doc)
                &&& final(self)@.tasks == old(self)@.tasks
            },
    {
        let ghost d = doc;
        self.queue.push(doc);
        self.submitted = Ghost(self.submitted@.push(d));
        if self.queue.len() >= BATCH_SIZE {
            Some(self.hand_out())
        } else {
            assert(self@.tasks =~= old(self)@.tasks);
            assert(self@.submitted =~= self@.dispatched + self@.pending);
            None
        }
    }

    /// Hands out the whole queue as the batch of a new task.
    fn hand_out(&mut self) -> (r: Batch)
        requires
            0 < old(self).queue.len() <= BATCH_SIZE,
            old(self).sizes.len() == old(self).results.len(),
            forall|t: int|
                0 <= t < old(self)@.tasks.len() ==> (#[trigger] old(self)@.tasks[t]).size
                    <= BATCH_SIZE && confirmed_of(old(self)@.tasks[t]) <= old(self)@.tasks[t].size,
            total_size(old(self)@.tasks) == old(self)@.dispatched.len(),
            old(self)@.submitted == old(self)@.dispatched + old(self)@.pending,
            old(self).confirmed == if confirmed_total(old(self)@.tasks) > usize::MAX {
                usize::MAX as nat
            } else {
                confirmed_total(old(self)@.tasks)
            },
        ensures
            final(self).wf(),
            r.task == old(self)@.tasks.len(),
            r.documents@ == old(self)@.pending,
            final(self)@.pending.len() == 0,
            final(self)@.tasks == old(self)@.tasks.push(
                TaskView { size: old(self)@.pending.len(), successes: None },
            ),
            final(self)@.hostname == old(self)@.hostname,
            final(self)@.index == old(self)@.index,
            final(self)@.submitted == old(self)@.submitted,
    {
        let mut documents: Vec<Document> = Vec::new();
        std::mem::swap(&mut documents, &mut self.queue);
        let task = self.sizes.len();
        let ghost before = self@.tasks;
        self.sizes.push(documents.len());
        self.results.push(None);
        self.dispatched = Ghost(self.dispatched@ + documents@);
        let ghost added = TaskView { size: documents.len() as nat, successes: None };
        assert(self@.tasks =~= before.push(added));
        proof {
            lemma_push_task(before, added);
        }
        assert(self@.submitted =~= self@.dispatched + self@.pending);
        Batch { task, documents }
    }

    /// Hands out the waiting documents, if any, as the batch of a new task. This is how
    /// a destination is closed: the last, partial batch goes out.
    pub fn flush(&mut self) -> (r: Option<Batch>)
        requires
            old(self).wf(),
        ensures
            final(self).wf(),
            final(self)@.hostname == old(self)@.hostname,
            final(self)@.index == old(self)@.index,
            final(self)@.submitted == old(self)@.submitted,
            final(self)@.pending.len() == 0,
            old(self)@.pending.len() == 0 ==> r is None && final(self)@ == old(self)@,
            old(self)@.pending.len() > 0 ==> {
                &&& r matches Some(b) && b.task == old(self)@.tasks.len() && b.documents@
                    == old(self)@.pending
                &&& final(self)@.tasks == old(self)@.tasks.push(
                    TaskView { size: old(self)@.pending.len(), successes: None },
                )
            },
    {
        if self.queue.len() == 0 {
            None
        } else {
            Some(self.hand_out())
        }
    }

    /// Records that task `task` ended with `successes` confirmed documents. A report for a
    /// task that was never handed out, for one that has already ended, or of more
    /// documents than its batch held is refused, and nothing changes.
    pub fn complete(&mut self, task: usize, successes: usize) -> (ok: bool)
        requires
            old(self).wf(),
        ensures
            final(self).wf(),
            ok == (task < old(self)@.tasks.len() && old(self)@.tasks[task as int].successes is None
                && successes <= old(self)@.tasks[task as int].size),
            ok ==> final(self)@ == (OutputView {
                tasks: old(self)@.tasks.update(
                    task as int,
                    TaskView { size: old(self)@.tasks[task as int].size, successes: Some(successes as nat) },
                ),
                ..old(self)@
            }),
            !ok ==> final(self)@ == old(self)@,
    {
        if task >= self.sizes.len() {
            return false;
        }
        let size = self.sizes[task];
        match self.results[task] {
            Some(_) => false,
            None => {
                if successes > size {
                    return false;
                }
                let ghost before = self@.tasks;
                self.results.set(task, Some(successes));
                self.confirmed = self.confirmed.saturating_add(successes);
                let ghost done = TaskView { size: size as nat, successes: Some(successes as nat) };
                assert(self@.tasks =~= before.update(task as int, done));
                proof {
                    lemma_complete_task(before, task as int, successes as nat);
                }
                assert forall|t: int| 0 <= t < self@.tasks.len() implies (
                #[trigger] self@.tasks[t]).size <= BATCH_SIZE && confirmed_of(self@.tasks[t])
                    <= self@.tasks[t].size by {
                    if t != task {
                        assert(self@.tasks[t] == before[t]);
                    }
                }
                true
            },
        }
    }

    /// The number of documents that the ended tasks confirmed, held at the largest
    /// `usize`; never more than the number of documents submitted.
    pub fn confirmed(&self) -> (r: usize)
        requires
            self.wf(),
        ensures
            r as nat == if confirmed_total(self@.tasks) > usize::MAX {
                usize::MAX as nat
            } else {
                confirmed_total(self@.tasks)
            },
            r <= self@.submitted.len(),
    {
        proof {
            lemma_never_inflated(self@);
        }
        self.confirmed
    }

    /// How many tasks have been handed out.
    pub fn task_count(&self) -> (r: usize)
        requires
            self.wf(),
        ensures
            r == self@.tasks.len(),
    {
        self.sizes.len()
    }

    /// How many documents wait for a batch.
    pub fn pending_count(&self) -> (r: usize)
        ensures
            r == self@.pending.len(),
    {
        self.queue.len()
    }

    /// The index that documents go to.
    pub fn index(&self) -> (r: String)
        ensures
            r@ == self@.index,
    {
        self.index.clone()
    }

    /// The destination's name for logs and summaries: `host:index`.
    pub fn name(&self) -> (r: String)
        ensures
            r@ == self@.hostname + ":"@ + self@.index,
    {
        let mut r = self.hostname.clone();
        push_str(&mut r, ":");
        push_str(&mut r, self.index.as_str());
        r
    }
}

/// `path` without its leading slashes.
fn trim_leading_slashes(path: &String) -> (r: String)
    ensures
        r@ == trim_slashes(path@),
{
    let s = path.as_str();
    let n = s.unicode_len();
    let mut i: usize = 0;
    assert(s@.skip(0) =~= s@);
    while i < n && s.get_char(i) == '/'
        invariant
            i <= n,
            n == s@.len(),
            trim_slashes(s@.skip(i as int)) == trim_slashes(s@),
        decreases n - i,
    {
        assert(s@.skip(i as int).skip(1) =~= s@.skip(i as int + 1));
        i = i + 1;
    }
    let rest = s.substring_char(i, n);
    assert(rest@ =~= s@.skip(i as int));
    if i < n {
        assert(s@.skip(i as int)[0] == s@[i as int]);
    }
    String::from_str(rest)
}

} // verus!
