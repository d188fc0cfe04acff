use vstd::prelude::*;

use crate::outcome::{ClientError, UploadResult};

verus! {

/// One file to upload: its position in the batch, its path, and the host that
/// receives it.
#[derive(Debug, Clone)]
pub struct UploadTask {
    pub index: usize,
    pub path: String,
    pub host: String,
}

/// What the driver of a batch must do next.
#[derive(Debug, Clone, Copy, PartialEq, Eq, Structural)]
pub enum Action {
    /// Start uploading the file at this position; a slot has been taken for it.
    Start(usize),
    /// Every slot is taken: wait for an upload in flight to complete.
    Wait,
    /// Every file has been uploaded once and nothing is in flight.
    Finished,
}

/// How many entries of `s` hold no result yet.
pub open spec fn pending_count(s: Seq<Option<UploadResult>>) -> nat
    decreases s.len(),
{
    if s.len() == 0 {
        0
    } else {
        pending_count(s.drop_last()) + if s.last() is None {
            1nat
        } else {
            0nat
        }
    }
}

/// The state of a batch: the budget of concurrent uploads, the paths in the
/// order they were listed, how many of them have been started, and the result
/// of each (none while it has not completed).
pub struct SchedulerView {
    pub budget: nat,
    pub paths: Seq<Seq<char>>,
    pub next: nat,
    pub results: Seq<Option<UploadResult>>,
}

impl SchedulerView {
    pub open spec fn total(self) -> nat {
        self.paths.len()
    }

    /// The upload of path `i` has started and not completed.
    pub open spec fn in_flight(self, i: int) -> bool {
        0 <= i < self.next && self.results[i] is None
    }

    /// The number of uploads in flight.
    pub open spec fn active(self) -> nat {
        pending_count(self.results.take(self.next as int))
    }

    pub open spec fn wf(self) -> bool {
        &&& self.budget > 0
        &&& self.results.len() == self.paths.len()
        &&& self.next <= self.paths.len()
        &&& forall|i: int| self.next <= i < self.results.len() ==> self.results[i] is None
        &&& self.active() <= self.budget
    }

    pub open spec fn is_finished(self) -> bool {
        self.next == self.total() && self.active() == 0
    }

    /// A new upload is admitted exactly when a slot is free and a path is left.
    pub open spec fn can_admit(self) -> bool {
        self.active() < self.budget && self.next < self.total()
    }

    pub open spec fn action(self) -> Action {
        if self.can_admit() {
            Action::Start(self.next as usize)
        } else if self.is_finished() {
            Action::Finished
        } else {
            Action::Wait
        }
    }

    pub open spec fn after_action(self) -> SchedulerView {
        if self.can_admit() {
            SchedulerView { next: self.next + 1, ..self }
        } else {
            self
        }
    }

    /// The state after the upload of path `i` reported `r`; a report for a path
    /// that is not in flight changes nothing.
    pub open spec fn after_complete(self, i: int, r: UploadResult) -> SchedulerView {
        if self.in_flight(i) {
            SchedulerView { results: self.results.update(i, Some(r)), ..self }
        } else {
            self
        }
    }

    /// Two states that differ at most in what the completed uploads reported.
    pub open spec fn same_schedule(self, o: SchedulerView) -> bool {
        &&& self.budget == o.budget
        &&& self.paths == o.paths
        &&& self.next == o.next
        &&& self.results.len() == o.results.len()
        &&& forall|i: int|
            0 <= i < self.results.len() ==> (#[trigger] self.results[i] is None <==> o.results[i] is None)
    }

    /// A measure that every step of a batch decreases.
    pub open spec fn steps_left(self) -> nat {
        2 * (self.total() - self.next) as nat + self.active()
    }
}

/// Runs a batch of uploads with at most `budget` of them in flight at once.
///
/// The driver asks for the next action, starts the upload it names, and hands
/// back each result as it completes, in any order.
pub struct Scheduler {
    host: String,
    budget: usize,
    paths: Vec<String>,
    next: usize,
    active: usize,
    results: Vec<Option<UploadResult>>,
}

impl View for Scheduler {
    type V = SchedulerView;

    closed spec fn view(&self) -> SchedulerView {
        SchedulerView {
            budget: self.budget as nat,
            paths: self.paths@.map_values(|p: String| p@),
            next: self.next as nat,
            results: self.results@,
        }
    }
}

impl Scheduler {
    /// The host that every upload of the batch goes to.
    pub closed spec fn host_spec(&self) -> Seq<char> {
        self.host@
    }

    /// The abstract state is well formed and the counter of uploads in flight
    /// agrees with it.
    pub closed spec fn wf(&self) -> bool {
        &&& self@.wf()
        &&& self.active as nat == self@.active()
        &&& self.results@.len() == self.paths@.len()
    }

    /// A batch over `paths`, in that order, with nothing started yet.
    pub fn new(host: String, paths: Vec<String>, budget: usize) -> (r: Scheduler)
        requires
            budget > 0,
        ensures
            r.wf(),
            r@.wf(),
            r.host_spec() == host@,
            r@.budget == budget,
            r@.paths == paths@.map_values(|p: String| p@),
            r@.next == 0,
            r@.results == Seq::new(paths@.len(), |i: int| None::<UploadResult>),
    {
        let mut results: Vec<Option<UploadResult>> = Vec::new();
        let n = paths.len();
        while results.len() < n
            invariant
                n == paths@.len(),
                results@.len() <= n,
                forall|i: int| 0 <= i < results@.len() ==> results@[i] is None,
            decreases n - results@.len(),
        {
            results.push(None);
        }
        let r = Scheduler { host, budget, paths, next: 0, active: 0, results };
        assert(r@.results.take(0) =~= Seq::<Option<UploadResult>>::empty());
        assert(r@.results =~= Seq::new(n as nat, |i: int| None::<UploadResult>));
        r
    }

    /// A batch over the outcome of listing the source directory. A listing
    /// that failed aborts the batch before any upload, as an enumeration error
    /// that carries the listing's message.
    pub fn from_listing(host: String, listing: Result<Vec<String>, String>, budget: usize) -> (r:
        Result<Scheduler, ClientError>)
        requires
            budget > 0,
        ensures
            listing matches Err(m) ==> r == Err::<Scheduler, ClientError>(
                ClientError::EnumerationError(m),
            ),
            listing matches Ok(paths) ==> r matches Ok(s) && s.wf() && s.host_spec() == host@
                && s@.budget == budget && s@.paths == paths@.map_values(|p: String| p@) && s@.next
                == 0 && s@.results == Seq::new(paths@.len(), |i: int| None::<UploadResult>),
    {
        match listing {
            Ok(paths) => Ok(Scheduler::new(host, paths, budget)),
            Err(m) => Err(ClientError::EnumerationError(m)),
        }
    }

    /// Decides the next step of the batch. When it is `Start(i)`, the upload
    /// of path `i` now holds a slot until its result is handed to `complete`.
    pub fn next_action(&mut self) -> (r: Action)
        requires
            old(self).wf(),
        ensures
            final(self).wf(),
            final(self)@.active() <= final(self)@.budget,
            final(self).host_spec() == old(self).host_spec(),
            r == old(self)@.action(),
            final(self)@ == old(self)@.after_action(),
            r is Wait ==> exists|j: int| final(self)@.in_flight(j),
    {
        proof {
            lemma_budget_respected(self@, 0, UploadResult::Success);
        }
        if self.active < self.budget && self.next < self.paths.len() {
            proof {
                lemma_admit_active(self@);
            }
            let i = self.next;
            self.next = self.next + 1;
            self.active = self.active + 1;
            assert(self@ == old(self)@.after_action());
            Action::Start(i)
        } else if self.active == 0 && self.next == self.paths.len() {
            Action::Finished
        } else {
            proof {
                if !self@.is_finished() {
                    lemma_batch_makes_progress(self@, 0, UploadResult::Success);
                }
            }
            Action::Wait
        }
    }

    /// Records the result of the upload of path `index`. Returns whether that
    /// upload was in flight; a result for any other path changes nothing.
    pub fn complete(&mut self, index: usize, result: UploadResult) -> (r: bool)
        requires
            old(self).wf(),
        ensures
            final(self).wf(),
            final(self)@.active() <= final(self)@.budget,
            final(self).host_spec() == old(self).host_spec(),
            r == old(self)@.in_flight(index as int),
            final(self)@ == old(self)@.after_complete(index as int, result),
    {
        if index < self.next && self.results[index].is_none() {
            proof {
                lemma_complete_active(self@, index as int, result);
                lemma_budget_respected(self@, index as int, result);
            }
            self.results.set(index, Some(result));
            self.active = self.active - 1;
            assert(self@ =~= old(self)@.after_complete(index as int, result));
            true
        } else {
            false
        }
    }

    /// The upload task for path `index`.
    pub fn task(&self, index: usize) -> (r: UploadTask)
        requires
            self.wf(),
            index < self@.total(),
        ensures
            r.index == index,
            r.path@ == self@.paths[index as int],
            r.host@ == self.host_spec(),
    {
        UploadTask { index, path: self.paths[index].clone(), host: self.host.clone() }
    }

    /// Whether every path has been uploaded once and nothing is in flight.
    pub fn is_finished(&self) -> (r: bool)
        requires
            self.wf(),
        ensures
            r == self@.is_finished(),
    {
        self.active == 0 && self.next == self.paths.len()
    }

    /// The number of uploads in flight.
    pub fn in_flight_count(&self) -> (r: usize)
        requires
            self.wf(),
        ensures
            r == self@.active(),
    {
        self.active
    }

    /// The number of paths in the batch.
    pub fn len(&self) -> (r: usize)
        requires
            self.wf(),
        ensures
            r == self@.total(),
    {
        self.paths.len()
    }

    /// The concurrency budget of the batch.
    pub fn budget(&self) -> (r: usize)
        ensures
            r == self@.budget,
    {
        self.budget
    }

    /// The result recorded for each path, in the order of the paths.
    pub fn results(&self) -> (r: &Vec<Option<UploadResult>>)
        ensures
            r@ == self@.results,
    {
        &self.results
    }
}

proof fn lemma_pending_count_push(s: Seq<Option<UploadResult>>, n: int)
    requires
        0 <= n < s.len(),
    ensures
        pending_count(s.take(n + 1)) == pending_count(s.take(n)) + if s[n] is None {
            1nat
        } else {
            0nat
        },
{
    assert(s.take(n + 1).drop_last() =~= s.take(n));
}

proof fn lemma_pending_count_update(s: Seq<Option<UploadResult>>, i: int, r: UploadResult)
    requires
        0 <= i < s.len(),
        s[i] is None,
    ensures
        pending_count(s) >= 1,
        pending_count(s.update(i, Some(r))) == pending_count(s) - 1,
    decreases s.len(),
{
    let t = s.update(i, Some(r));
    if i == s.len() - 1 {
        assert(t.drop_last() =~= s.drop_last());
    } else {
        assert(t.drop_last() =~= s.drop_last().update(i, Some(r)));
        lemma_pending_count_update(s.drop_last(), i, r);
    }
}

proof fn lemma_pending_count_zero(s: Seq<Option<UploadResult>>)
    ensures
        pending_count(s) == 0 <==> forall|i: int| 0 <= i < s.len() ==> s[i] is Some,
    decreases s.len(),
{
    if s.len() > 0 {
        lemma_pending_count_zero(s.drop_last());
        if pending_count(s) == 0 {
            assert forall|i: int| 0 <= i < s.len() implies s[i] is Some by {
                if i < s.len() - 1 {
                    assert(s[i] == s.drop_last()[i]);
                }
            }
        }
        if forall|i: int| 0 <= i < s.len() ==> s[i] is Some {
            assert forall|i: int| 0 <= i < s.drop_last().len() implies s.drop_last()[i] is Some by {
                assert(s[i] == s.drop_last()[i]);
            }
        }
    }
}

proof fn lemma_pending_count_same_shape(a: Seq<Option<UploadResult>>, b: Seq<Option<UploadResult>>)
    requires
        a.len() == b.len(),
        forall|i: int| 0 <= i < a.len() ==> (#[trigger] a[i] is None <==> b[i] is None),
    ensures
        pending_count(a) == pending_count(b),
    decreases a.len(),
{
    if a.len() > 0 {
        assert(a.last() is None <==> b.last() is None) by {
            assert(a[a.len() - 1] is None <==> b[a.len() - 1] is None);
        }
        assert forall|i: int| 0 <= i < a.drop_last().len() implies (#[trigger] a.drop_last()[i] is None
            <==> b.drop_last()[i] is None) by {
            assert(a[i] is None <==> b[i] is None);
        }
        lemma_pending_count_same_shape(a.drop_last(), b.drop_last());
    }
}

/// Admitting an upload adds one to the uploads in flight.
proof fn lemma_admit_active(v: SchedulerView)
    requires
        v.wf(),
        v.can_admit(),
    ensures
        v.after_action().active() == v.active() + 1,
{
    lemma_pending_count_push(v.results, v.next as int);
}

/// Completing an upload in flight takes one from the uploads in flight.
proof fn lemma_complete_active(v: SchedulerView, i: int, r: UploadResult)
    requires
        v.wf(),
        v.in_flight(i),
    ensures
        v.active() >= 1,
        v.after_complete(i, r).active() == v.active() - 1,
{
    let n = v.next as int;
    assert(v.results.update(i, Some(r)).take(n) =~= v.results.take(n).update(i, Some(r)));
    lemma_pending_count_update(v.results.take(n), i, r);
}

/// Every path gets exactly one result: once a batch has finished, the result
/// of each of its paths, failed or not, is recorded in that path's place.
pub proof fn lemma_finished_batch_has_every_result(v: SchedulerView)
    requires
        v.wf(),
        v.is_finished(),
    ensures
        v.results.len() == v.paths.len(),
        forall|i: int| 0 <= i < v.paths.len() ==> v.results[i] is Some,
{
    assert(v.results.take(v.next as int) =~= v.results);
    lemma_pending_count_zero(v.results);
}

/// A batch always reaches its end: each step lowers `steps_left`, and a
/// driver told to wait has an upload in flight whose completion it can await.
pub proof fn lemma_batch_makes_progress(v: SchedulerView, i: int, r: UploadResult)
    requires
        v.wf(),
        !v.is_finished(),
    ensures
        v.can_admit() ==> v.after_action().steps_left() < v.steps_left(),
        v.action() is Wait ==> exists|j: int| v.in_flight(j),
        v.in_flight(i) ==> v.after_complete(i, r).steps_left() < v.steps_left(),
{
    if v.can_admit() {
        lemma_admit_active(v);
    }
    if v.action() is Wait {
        assert(v.active() > 0);
        lemma_pending_count_zero(v.results.take(v.next as int));
        let j = choose|j: int|
            0 <= j < v.results.take(v.next as int).len() && !(v.results.take(
                v.next as int,
            )[j] is Some);
        assert(v.in_flight(j));
    }
    if v.in_flight(i) {
        lemma_complete_active(v, i, r);
    }
}

/// The budget is never exceeded: every well-formed state has at most `budget`
/// uploads in flight, and both kinds of step keep a state well formed.
pub proof fn lemma_budget_respected(v: SchedulerView, i: int, r: UploadResult)
    requires
        v.wf(),
    ensures
        v.active() <= v.budget,
        v.after_action().wf(),
        v.after_complete(i, r).wf(),
{
    if v.can_admit() {
        lemma_admit_active(v);
    }
    if v.in_flight(i) {
        lemma_complete_active(v, i, r);
    }
}

/// A failure is isolated: reporting upload `i` records that report at `i`
/// alone, and what any upload reported never changes which upload is started
/// next, nor when the batch finishes.
pub proof fn lemma_failure_isolated(
    a: SchedulerView,
    b: SchedulerView,
    i: int,
    ra: UploadResult,
    rb: UploadResult,
)
    requires
        a.wf(),
        b.wf(),
        a.same_schedule(b),
    ensures
        a.action() == b.action(),
        a.after_action().same_schedule(b.after_action()),
        a.after_complete(i, ra).same_schedule(b.after_complete(i, rb)),
        a.in_flight(i) ==> a.after_complete(i, ra).results[i] == Some(ra),
        forall|j: int|
            0 <= j < a.results.len() && j != i ==> #[trigger] a.after_complete(i, ra).results[j]
                == a.results[j],
        a.after_action().results == a.results,
{
    let n = a.next as int;
    lemma_pending_count_same_shape(a.results.take(n), b.results.take(n));
}

} // verus!
