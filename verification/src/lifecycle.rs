//! Bookkeeping for model downloads: at most one active run per model id, a
//! per-run cancellation flag, and rules that keep a finished or superseded
//! run from touching the state of a newer one.
use vstd::prelude::*;

use crate::text::str_eq;

verus! {

/// How a run's completion was applied to the registry.
#[derive(Debug, Clone, Copy, PartialEq, Eq, Structural)]
pub enum DownloadFinish {
    Cleared,
    Failed,
    Cancelled,
    Stale,
}

/// The active run of a model: its number and whether cancellation was asked.
#[derive(Debug, Clone, Copy, PartialEq, Eq, Structural)]
pub struct ActiveDownload {
    pub run_id: u64,
    pub cancelled: bool,
}

/// What the registry records for one model id.
pub struct EntryModel<State> {
    pub state: State,
    pub active: Option<ActiveDownload>,
}

/// A handle on one download run of one model.
#[derive(Debug, Clone)]
pub struct DownloadRun {
    id: String,
    run_id: u64,
}

impl DownloadRun {
    pub closed spec fn id_view(&self) -> Seq<char> {
        self.id@
    }

    pub closed spec fn run_id_view(&self) -> u64 {
        self.run_id
    }

    pub fn id(&self) -> (r: &str)
        ensures
            r@ == self.id_view(),
    {
        self.id.as_str()
    }

    pub fn run_id(&self) -> (r: u64)
        ensures
            r == self.run_id_view(),
    {
        self.run_id
    }
}

struct DownloadEntry<State> {
    id: String,
    state: State,
    active: Option<ActiveDownload>,
}

/// Download state per model id, with at most one active run per id.
pub struct DownloadRegistry<State> {
    entries: Vec<DownloadEntry<State>>,
    next_run_id: u64,
    cancelled_runs: Vec<u64>,
    wrapped: Ghost<bool>,
}

spec fn distinct_ids<State>(s: Seq<DownloadEntry<State>>) -> bool {
    forall|i: int, j: int|
        0 <= i < s.len() && 0 <= j < s.len() && i != j ==> #[trigger] s[i].id@ != #[trigger] s[j].id@
}

spec fn has_id<State>(s: Seq<DownloadEntry<State>>, k: Seq<char>) -> bool {
    exists|i: int| 0 <= i < s.len() && #[trigger] s[i].id@ == k
}

spec fn index_of_id<State>(s: Seq<DownloadEntry<State>>, k: Seq<char>) -> int {
    choose|i: int| 0 <= i < s.len() && #[trigger] s[i].id@ == k
}

spec fn entry_model<State>(e: DownloadEntry<State>) -> EntryModel<State> {
    EntryModel { state: e.state, active: e.active }
}

spec fn seq_model<State>(s: Seq<DownloadEntry<State>>) -> Map<Seq<char>, EntryModel<State>> {
    Map::new(|k: Seq<char>| has_id(s, k), |k: Seq<char>| entry_model(s[index_of_id(s, k)]))
}

proof fn lemma_model_at<State>(s: Seq<DownloadEntry<State>>, i: int)
    requires
        distinct_ids(s),
        0 <= i < s.len(),
    ensures
        seq_model(s).contains_key(s[i].id@),
        seq_model(s)[s[i].id@] == entry_model(s[i]),
{
    assert(has_id(s, s[i].id@));
    let j = index_of_id(s, s[i].id@);
    assert(s[j].id@ == s[i].id@);
}

proof fn lemma_model_update<State>(s: Seq<DownloadEntry<State>>, i: int, e: DownloadEntry<State>)
    requires
        distinct_ids(s),
        0 <= i < s.len(),
        e.id@ == s[i].id@,
    ensures
        distinct_ids(s.update(i, e)),
        seq_model(s.update(i, e)) == seq_model(s).insert(e.id@, entry_model(e)),
{
    let t = s.update(i, e);
    assert forall|a: int, b: int|
        0 <= a < t.len() && 0 <= b < t.len() && a != b implies #[trigger] t[a].id@
        != #[trigger] t[b].id@ by {
        assert(t[a].id@ == s[a].id@);
        assert(t[b].id@ == s[b].id@);
    }
    let m1 = seq_model(t);
    let m2 = seq_model(s).insert(e.id@, entry_model(e));
    assert forall|k: Seq<char>| m1.contains_key(k) <==> m2.contains_key(k) by {
        if has_id(t, k) {
            let j = choose|j: int| 0 <= j < t.len() && #[trigger] t[j].id@ == k;
            assert(s[j].id@ == k);
        }
        if has_id(s, k) {
            let j = choose|j: int| 0 <= j < s.len() && #[trigger] s[j].id@ == k;
            assert(t[j].id@ == k);
        }
        if k == e.id@ {
            assert(t[i].id@ == k);
        }
    }
    assert forall|k: Seq<char>| m1.contains_key(k) implies m1[k] == m2[k] by {
        let j = index_of_id(t, k);
        assert(t[j].id@ == k);
        if k == e.id@ {
            assert(j == i);
        } else {
            assert(j != i);
            assert(s[j].id@ == k);
            lemma_model_at(s, j);
        }
    }
    assert(m1 =~= m2);
}

proof fn lemma_model_push<State>(s: Seq<DownloadEntry<State>>, e: DownloadEntry<State>)
    requires
        distinct_ids(s),
        !has_id(s, e.id@),
    ensures
        distinct_ids(s.push(e)),
        seq_model(s.push(e)) == seq_model(s).insert(e.id@, entry_model(e)),
{
    let t = s.push(e);
    let n = s.len() as int;
    assert forall|a: int, b: int|
        0 <= a < t.len() && 0 <= b < t.len() && a != b implies #[trigger] t[a].id@
        != #[trigger] t[b].id@ by {
        if a == n {
            assert(s[b].id@ == t[b].id@);
        } else if b == n {
            assert(s[a].id@ == t[a].id@);
        } else {
            assert(t[a].id@ == s[a].id@);
            assert(t[b].id@ == s[b].id@);
        }
    }
    let m1 = seq_model(t);
    let m2 = seq_model(s).insert(e.id@, entry_model(e));
    assert forall|k: Seq<char>| m1.contains_key(k) <==> m2.contains_key(k) by {
        if has_id(t, k) {
            let j = choose|j: int| 0 <= j < t.len() && #[trigger] t[j].id@ == k;
            if j < n {
                assert(s[j].id@ == k);
            }
        }
        if has_id(s, k) {
            let j = choose|j: int| 0 <= j < s.len() && #[trigger] s[j].id@ == k;
            assert(t[j].id@ == k);
        }
        if k == e.id@ {
            assert(t[n].id@ == k);
        }
    }
    assert forall|k: Seq<char>| m1.contains_key(k) implies m1[k] == m2[k] by {
        let j = index_of_id(t, k);
        assert(t[j].id@ == k);
        if k == e.id@ {
            if j < n {
                assert(s[j].id@ == k);
                assert(has_id(s, k));
            }
            assert(j == n);
        } else {
            assert(j < n);
            assert(s[j].id@ == k);
            lemma_model_at(s, j);
        }
    }
    assert(m1 =~= m2);
}

proof fn lemma_model_remove<State>(s: Seq<DownloadEntry<State>>, i: int)
    requires
        distinct_ids(s),
        0 <= i < s.len(),
    ensures
        distinct_ids(s.remove(i)),
        seq_model(s.remove(i)) == seq_model(s).remove(s[i].id@),
{
    let t = s.remove(i);
    let key = s[i].id@;
    assert forall|j: int| 0 <= j < t.len() implies #[trigger] t[j] == (if j < i {
        s[j]
    } else {
        s[j + 1]
    }) by {}
    assert forall|a: int, b: int|
        0 <= a < t.len() && 0 <= b < t.len() && a != b implies #[trigger] t[a].id@
        != #[trigger] t[b].id@ by {
        let sa = if a < i {
            a
        } else {
            a + 1
        };
        let sb = if b < i {
            b
        } else {
            b + 1
        };
        assert(t[a] == s[sa]);
        assert(t[b] == s[sb]);
    }
    let m1 = seq_model(t);
    let m2 = seq_model(s).remove(key);
    assert forall|k: Seq<char>| m1.contains_key(k) <==> m2.contains_key(k) by {
        if has_id(t, k) {
            let j = choose|j: int| 0 <= j < t.len() && #[trigger] t[j].id@ == k;
            let sj = if j < i {
                j
            } else {
                j + 1
            };
            assert(t[j] == s[sj]);
            assert(s[sj].id@ == k);
            assert(sj != i);
        }
        if has_id(s, k) && k != key {
            let j = choose|j: int| 0 <= j < s.len() && #[trigger] s[j].id@ == k;
            assert(j != i);
            let tj = if j < i {
                j
            } else {
                j - 1
            };
            assert(t[tj] == s[j]);
            assert(t[tj].id@ == k);
        }
    }
    assert forall|k: Seq<char>| m1.contains_key(k) implies m1[k] == m2[k] by {
        let j = index_of_id(t, k);
        assert(t[j].id@ == k);
        let sj = if j < i {
            j
        } else {
            j + 1
        };
        assert(t[j] == s[sj]);
        lemma_model_at(s, sj);
    }
    assert(m1 =~= m2);
}

/// The registry's record after `begin(id, state)` when no run of `id` is active.
pub open spec fn begun<State>(
    m: Map<Seq<char>, EntryModel<State>>,
    id: Seq<char>,
    state: State,
    run_id: u64,
) -> Map<Seq<char>, EntryModel<State>> {
    m.insert(id, EntryModel { state, active: Some(ActiveDownload { run_id, cancelled: false }) })
}

/// Whether `id` has a run in progress in `m`.
pub open spec fn active_in<State>(m: Map<Seq<char>, EntryModel<State>>, id: Seq<char>) -> bool {
    m.contains_key(id) && m[id].active is Some
}

/// Whether `run` is the run in progress for its model in `m`.
pub open spec fn is_current<State>(
    m: Map<Seq<char>, EntryModel<State>>,
    id: Seq<char>,
    run_id: u64,
) -> bool {
    &&& m.contains_key(id)
    &&& m[id].active matches Some(a)
    &&& a.run_id == run_id
}

/// Outcome of `finish_clear` for run `run_id` of `id`.
pub open spec fn after_finish_clear<State>(
    m: Map<Seq<char>, EntryModel<State>>,
    id: Seq<char>,
    run_id: u64,
) -> (Map<Seq<char>, EntryModel<State>>, DownloadFinish) {
    if is_current(m, id, run_id) {
        (m.remove(id), DownloadFinish::Cleared)
    } else {
        (m, DownloadFinish::Stale)
    }
}

/// Outcome of `finish_error` for run `run_id` of `id`.
pub open spec fn after_finish_error<State>(
    m: Map<Seq<char>, EntryModel<State>>,
    id: Seq<char>,
    run_id: u64,
    failed_state: State,
) -> (Map<Seq<char>, EntryModel<State>>, DownloadFinish) {
    if !is_current(m, id, run_id) {
        (m, DownloadFinish::Stale)
    } else if m[id].active.unwrap().cancelled {
        (m.remove(id), DownloadFinish::Cancelled)
    } else {
        (m.insert(id, EntryModel { state: failed_state, active: None }), DownloadFinish::Failed)
    }
}

/// Outcome of `update_if_current` for run `run_id` of `id`, where `accepted`
/// is the answer of the caller's test on the recorded state.
pub open spec fn after_update<State>(
    m: Map<Seq<char>, EntryModel<State>>,
    id: Seq<char>,
    run_id: u64,
    state: State,
    accepted: bool,
) -> (Map<Seq<char>, EntryModel<State>>, bool) {
    if is_current(m, id, run_id) && accepted {
        (m.insert(id, EntryModel { state, active: m[id].active }), true)
    } else {
        (m, false)
    }
}

/// Outcome of `request_cancel` for `id`, where `cancelling` is the state the
/// caller's conversion gives for the recorded one.
pub open spec fn after_request_cancel<State>(
    m: Map<Seq<char>, EntryModel<State>>,
    id: Seq<char>,
    cancelling: State,
) -> (Map<Seq<char>, EntryModel<State>>, Option<u64>) {
    if active_in(m, id) {
        let a = m[id].active.unwrap();
        (
            m.insert(
                id,
                EntryModel {
                    state: cancelling,
                    active: Some(ActiveDownload { run_id: a.run_id, cancelled: true }),
                },
            ),
            Some(a.run_id),
        )
    } else {
        (m, None)
    }
}

/// Outcome of `begin(id, state)` with next run number `next`.
pub open spec fn after_begin<State>(
    m: Map<Seq<char>, EntryModel<State>>,
    next: u64,
    id: Seq<char>,
    state: State,
) -> (Map<Seq<char>, EntryModel<State>>, u64, Option<u64>) {
    if active_in(m, id) {
        (m, next, None)
    } else {
        (begun(m, id, state, next), next.wrapping_add(1), Some(next))
    }
}

/// The run numbers asked to stop after `begin(id, ..)` with next run number
/// `next`: a fresh run starts uncancelled.
pub open spec fn cancelled_after_begin<State>(
    c: Set<u64>,
    m: Map<Seq<char>, EntryModel<State>>,
    next: u64,
    id: Seq<char>,
) -> Set<u64> {
    if active_in(m, id) {
        c
    } else {
        c.remove(next)
    }
}

/// The run numbers asked to stop after `request_cancel(id, ..)`: the run in
/// progress for `id`, if any, joins them.
pub open spec fn cancelled_after_request<State>(
    c: Set<u64>,
    m: Map<Seq<char>, EntryModel<State>>,
    id: Seq<char>,
) -> Set<u64> {
    if active_in(m, id) {
        c.insert(m[id].active.unwrap().run_id)
    } else {
        c
    }
}

/// How run numbers relate while the run counter has not wrapped around:
/// every run in progress and every run asked to stop has a number below
/// `next`, runs in progress have distinct numbers, and a run in progress is
/// flagged as cancelled exactly when its number is among those asked to stop.
pub open spec fn runs_consistent<State>(
    m: Map<Seq<char>, EntryModel<State>>,
    next: u64,
    cancelled: Set<u64>,
) -> bool {
    &&& forall|k: Seq<char>|
        #[trigger] active_in(m, k) ==> m[k].active.unwrap().run_id < next && (m[k].active.unwrap().cancelled
            <==> cancelled.contains(m[k].active.unwrap().run_id))
    &&& forall|x: u64| #[trigger] cancelled.contains(x) ==> x < next
    &&& forall|k1: Seq<char>, k2: Seq<char>|
        #[trigger] active_in(m, k1) && #[trigger] active_in(m, k2) && k1 != k2 ==> m[k1].active.unwrap().run_id
            != m[k2].active.unwrap().run_id
}

proof fn lemma_consistent_keep_active<State>(
    m: Map<Seq<char>, EntryModel<State>>,
    next: u64,
    c: Set<u64>,
    id: Seq<char>,
    e: EntryModel<State>,
)
    requires
        runs_consistent(m, next, c),
        e.active is None || (m.contains_key(id) && e.active == m[id].active),
    ensures
        runs_consistent(m.insert(id, e), next, c),
        runs_consistent(m.remove(id), next, c),
{
    let m1 = m.insert(id, e);
    assert forall|k: Seq<char>| #[trigger] active_in(m1, k) implies active_in(m, k) && m1[k].active == m[k].active by {
        if k == id {
        }
    }
    let m2 = m.remove(id);
    assert forall|k: Seq<char>| #[trigger] active_in(m2, k) implies active_in(m, k) && m2[k].active == m[k].active by {
    }
}

proof fn lemma_consistent_begin<State>(
    m: Map<Seq<char>, EntryModel<State>>,
    next: u64,
    c: Set<u64>,
    id: Seq<char>,
    state: State,
)
    requires
        runs_consistent(m, next, c),
        next < u64::MAX,
    ensures
        runs_consistent(
            m.insert(id, EntryModel { state, active: Some(ActiveDownload { run_id: next, cancelled: false }) }),
            (next + 1) as u64,
            c.remove(next),
        ),
{
    let m1 = m.insert(id, EntryModel { state, active: Some(ActiveDownload { run_id: next, cancelled: false }) });
    assert forall|k: Seq<char>| #[trigger] active_in(m1, k) && k != id implies active_in(m, k) && m1[k].active
        == m[k].active by {
    }
}

proof fn lemma_consistent_cancel<State>(
    m: Map<Seq<char>, EntryModel<State>>,
    next: u64,
    c: Set<u64>,
    id: Seq<char>,
    cancelling: State,
)
    requires
        runs_consistent(m, next, c),
        active_in(m, id),
    ensures
        runs_consistent(
            after_request_cancel(m, id, cancelling).0,
            next,
            c.insert(m[id].active.unwrap().run_id),
        ),
{
    let a = m[id].active.unwrap();
    let m1 = after_request_cancel(m, id, cancelling).0;
    assert forall|k: Seq<char>| #[trigger] active_in(m1, k) && k != id implies active_in(m, k) && m1[k].active
        == m[k].active && m[k].active.unwrap().run_id != a.run_id by {
        assert(active_in(m, id));
    }
}

impl<State> DownloadRegistry<State> {
    /// Internal invariant: one record per model id, and, until the run
    /// counter wraps around, consistent run numbers.
    pub closed spec fn wf(&self) -> bool {
        &&& distinct_ids(self.entries@)
        &&& !self.wrapped@ ==> runs_consistent(self.model(), self.next_run_id, self.cancelled_ids())
    }

    /// Whether the run counter has wrapped around past `u64::MAX`, after
    /// which run numbers repeat.
    pub closed spec fn counter_wrapped(&self) -> bool {
        self.wrapped@
    }

    /// What the invariant says of run numbers, for callers.
    pub proof fn lemma_runs_consistent(&self)
        requires
            self.wf(),
        ensures
            !self.counter_wrapped() ==> runs_consistent(self.model(), self.next_id(), self.cancelled_ids()),
    {
    }

    /// The record of each model id.
    pub closed spec fn model(&self) -> Map<Seq<char>, EntryModel<State>> {
        seq_model(self.entries@)
    }

    /// The number the next run will get.
    pub closed spec fn next_id(&self) -> u64 {
        self.next_run_id
    }

    /// The numbers of the runs asked to stop. Each run keeps its own flag:
    /// it stays asked to stop after it ends or is superseded.
    pub closed spec fn cancelled_ids(&self) -> Set<u64> {
        Set::new(|x: u64| self.cancelled_runs@.contains(x))
    }

    /// Forgets that run `run_id` was asked to stop.
    fn forget_cancellation(&mut self, run_id: u64)
        ensures
            final(self).entries == old(self).entries,
            final(self).next_run_id == old(self).next_run_id,
            final(self).wrapped == old(self).wrapped,
            final(self).cancelled_ids() == old(self).cancelled_ids().remove(run_id),
    {
        let mut kept: Vec<u64> = Vec::new();
        let mut i: usize = 0;
        while i < self.cancelled_runs.len()
            invariant
                i <= self.cancelled_runs@.len(),
                forall|x: u64|
                    kept@.contains(x) <==> (x != run_id && exists|j: int|
                        0 <= j < i && #[trigger] self.cancelled_runs@[j] == x),
            decreases self.cancelled_runs@.len() - i,
        {
            let x = self.cancelled_runs[i];
            let ghost before = kept@;
            if x != run_id {
                kept.push(x);
            }
            proof {
                assert forall|y: u64|
                    kept@.contains(y) <==> (y != run_id && exists|j: int|
                        0 <= j < i + 1 && #[trigger] self.cancelled_runs@[j] == y) by {
                    if kept@.contains(y) {
                        if before.contains(y) {
                        } else {
                            assert(self.cancelled_runs@[i as int] == y);
                        }
                    }
                    if y != run_id && exists|j: int| 0 <= j < i + 1 && #[trigger] self.cancelled_runs@[j] == y {
                        let j = choose|j: int| 0 <= j < i + 1 && #[trigger] self.cancelled_runs@[j] == y;
                        if j < i {
                            assert(before.contains(y));
                            let k = choose|k: int| 0 <= k < before.len() && before[k] == y;
                            assert(kept@[k] == y);
                        } else {
                            assert(kept@[kept@.len() - 1] == y);
                        }
                    }
                }
            }
            i = i + 1;
        }
        let ghost old_runs = self.cancelled_runs@;
        self.cancelled_runs = kept;
        proof {
            assert(self.cancelled_ids() =~= old(self).cancelled_ids().remove(run_id)) by {
                assert forall|y: u64| old_runs.contains(y) implies exists|j: int|
                    0 <= j < old_runs.len() && #[trigger] old_runs[j] == y by {
                    let j = choose|j: int| 0 <= j < old_runs.len() && old_runs[j] == y;
                    assert(old_runs[j] == y);
                }
            }
        }
    }

    /// An empty registry; run numbers start at 1.
    pub fn new() -> (r: Self)
        ensures
            r.wf(),
            r.model() == Map::<Seq<char>, EntryModel<State>>::empty(),
            r.next_id() == 1,
            r.cancelled_ids() == Set::<u64>::empty(),
            !r.counter_wrapped(),
    {
        let r = DownloadRegistry {
            entries: Vec::new(),
            next_run_id: 1,
            cancelled_runs: Vec::new(),
            wrapped: Ghost(false),
        };
        assert(r.model() =~= Map::<Seq<char>, EntryModel<State>>::empty());
        assert(r.cancelled_ids() =~= Set::<u64>::empty());
        r
    }

    fn find(&self, id: &str) -> (r: Option<usize>)
        ensures
            match r {
                Some(i) => i < self.entries@.len() && self.entries@[i as int].id@ == id@,
                None => !has_id(self.entries@, id@),
            },
    {
        let mut i: usize = 0;
        while i < self.entries.len()
            invariant
                i <= self.entries@.len(),
                forall|j: int| 0 <= j < i ==> #[trigger] self.entries@[j].id@ != id@,
            decreases self.entries@.len() - i,
        {
            if str_eq(self.entries[i].id.as_str(), id) {
                return Some(i);
            }
            i = i + 1;
        }
        None
    }

    proof fn lemma_find_current(&self, i: usize, id: Seq<char>)
        requires
            self.wf(),
            i < self.entries@.len(),
            self.entries@[i as int].id@ == id,
        ensures
            self.model().contains_key(id),
            self.model()[id] == entry_model(self.entries@[i as int]),
    {
        lemma_model_at(self.entries@, i as int);
    }

    /// Starts a run of `id` in `state`, unless one is already active.
    pub fn begin(&mut self, id: &str, state: State) -> (r: Option<DownloadRun>)
        requires
            old(self).wf(),
        ensures
            final(self).wf(),
            ({
                let (m, next, started) = after_begin(
                    old(self).model(),
                    old(self).next_id(),
                    id@,
                    state,
                );
                &&& final(self).model() == m
                &&& final(self).next_id() == next
                &&& final(self).cancelled_ids() == cancelled_after_begin(
                    old(self).cancelled_ids(),
                    old(self).model(),
                    old(self).next_id(),
                    id@,
                )
                &&& match started {
                    Some(run_id) => r matches Some(run) && run.id_view() == id@ && run.run_id_view() == run_id,
                    None => r is None,
                }
                &&& final(self).counter_wrapped() == (old(self).counter_wrapped() || (started is Some
                    && old(self).next_id() == u64::MAX))
            }),
            !old(self).counter_wrapped() ==> (r matches Some(run) ==> {
                &&& forall|k: Seq<char>|
                    #[trigger] active_in(old(self).model(), k) ==> old(self).model()[k].active.unwrap().run_id
                        < run.run_id_view()
                &&& forall|x: u64| #[trigger] old(self).cancelled_ids().contains(x) ==> x < run.run_id_view()
                &&& !final(self).cancelled_ids().contains(run.run_id_view())
            }),
    {
        let found = self.find(id);
        if let Some(i) = found {
            proof {
                self.lemma_find_current(i, id@);
            }
            if self.entries[i].active.is_some() {
                return None;
            }
        }
        let run_id = self.next_run_id;
        let ghost old_model = self.model();
        let ghost old_cancelled = self.cancelled_ids();
        let ghost was_wrapped = self.wrapped@;
        self.forget_cancellation(run_id);
        self.next_run_id = self.next_run_id.wrapping_add(1);
        proof {
            self.wrapped@ = was_wrapped || run_id == u64::MAX;
        }
        let entry = DownloadEntry {
            id: String::from_str(id),
            state,
            active: Some(ActiveDownload { run_id, cancelled: false }),
        };
        let ghost old_entries = self.entries@;
        let ghost new_entry = entry;
        match found {
            Some(i) => {
                self.entries.set(i, entry);
                proof {
                    lemma_model_update(old_entries, i as int, new_entry);
                }
            },
            None => {
                self.entries.push(entry);
                proof {
                    lemma_model_push(old_entries, new_entry);
                }
            },
        }
        proof {
            if !self.wrapped@ {
                lemma_consistent_begin(old_model, run_id, old_cancelled, id@, new_entry.state);
            }
        }
        Some(DownloadRun { id: String::from_str(id), run_id })
    }

    /// The recorded state of `id`, copied.
    pub fn state(&self, id: &str) -> (r: Option<State>) where State: Clone
        requires
            self.wf(),
        ensures
            match r {
                Some(s) => self.model().contains_key(id@) && cloned(self.model()[id@].state, s),
                None => !self.model().contains_key(id@),
            },
    {
        match self.find(id) {
            Some(i) => {
                proof {
                    self.lemma_find_current(i, id@);
                }
                Some(self.entries[i].state.clone())
            },
            None => None,
        }
    }

    /// The recorded state of `id`, borrowed.
    pub fn state_ref(&self, id: &str) -> (r: Option<&State>)
        requires
            self.wf(),
        ensures
            match r {
                Some(s) => self.model().contains_key(id@) && self.model()[id@].state == *s,
                None => !self.model().contains_key(id@),
            },
    {
        match self.find(id) {
            Some(i) => {
                proof {
                    self.lemma_find_current(i, id@);
                }
                Some(&self.entries[i].state)
            },
            None => None,
        }
    }

    /// Whether `id` has a run in progress.
    pub fn is_active(&self, id: &str) -> (r: bool)
        requires
            self.wf(),
        ensures
            r == active_in(self.model(), id@),
    {
        match self.find(id) {
            Some(i) => {
                proof {
                    self.lemma_find_current(i, id@);
                }
                self.entries[i].active.is_some()
            },
            None => false,
        }
    }

    /// Whether any model has a run in progress.
    pub fn any_active(&self) -> (r: bool)
        requires
            self.wf(),
        ensures
            r == exists|k: Seq<char>| active_in(self.model(), k),
    {
        let mut i: usize = 0;
        while i < self.entries.len()
            invariant
                self.wf(),
                i <= self.entries@.len(),
                forall|j: int| 0 <= j < i ==> (#[trigger] self.entries@[j]).active is None,
            decreases self.entries@.len() - i,
        {
            if self.entries[i].active.is_some() {
                proof {
                    lemma_model_at(self.entries@, i as int);
                    assert(active_in(self.model(), self.entries@[i as int].id@));
                }
                return true;
            }
            i = i + 1;
        }
        proof {
            assert forall|k: Seq<char>| !active_in(self.model(), k) by {
                if self.model().contains_key(k) {
                    let j = index_of_id(self.entries@, k);
                    assert(self.entries@[j].id@ == k);
                    lemma_model_at(self.entries@, j);
                }
            }
        }
        false
    }

    /// Forgets everything recorded for `id`.
    pub fn clear(&mut self, id: &str)
        requires
            old(self).wf(),
        ensures
            final(self).wf(),
            final(self).model() == old(self).model().remove(id@),
            final(self).next_id() == old(self).next_id(),
            final(self).cancelled_ids() == old(self).cancelled_ids(),
            final(self).counter_wrapped() == old(self).counter_wrapped(),
    {
        match self.find(id) {
            Some(i) => {
                let ghost old_entries = self.entries@;
                self.entries.remove(i);
                proof {
                    lemma_model_remove(old_entries, i as int);
                    if !self.wrapped@ {
                        lemma_model_at(old_entries, i as int);
                        lemma_consistent_keep_active(seq_model(old_entries), self.next_run_id, self.cancelled_ids(), old_entries[i as int].id@, entry_model(old_entries[i as int]));
                    }
                }
            },
            None => {
                assert(self.model() =~= self.model().remove(id@));
            },
        }
    }

    /// Whether `run` was asked to stop, whether or not it is still the run
    /// in progress.
    pub fn is_cancelled(&self, run: &DownloadRun) -> (r: bool)
        ensures
            r == self.cancelled_ids().contains(run.run_id_view()),
    {
        let mut i: usize = 0;
        while i < self.cancelled_runs.len()
            invariant
                i <= self.cancelled_runs@.len(),
                forall|j: int| 0 <= j < i ==> #[trigger] self.cancelled_runs@[j] != run.run_id,
            decreases self.cancelled_runs@.len() - i,
        {
            if self.cancelled_runs[i] == run.run_id {
                proof {
                    assert(self.cancelled_runs@.contains(run.run_id));
                }
                return true;
            }
            i = i + 1;
        }
        false
    }

    /// Asks the active run of `id` to stop and moves its state to the one
    /// `to_cancelling` gives; returns that run.
    pub fn request_cancel<F: FnOnce(&State) -> State>(&mut self, id: &str, to_cancelling: F) -> (r:
        Option<DownloadRun>)
        requires
            old(self).wf(),
            forall|s: &State| to_cancelling.requires((s,)),
        ensures
            final(self).wf(),
            final(self).next_id() == old(self).next_id(),
            final(self).cancelled_ids() == cancelled_after_request(old(self).cancelled_ids(), old(self).model(), id@),
            final(self).counter_wrapped() == old(self).counter_wrapped(),
            !active_in(old(self).model(), id@) ==> r is None && final(self).model() == old(self).model(),
            active_in(old(self).model(), id@) ==> {
                let cancelling = final(self).model()[id@].state;
                &&& to_cancelling.ensures((&old(self).model()[id@].state,), cancelling)
                &&& final(self).model() == after_request_cancel(old(self).model(), id@, cancelling).0
                &&& r matches Some(run)
                &&& run.id_view() == id@
                &&& Some(run.run_id_view()) == after_request_cancel(old(self).model(), id@, cancelling).1
            },
    {
        let i = match self.find(id) {
            Some(i) => i,
            None => {
                return None;
            },
        };
        proof {
            self.lemma_find_current(i, id@);
        }
        let a = match self.entries[i].active {
            Some(a) => a,
            None => {
                return None;
            },
        };
        let ghost old_model = self.model();
        let ghost old_c = self.cancelled_ids();
        let new_state = to_cancelling(&self.entries[i].state);
        let entry = DownloadEntry {
            id: self.entries[i].id.clone(),
            state: new_state,
            active: Some(ActiveDownload { run_id: a.run_id, cancelled: true }),
        };
        let ghost old_entries = self.entries@;
        let ghost new_entry = entry;
        self.entries.set(i, entry);
        proof {
            lemma_model_update(old_entries, i as int, new_entry);
        }
        let ghost old_runs = self.cancelled_runs@;
        let ghost old_ids = self.cancelled_ids();
        assert(old_ids == Set::new(|x: u64| old_runs.contains(x)));
        self.cancelled_runs.push(a.run_id);
        proof {
            assert forall|x: u64| self.cancelled_runs@.contains(x) <==> (old_runs.contains(x) || x == a.run_id) by {
                if self.cancelled_runs@.contains(x) {
                    let k = choose|k: int| 0 <= k < self.cancelled_runs@.len() && self.cancelled_runs@[k] == x;
                    if k < old_runs.len() {
                        assert(old_runs[k] == x);
                    }
                }
                if old_runs.contains(x) {
                    let k = choose|k: int| 0 <= k < old_runs.len() && old_runs[k] == x;
                    assert(self.cancelled_runs@[k] == x);
                }
                if x == a.run_id {
                    assert(self.cancelled_runs@[old_runs.len() as int] == x);
                }
            }
            assert forall|x: u64| #[trigger] self.cancelled_ids().contains(x) == old_ids.insert(a.run_id).contains(x) by {
                assert(self.cancelled_ids().contains(x) == self.cancelled_runs@.contains(x));
                assert(old_ids.contains(x) == old_runs.contains(x));
            }
            assert(self.cancelled_ids() =~= old_ids.insert(a.run_id));
            if !self.wrapped@ {
                lemma_consistent_cancel(old_model, self.next_run_id, old_c, id@, new_entry.state);
            }
        }
        Some(DownloadRun { id: String::from_str(id), run_id: a.run_id })
    }

    /// Records `state` for `run`'s model if `run` is still the one in
    /// progress and `should_update` accepts the recorded state.
    pub fn update_if_current<F: FnOnce(&State) -> bool>(
        &mut self,
        run: &DownloadRun,
        state: State,
        should_update: F,
    ) -> (r: bool)
        requires
            old(self).wf(),
            forall|s: &State| should_update.requires((s,)),
        ensures
            final(self).wf(),
            final(self).next_id() == old(self).next_id(),
            final(self).cancelled_ids() == old(self).cancelled_ids(),
            final(self).counter_wrapped() == old(self).counter_wrapped(),
            !is_current(old(self).model(), run.id_view(), run.run_id_view()) ==> !r && final(self).model() == old(self).model(),
            is_current(old(self).model(), run.id_view(), run.run_id_view()) ==> should_update.ensures(
                (&old(self).model()[run.id_view()].state,),
                r,
            ),
            (final(self).model(), r) == after_update(
                old(self).model(),
                run.id_view(),
                run.run_id_view(),
                state,
                r,
            ),
    {
        let i = match self.find(run.id.as_str()) {
            Some(i) => i,
            None => {
                return false;
            },
        };
        proof {
            self.lemma_find_current(i, run.id@);
        }
        let current = match self.entries[i].active {
            Some(a) => a.run_id == run.run_id,
            None => false,
        };
        if !current {
            return false;
        }
        if !should_update(&self.entries[i].state) {
            return false;
        }
        let entry = DownloadEntry {
            id: self.entries[i].id.clone(),
            state,
            active: self.entries[i].active,
        };
        let ghost old_entries = self.entries@;
        let ghost new_entry = entry;
        self.entries.set(i, entry);
        proof {
            lemma_model_update(old_entries, i as int, new_entry);
                    if !self.wrapped@ {
                        lemma_model_at(old_entries, i as int);
                        lemma_consistent_keep_active(seq_model(old_entries), self.next_run_id, self.cancelled_ids(), new_entry.id@, entry_model(new_entry));
                    }
        }
        true
    }

    /// Ends a successful run: its record goes if it is still current.
    pub fn finish_clear(&mut self, run: &DownloadRun) -> (r: DownloadFinish)
        requires
            old(self).wf(),
        ensures
            final(self).wf(),
            final(self).next_id() == old(self).next_id(),
            final(self).cancelled_ids() == old(self).cancelled_ids(),
            final(self).counter_wrapped() == old(self).counter_wrapped(),
            (final(self).model(), r) == after_finish_clear(
                old(self).model(),
                run.id_view(),
                run.run_id_view(),
            ),
    {
        let i = match self.find(run.id.as_str()) {
            Some(i) => i,
            None => {
                return DownloadFinish::Stale;
            },
        };
        proof {
            self.lemma_find_current(i, run.id@);
        }
        let current = match self.entries[i].active {
            Some(a) => a.run_id == run.run_id,
            None => false,
        };
        if !current {
            return DownloadFinish::Stale;
        }
        let ghost old_entries = self.entries@;
        self.entries.remove(i);
        proof {
            lemma_model_remove(old_entries, i as int);
                    if !self.wrapped@ {
                        lemma_model_at(old_entries, i as int);
                        lemma_consistent_keep_active(seq_model(old_entries), self.next_run_id, self.cancelled_ids(), old_entries[i as int].id@, entry_model(old_entries[i as int]));
                    }
        }
        DownloadFinish::Cleared
    }

    /// Ends a failed run: a cancelled current run's record goes; another
    /// current run is recorded as `failed_state` with nothing in progress.
    pub fn finish_error(&mut self, run: &DownloadRun, failed_state: State) -> (r: DownloadFinish)
        requires
            old(self).wf(),
        ensures
            final(self).wf(),
            final(self).next_id() == old(self).next_id(),
            final(self).cancelled_ids() == old(self).cancelled_ids(),
            final(self).counter_wrapped() == old(self).counter_wrapped(),
            (final(self).model(), r) == after_finish_error(
                old(self).model(),
                run.id_view(),
                run.run_id_view(),
                failed_state,
            ),
            is_current(old(self).model(), run.id_view(), run.run_id_view()) && !old(self).counter_wrapped() ==> (r
                == DownloadFinish::Cancelled <==> old(self).cancelled_ids().contains(run.run_id_view())),
    {
        let i = match self.find(run.id.as_str()) {
            Some(i) => i,
            None => {
                return DownloadFinish::Stale;
            },
        };
        proof {
            self.lemma_find_current(i, run.id@);
        }
        let a = match self.entries[i].active {
            Some(a) => a,
            None => {
                return DownloadFinish::Stale;
            },
        };
        if a.run_id != run.run_id {
            return DownloadFinish::Stale;
        }
        proof {
            if !self.wrapped@ {
                assert(active_in(self.model(), run.id@));
            }
        }
        let ghost old_entries = self.entries@;
        if a.cancelled {
            self.entries.remove(i);
            proof {
                lemma_model_remove(old_entries, i as int);
                    if !self.wrapped@ {
                        lemma_model_at(old_entries, i as int);
                        lemma_consistent_keep_active(seq_model(old_entries), self.next_run_id, self.cancelled_ids(), old_entries[i as int].id@, entry_model(old_entries[i as int]));
                    }
            }
            DownloadFinish::Cancelled
        } else {
            let entry = DownloadEntry {
                id: self.entries[i].id.clone(),
                state: failed_state,
                active: None,
            };
            let ghost new_entry = entry;
            self.entries.set(i, entry);
            proof {
                lemma_model_update(old_entries, i as int, new_entry);
                    if !self.wrapped@ {
                        lemma_model_at(old_entries, i as int);
                        lemma_consistent_keep_active(seq_model(old_entries), self.next_run_id, self.cancelled_ids(), new_entry.id@, entry_model(new_entry));
                    }
            }
            DownloadFinish::Failed
        }
    }

    /// Records `state` for `id` with nothing in progress.
    pub fn set_inactive(&mut self, id: &str, state: State)
        requires
            old(self).wf(),
        ensures
            final(self).wf(),
            final(self).next_id() == old(self).next_id(),
            final(self).cancelled_ids() == old(self).cancelled_ids(),
            final(self).counter_wrapped() == old(self).counter_wrapped(),
            final(self).model() == old(self).model().insert(id@, EntryModel { state, active: None }),
    {
        let entry = DownloadEntry { id: String::from_str(id), state, active: None };
        let ghost old_entries = self.entries@;
        let ghost new_entry = entry;
        match self.find(id) {
            Some(i) => {
                self.entries.set(i, entry);
                proof {
                    lemma_model_update(old_entries, i as int, new_entry);
                    if !self.wrapped@ {
                        lemma_model_at(old_entries, i as int);
                        lemma_consistent_keep_active(seq_model(old_entries), self.next_run_id, self.cancelled_ids(), new_entry.id@, entry_model(new_entry));
                    }
                }
            },
            None => {
                self.entries.push(entry);
                proof {
                    lemma_model_push(old_entries, new_entry);
                    if !self.wrapped@ {
                        lemma_consistent_keep_active(seq_model(old_entries), self.next_run_id, self.cancelled_ids(), new_entry.id@, entry_model(new_entry));
                    }
                }
            },
        }
    }

    /// Records `state` for `id` with a fresh run in progress, replacing any
    /// earlier record, and returns that run.
    pub fn set_active(&mut self, id: &str, state: State) -> (r: DownloadRun)
        requires
            old(self).wf(),
        ensures
            final(self).wf(),
            r.id_view() == id@,
            r.run_id_view() == old(self).next_id(),
            final(self).next_id() == old(self).next_id().wrapping_add(1),
            final(self).model() == begun(old(self).model(), id@, state, old(self).next_id()),
            final(self).cancelled_ids() == old(self).cancelled_ids().remove(old(self).next_id()),
            final(self).counter_wrapped() == (old(self).counter_wrapped() || old(self).next_id() == u64::MAX),
    {
        let run_id = self.next_run_id;
        let ghost old_model = self.model();
        let ghost old_cancelled = self.cancelled_ids();
        let ghost was_wrapped = self.wrapped@;
        self.forget_cancellation(run_id);
        self.next_run_id = self.next_run_id.wrapping_add(1);
        proof {
            self.wrapped@ = was_wrapped || run_id == u64::MAX;
        }
        let entry = DownloadEntry {
            id: String::from_str(id),
            state,
            active: Some(ActiveDownload { run_id, cancelled: false }),
        };
        let ghost old_entries = self.entries@;
        let ghost new_entry = entry;
        match self.find(id) {
            Some(i) => {
                self.entries.set(i, entry);
                proof {
                    lemma_model_update(old_entries, i as int, new_entry);
                }
            },
            None => {
                self.entries.push(entry);
                proof {
                    lemma_model_push(old_entries, new_entry);
                }
            },
        }
        proof {
            if !self.wrapped@ {
                lemma_consistent_begin(old_model, run_id, old_cancelled, id@, new_entry.state);
            }
        }
        DownloadRun { id: String::from_str(id), run_id }
    }
}

/// A run that is not the one in progress for its model can neither clear,
/// fail nor update that model's record.
pub proof fn law_stale_run_has_no_effect<State>(
    m: Map<Seq<char>, EntryModel<State>>,
    id: Seq<char>,
    run_id: u64,
    failed_state: State,
    state: State,
    accepted: bool,
)
    requires
        !is_current(m, id, run_id),
    ensures
        after_finish_clear(m, id, run_id) == (m, DownloadFinish::Stale),
        after_finish_error(m, id, run_id, failed_state) == (m, DownloadFinish::Stale),
        after_update(m, id, run_id, state, accepted) == (m, false),
{
}

/// Once a new run of a model has started, any other run of that model is
/// stale: it can neither clear nor fail the new run's record.
pub proof fn law_new_run_supersedes_older<State>(
    m: Map<Seq<char>, EntryModel<State>>,
    next: u64,
    id: Seq<char>,
    state: State,
    older_run: u64,
    failed_state: State,
)
    requires
        !active_in(m, id),
        older_run != next,
    ensures
        ({
            let (m1, _, started) = after_begin(m, next, id, state);
            &&& started == Some(next)
            &&& is_current(m1, id, next)
            &&& !is_current(m1, id, older_run)
            &&& after_finish_error(m1, id, older_run, failed_state) == (m1, DownloadFinish::Stale)
            &&& after_finish_clear(m1, id, older_run) == (m1, DownloadFinish::Stale)
        }),
{
}

/// While a run of a model is in progress, starting another run of it
/// changes nothing.
pub proof fn law_single_active_run<State>(
    m: Map<Seq<char>, EntryModel<State>>,
    next: u64,
    id: Seq<char>,
    state: State,
)
    requires
        active_in(m, id),
    ensures
        after_begin(m, next, id, state) == (m, next, None::<u64>),
{
}

/// Cancelling flags exactly the run in progress, which stays current and
/// takes the cancelling state; the flag stays with that run.
pub proof fn law_cancel_flags_current_run<State>(
    m: Map<Seq<char>, EntryModel<State>>,
    cancelled: Set<u64>,
    id: Seq<char>,
    cancelling: State,
)
    requires
        active_in(m, id),
    ensures
        ({
            let (m1, r) = after_request_cancel(m, id, cancelling);
            let run_id = m[id].active.unwrap().run_id;
            &&& r == Some(run_id)
            &&& is_current(m1, id, run_id)
            &&& m1[id].active.unwrap().cancelled
            &&& cancelled_after_request(cancelled, m, id).contains(run_id)
            &&& forall|other: u64| #[trigger] cancelled.contains(other) ==> cancelled_after_request(
                cancelled,
                m,
                id,
            ).contains(other)
            &&& m1[id].state == cancelling
            &&& forall|k: Seq<char>| k != id ==> #[trigger] m1.contains_key(k) == m.contains_key(k) && m1[k] == m[k]
        }),
{
}

/// A failed run leaves nothing in progress, so a retry starts a new,
/// uncancelled run with a different number.
pub proof fn law_retry_after_failure<State>(
    m: Map<Seq<char>, EntryModel<State>>,
    cancelled: Set<u64>,
    next: u64,
    id: Seq<char>,
    run_id: u64,
    failed_state: State,
    state: State,
)
    requires
        is_current(m, id, run_id),
        !m[id].active.unwrap().cancelled,
        run_id != next,
    ensures
        ({
            let (m1, finish) = after_finish_error(m, id, run_id, failed_state);
            let (m2, _, started) = after_begin(m1, next, id, state);
            &&& finish == DownloadFinish::Failed
            &&& m1[id].state == failed_state
            &&& !active_in(m1, id)
            &&& started == Some(next)
            &&& next != run_id
            &&& !m2[id].active.unwrap().cancelled
            &&& !cancelled_after_begin(cancelled, m1, next, id).contains(next)
            &&& m2[id].state == state
        }),
{
}

/// A cancelled run that fails leaves no record, so the model reads as
/// never downloaded.
pub proof fn law_cancelled_failure_clears<State>(
    m: Map<Seq<char>, EntryModel<State>>,
    id: Seq<char>,
    cancelling: State,
    failed_state: State,
)
    requires
        active_in(m, id),
    ensures
        ({
            let (m1, r) = after_request_cancel(m, id, cancelling);
            let (m2, finish) = after_finish_error(m1, id, r.unwrap(), failed_state);
            &&& finish == DownloadFinish::Cancelled
            &&& !m2.contains_key(id)
        }),
{
}

} // verus!
