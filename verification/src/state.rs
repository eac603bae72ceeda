//! In-memory log buffers: one per service, one merged, one per command run,
//! each holding at most `cap` lines (the newest ones); and the runtime state
//! that events are folded into.
use vstd::prelude::*;

use std::collections::VecDeque;
use std::time::SystemTime;

use crate::command::{CommandRun, ProjectIndex};
use crate::model::RuntimeGraph;
use crate::strmap::StrMap;

verus! {

/// Which output stream a log line came from.
#[derive(Clone, Copy, Debug, PartialEq, Eq, Structural)]
pub enum LogStream {
    Stdout,
    Stderr,
    System,
}

#[derive(Debug)]
pub struct LogLine {
    pub at: SystemTime,
    pub service_id: String,
    pub stream: LogStream,
    pub text: String,
}

impl Clone for LogLine {
    fn clone(&self) -> (r: Self)
        ensures
            r == *self,
    {
        LogLine { at: self.at.clone(), service_id: self.service_id.clone(), stream: self.stream, text: self.text.clone() }
    }
}

/// The last `cap` elements of `s` (all of them when there are fewer).
pub open spec fn keep_last<T>(s: Seq<T>, cap: nat) -> Seq<T> {
    if s.len() > cap {
        s.skip(s.len() - cap)
    } else {
        s
    }
}

/// The buffer stored under `key`, or an empty one.
pub open spec fn buffer_at(m: Map<Seq<char>, VecDeque<LogLine>>, key: Seq<char>) -> Seq<LogLine> {
    if m.dom().contains(key) {
        m[key]@
    } else {
        seq![]
    }
}

/// Every buffer of the map holds at most `cap` lines.
pub open spec fn buffers_bounded(m: Map<Seq<char>, VecDeque<LogLine>>, cap: nat) -> bool {
    forall|k: Seq<char>| #[trigger] m.dom().contains(k) ==> m[k]@.len() <= cap
}

/// Log buffers.  Each buffer keeps the newest `cap` lines.
#[derive(Debug)]
pub struct LogStore {
    pub cap: usize,
    pub per_service: StrMap<VecDeque<LogLine>>,
    pub merged: VecDeque<LogLine>,
    pub per_run: StrMap<VecDeque<LogLine>>,
}

/// Drops lines from the front until at most `cap` remain.
fn trim_front(q: &mut VecDeque<LogLine>, cap: usize)
    ensures
        final(q)@ == keep_last(old(q)@, cap as nat),
{
    while q.len() > cap
        invariant
            keep_last(q@, cap as nat) == keep_last(old(q)@, cap as nat),
        decreases q.len(),
    {
        let ghost before = q@;
        let _ = q.pop_front();
        proof {
            assert(q@ =~= before.drop_first());
            assert(keep_last(q@, cap as nat) =~= keep_last(before, cap as nat));
        }
    }
}

/// Appends `line` to the buffer under `key` (creating it) and trims it to
/// the newest `cap` lines; the other buffers stay as they were.
fn push_keyed(m: &mut StrMap<VecDeque<LogLine>>, key: &String, line: LogLine, cap: usize)
    ensures
        final(m)@.dom() == old(m)@.dom().insert(key@),
        final(m)@[key@]@ == keep_last(buffer_at(old(m)@, key@).push(line), cap as nat),
        forall|k: Seq<char>| k != key@ && old(m)@.dom().contains(k) ==> #[trigger] final(m)@[k]
            == old(m)@[k],
{
    let mut q = match m.remove(key.as_str()) {
        Some(q) => q,
        None => VecDeque::new(),
    };
    q.push_back(line);
    trim_front(&mut q, cap);
    let _ = m.insert(key.clone(), q);
}

impl LogStore {
    /// Every buffer holds at most `cap` lines.
    pub open spec fn bounded(&self) -> bool {
        &&& self.merged@.len() <= self.cap
        &&& buffers_bounded(self.per_service@, self.cap as nat)
        &&& buffers_bounded(self.per_run@, self.cap as nat)
    }

    pub fn new(cap: usize) -> (r: Self)
        ensures
            r.cap == cap,
            r.per_service@ == Map::<Seq<char>, VecDeque<LogLine>>::empty(),
            r.merged@ == Seq::<LogLine>::empty(),
            r.per_run@ == Map::<Seq<char>, VecDeque<LogLine>>::empty(),
            r.bounded(),
    {
        LogStore { cap, per_service: StrMap::new(), merged: VecDeque::new(), per_run: StrMap::new() }
    }

    /// Appends a line to the service's buffer and to the merged buffer,
    /// each trimmed to the newest `cap` lines.
    pub fn push(&mut self, id: &String, line: LogLine)
        ensures
            final(self).cap == old(self).cap,
            final(self).per_service@.dom() == old(self).per_service@.dom().insert(id@),
            final(self).per_service@[id@]@ == keep_last(
                buffer_at(old(self).per_service@, id@).push(line),
                old(self).cap as nat,
            ),
            forall|k: Seq<char>|
                k != id@ && old(self).per_service@.dom().contains(k) ==> #[trigger] final(self).per_service@[k]
                    == old(self).per_service@[k],
            final(self).merged@ == keep_last(old(self).merged@.push(line), old(self).cap as nat),
            final(self).per_run@ == old(self).per_run@,
            old(self).bounded() ==> final(self).bounded(),
    {
        let copy = line.clone();
        push_keyed(&mut self.per_service, id, copy, self.cap);
        self.merged.push_back(line);
        trim_front(&mut self.merged, self.cap);
    }

    /// Drops the buffer of one service; the merged buffer keeps its lines.
    pub fn clear(&mut self, id: &String)
        ensures
            final(self).cap == old(self).cap,
            final(self).per_service@ == old(self).per_service@.remove(id@),
            final(self).merged@ == old(self).merged@,
            final(self).per_run@ == old(self).per_run@,
            old(self).bounded() ==> final(self).bounded(),
    {
        let _ = self.per_service.remove(id.as_str());
    }

    /// Appends a line to a command run's buffer, trimmed to the newest `cap`
    /// lines.
    pub fn push_run(&mut self, run_id: &String, line: LogLine)
        ensures
            final(self).cap == old(self).cap,
            final(self).per_run@.dom() == old(self).per_run@.dom().insert(run_id@),
            final(self).per_run@[run_id@]@ == keep_last(
                buffer_at(old(self).per_run@, run_id@).push(line),
                old(self).cap as nat,
            ),
            forall|k: Seq<char>|
                k != run_id@ && old(self).per_run@.dom().contains(k) ==> #[trigger] final(self).per_run@[k]
                    == old(self).per_run@[k],
            final(self).per_service@ == old(self).per_service@,
            final(self).merged@ == old(self).merged@,
            old(self).bounded() ==> final(self).bounded(),
    {
        push_keyed(&mut self.per_run, run_id, line, self.cap);
    }

    /// Drops the buffer of a command run.
    pub fn clear_run(&mut self, run_id: &String)
        ensures
            final(self).cap == old(self).cap,
            final(self).per_run@ == old(self).per_run@.remove(run_id@),
            final(self).per_service@ == old(self).per_service@,
            final(self).merged@ == old(self).merged@,
            old(self).bounded() ==> final(self).bounded(),
    {
        let _ = self.per_run.remove(run_id.as_str());
    }
}


/// Most command runs kept in history.
pub const MAX_RUNS: usize = 200;

/// Lines each log buffer of a fresh state keeps.
pub const LOG_CAP: usize = 10000;

/// The texts of a sequence of strings.
pub open spec fn ids_of(v: Seq<String>) -> Seq<Seq<char>> {
    v.map_values(|s: String| s@)
}

/// The run order after `id` is put in front, cut to `MAX_RUNS` entries.
pub open spec fn added_order(order: Seq<Seq<char>>, id: Seq<char>) -> Seq<Seq<char>> {
    let s = seq![id] + order;
    if s.len() > MAX_RUNS { s.take(MAX_RUNS as int) } else { s }
}

/// The run ids that fall off the end when `id` is put in front of `order`.
pub open spec fn dropped_ids(order: Seq<Seq<char>>, id: Seq<char>) -> Set<Seq<char>> {
    let s = seq![id] + order;
    if s.len() > MAX_RUNS { s.skip(MAX_RUNS as int).to_set() } else { Set::empty() }
}

/// The runs of `order` that are stored, most recent first.
pub open spec fn ordered_runs(order: Seq<Seq<char>>, runs: Map<Seq<char>, CommandRun>) -> Seq<CommandRun>
    decreases order.len(),
{
    if order.len() == 0 {
        seq![]
    } else {
        let rest = ordered_runs(order.drop_last(), runs);
        if runs.dom().contains(order.last()) { rest.push(runs[order.last()]) } else { rest }
    }
}

/// Everything the application knows: the graph, the logs, the last event
/// applied and the history of command runs.
#[derive(Debug)]
pub struct RuntimeState {
    pub graph: RuntimeGraph,
    pub logs: LogStore,
    pub last_event_id: u64,
    pub project: Option<ProjectIndex>,
    pub runs: StrMap<CommandRun>,
    /// Run ids, most recent first.
    pub run_order: Vec<String>,
}

impl RuntimeState {
    /// The logs are within their cap, at most `MAX_RUNS` runs are listed, and
    /// every stored run is listed.
    pub open spec fn wf(&self) -> bool {
        &&& self.logs.bounded()
        &&& self.run_order@.len() <= MAX_RUNS
        &&& forall|k: Seq<char>| #[trigger] self.runs@.dom().contains(k) ==> ids_of(self.run_order@).contains(k)
    }

    pub fn new(graph: RuntimeGraph) -> (r: Self)
        ensures
            r.graph == graph,
            r.logs.cap == LOG_CAP,
            r.logs.per_service@ == Map::<Seq<char>, VecDeque<LogLine>>::empty(),
            r.logs.merged@ == Seq::<LogLine>::empty(),
            r.logs.per_run@ == Map::<Seq<char>, VecDeque<LogLine>>::empty(),
            r.last_event_id == 0,
            r.project is None,
            r.runs@ == Map::<Seq<char>, CommandRun>::empty(),
            r.run_order@ == Seq::<String>::empty(),
            r.wf(),
    {
        RuntimeState {
            graph,
            logs: LogStore::new(LOG_CAP),
            last_event_id: 0,
            project: None,
            runs: StrMap::new(),
            run_order: Vec::new(),
        }
    }

    /// Puts a run at the front of the history; the oldest runs beyond
    /// `MAX_RUNS` are forgotten together with their logs.
    pub fn add_run(&mut self, run: CommandRun)
        ensures
            ids_of(final(self).run_order@) == added_order(ids_of(old(self).run_order@), run.id@),
            final(self).runs@ == old(self).runs@.insert(run.id@, run).remove_keys(
                dropped_ids(ids_of(old(self).run_order@), run.id@),
            ),
            final(self).logs.per_run@ == old(self).logs.per_run@.remove_keys(
                dropped_ids(ids_of(old(self).run_order@), run.id@),
            ),
            final(self).logs.per_service@ == old(self).logs.per_service@,
            final(self).logs.merged@ == old(self).logs.merged@,
            final(self).logs.cap == old(self).logs.cap,
            final(self).graph == old(self).graph,
            final(self).last_event_id == old(self).last_event_id,
            final(self).project == old(self).project,
            final(self).run_order@.len() <= MAX_RUNS,
            old(self).wf() ==> final(self).wf(),
    {
        let ghost old_order = ids_of(self.run_order@);
        let ghost full = seq![run.id@] + old_order;
        let ghost runs0 = self.runs@.insert(run.id@, run);
        let ghost logs0 = self.logs.per_run@;
        let ghost was_wf = self.wf();
        let run_id = run.id.clone();
        let _ = self.runs.insert(run_id.clone(), run);
        self.run_order.insert(0, run_id);
        proof {
            assert(ids_of(self.run_order@) =~= full);
            assert(full.skip(full.len() as int).to_set() =~= Set::<Seq<char>>::empty());
            assert(runs0.remove_keys(Set::empty()) =~= runs0);
            assert(logs0.remove_keys(Set::empty()) =~= logs0);
            if was_wf {
                assert forall|k: Seq<char>| #[trigger] self.runs@.dom().contains(k) implies full.contains(k) by {
                    if k != full[0] {
                        assert(old_order.contains(k));
                        let i = choose|i: int| 0 <= i < old_order.len() && old_order[i] == k;
                        assert(full[i + 1] == k);
                    }
                }
            }
        }
        while self.run_order.len() > MAX_RUNS
            invariant
                self.run_order@.len() <= full.len(),
                ids_of(self.run_order@) == full.take(self.run_order@.len() as int),
                self.run_order@.len() >= MAX_RUNS || self.run_order@.len() == full.len(),
                self.runs@ == runs0.remove_keys(full.skip(self.run_order@.len() as int).to_set()),
                self.logs.per_run@ == logs0.remove_keys(full.skip(self.run_order@.len() as int).to_set()),
                self.logs.per_service@ == old(self).logs.per_service@,
                self.logs.merged@ == old(self).logs.merged@,
                self.logs.cap == old(self).logs.cap,
                self.graph == old(self).graph,
                self.last_event_id == old(self).last_event_id,
                self.project == old(self).project,
                old(self).logs.bounded() ==> self.logs.bounded(),
                was_wf ==> forall|k: Seq<char>| #[trigger] self.runs@.dom().contains(k) ==> ids_of(self.run_order@).contains(k),
                was_wf == old(self).wf(),
                full == seq![run.id@] + ids_of(old(self).run_order@),
                runs0 == old(self).runs@.insert(run.id@, run),
                logs0 == old(self).logs.per_run@,
            decreases self.run_order@.len(),
        {
            let ghost len = self.run_order@.len() as int;
            let ghost before = ids_of(self.run_order@);
            if let Some(old_id) = self.run_order.pop() {
                let _ = self.runs.remove(old_id.as_str());
                self.logs.clear_run(&old_id);
                proof {
                    assert(before[len - 1] == old_id@);
                    assert(full[len - 1] == old_id@);
                    assert(ids_of(self.run_order@) =~= before.drop_last());
                    assert(ids_of(self.run_order@) =~= full.take(len - 1));
                    let sk1 = full.skip(len - 1);
                    let sk0 = full.skip(len);
                    assert(sk1.to_set() =~= sk0.to_set().insert(old_id@)) by {
                        assert forall|x: Seq<char>| sk1.to_set().contains(x) implies sk0.to_set().insert(old_id@).contains(x) by {
                            let i = choose|i: int| 0 <= i < sk1.len() && #[trigger] sk1[i] == x;
                            if i > 0 {
                                assert(sk0[i - 1] == x);
                            }
                        }
                        assert forall|x: Seq<char>| sk0.to_set().insert(old_id@).contains(x) implies sk1.to_set().contains(x) by {
                            if x == old_id@ {
                                assert(sk1[0] == x);
                            } else {
                                let i = choose|i: int| 0 <= i < sk0.len() && #[trigger] sk0[i] == x;
                                assert(sk1[i + 1] == x);
                            }
                        }
                    }
                    assert(self.runs@ =~= runs0.remove_keys(full.skip(len - 1).to_set()));
                    assert(self.logs.per_run@ =~= logs0.remove_keys(full.skip(len - 1).to_set()));
                    if was_wf {
                        assert forall|k: Seq<char>| #[trigger] self.runs@.dom().contains(k) implies ids_of(self.run_order@).contains(k) by {
                            assert(before.contains(k));
                            let i = choose|i: int| 0 <= i < before.len() && before[i] == k;
                            assert(i != len - 1);
                            assert(ids_of(self.run_order@)[i] == k);
                        }
                    }
                }
            }
        }
        proof {
            if full.len() > MAX_RUNS {
                assert(self.run_order@.len() == MAX_RUNS);
            } else {
                assert(full.take(full.len() as int) =~= full);
                assert(full.skip(full.len() as int).to_set() =~= Set::<Seq<char>>::empty());
            }
        }
    }

    /// The stored runs in history order, most recent first.
    pub fn runs_ordered(&self) -> (r: Vec<&CommandRun>)
        ensures
            r@.map_values(|c: &CommandRun| *c) == ordered_runs(ids_of(self.run_order@), self.runs@),
    {
        let mut out: Vec<&CommandRun> = Vec::new();
        let mut i: usize = 0;
        while i < self.run_order.len()
            invariant
                i <= self.run_order@.len(),
                out@.map_values(|c: &CommandRun| *c) == ordered_runs(ids_of(self.run_order@).take(i as int), self.runs@),
            decreases self.run_order@.len() - i,
        {
            let ghost ids = ids_of(self.run_order@);
            let ghost before = out@;
            proof {
                assert(ids.take(i + 1).drop_last() =~= ids.take(i as int));
                assert(ids.take(i + 1).last() == ids[i as int]);
            }
            match self.runs.get(self.run_order[i].as_str()) {
                Some(r) => {
                    out.push(r);
                    proof {
                        assert(out@.map_values(|c: &CommandRun| *c) =~= before.map_values(|c: &CommandRun| *c).push(*r));
                    }
                },
                None => {},
            }
            i = i + 1;
        }
        proof {
            assert(ids_of(self.run_order@).take(i as int) =~= ids_of(self.run_order@));
        }
        out
    }
}

} // verus!
