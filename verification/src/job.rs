//! Background jobs (one-off command runs) and the store that tracks them.
use vstd::prelude::*;

use std::time::SystemTime;

use crate::clock::{duration_secs, elapsed, elapsed_between, now, whole_secs};
use crate::command::{elapsed_text, format_elapsed, lemma_filter_step, str_eq};
use crate::log_filter::opt_view;
use crate::state::LogStream;
use crate::strmap::{lemma_cloned_strings_same, lemma_pairs_count, lemma_sorted_distinct, StrMap};
use crate::text::{
    byte_cut, byte_prefix, clone_opt_string, clone_strings, concat2, concat3, owned, string_views,
};

verus! {

#[derive(Debug, PartialEq, Eq, Structural)]
pub enum JobStatus {
    Queued,
    Running,
    Success,
    Failed { code: Option<i32> },
    Cancelled,
}

impl Clone for JobStatus {
    fn clone(&self) -> (r: Self)
        ensures
            r == *self,
    {
        match self {
            JobStatus::Queued => JobStatus::Queued,
            JobStatus::Running => JobStatus::Running,
            JobStatus::Success => JobStatus::Success,
            JobStatus::Failed { code } => JobStatus::Failed { code: *code },
            JobStatus::Cancelled => JobStatus::Cancelled,
        }
    }
}

/// Queued or running.
pub open spec fn status_active(s: JobStatus) -> bool {
    s is Queued || s is Running
}

impl JobStatus {
    pub fn icon(&self) -> (r: &'static str)
        ensures
            r@ == match self {
                JobStatus::Queued => "◯"@,
                JobStatus::Running => "●"@,
                JobStatus::Success => "✓"@,
                JobStatus::Failed { .. } => "✗"@,
                JobStatus::Cancelled => "⊘"@,
            },
    {
        match self {
            JobStatus::Queued => "◯",
            JobStatus::Running => "●",
            JobStatus::Success => "✓",
            JobStatus::Failed { .. } => "✗",
            JobStatus::Cancelled => "⊘",
        }
    }

    pub fn label(&self) -> (r: &'static str)
        ensures
            r@ == match self {
                JobStatus::Queued => "queued"@,
                JobStatus::Running => "running"@,
                JobStatus::Success => "success"@,
                JobStatus::Failed { .. } => "failed"@,
                JobStatus::Cancelled => "cancelled"@,
            },
    {
        match self {
            JobStatus::Queued => "queued",
            JobStatus::Running => "running",
            JobStatus::Success => "success",
            JobStatus::Failed { .. } => "failed",
            JobStatus::Cancelled => "cancelled",
        }
    }

    pub fn is_active(&self) -> (r: bool)
        ensures
            r == status_active(*self),
    {
        match self {
            JobStatus::Queued | JobStatus::Running => true,
            _ => false,
        }
    }

    pub fn is_success(&self) -> (r: bool)
        ensures
            r == (*self is Success),
    {
        match self {
            JobStatus::Success => true,
            _ => false,
        }
    }

    /// Neither queued nor running.
    pub fn is_finished(&self) -> (r: bool)
        ensures
            r == !status_active(*self),
    {
        !self.is_active()
    }
}

/// What a job runs and where.
#[derive(Debug)]
pub struct JobSpec {
    pub command_id: Option<String>,
    pub unit_id: Option<String>,
    pub display_name: String,
    pub argv: Vec<String>,
    pub cwd: Option<String>,
    pub env: StrMap<String>,
    pub created_at: SystemTime,
}

impl JobSpec {
    /// A job that runs `command` through `sh -c`.
    pub fn from_shell_command(command: &str, display_name: &str) -> (r: Self)
        ensures
            r.command_id is None,
            r.unit_id is None,
            r.display_name@ == display_name@,
            r.argv@.len() == 3,
            r.argv@[0]@ == "sh"@,
            r.argv@[1]@ == "-c"@,
            r.argv@[2]@ == command@,
            r.cwd is None,
            r.env@ == Map::<Seq<char>, String>::empty(),
    {
        let mut argv: Vec<String> = Vec::new();
        argv.push(owned("sh"));
        argv.push(owned("-c"));
        argv.push(owned(command));
        JobSpec {
            command_id: None,
            unit_id: None,
            display_name: owned(display_name),
            argv,
            cwd: None,
            env: StrMap::new(),
            created_at: now(),
        }
    }

    pub fn with_unit(self, unit_id: &str) -> (r: Self)
        ensures
            r.unit_id matches Some(u) && u@ == unit_id@,
            r.command_id == self.command_id,
            r.display_name == self.display_name,
            r.argv == self.argv,
            r.cwd == self.cwd,
    {
        JobSpec { unit_id: Some(owned(unit_id)), ..self }
    }

    pub fn with_command(self, command_id: &str) -> (r: Self)
        ensures
            r.command_id matches Some(c) && c@ == command_id@,
            r.unit_id == self.unit_id,
            r.display_name == self.display_name,
            r.argv == self.argv,
            r.cwd == self.cwd,
    {
        JobSpec { command_id: Some(owned(command_id)), ..self }
    }

    pub fn with_cwd(self, cwd: String) -> (r: Self)
        ensures
            r.cwd == Some(cwd),
            r.command_id == self.command_id,
            r.unit_id == self.unit_id,
            r.display_name == self.display_name,
            r.argv == self.argv,
    {
        JobSpec { cwd: Some(cwd), ..self }
    }

    pub fn with_env(self, env: StrMap<String>) -> (r: Self)
        ensures
            r.env == env,
            r.command_id == self.command_id,
            r.unit_id == self.unit_id,
            r.display_name == self.display_name,
            r.argv == self.argv,
            r.cwd == self.cwd,
    {
        JobSpec { env, ..self }
    }
}

/// A job and what has happened to it so far.
#[derive(Debug)]
pub struct Job {
    pub id: String,
    pub spec: JobSpec,
    pub status: JobStatus,
    pub started_at: Option<SystemTime>,
    pub finished_at: Option<SystemTime>,
    pub exit_code: Option<i32>,
    pub pid: Option<u32>,
}

/// The status a job finishes with for an exit code: success for zero, a
/// failure carrying the code otherwise.
pub open spec fn finish_status(exit_code: Option<i32>) -> JobStatus {
    if exit_code == Some(0i32) {
        JobStatus::Success
    } else {
        JobStatus::Failed { code: exit_code }
    }
}

impl Job {
    /// A queued job.
    pub fn new(id: String, spec: JobSpec) -> (r: Self)
        ensures
            r.id == id,
            r.spec == spec,
            r.status == JobStatus::Queued,
            r.started_at is None,
            r.finished_at is None,
            r.exit_code is None,
            r.pid is None,
    {
        Job { id, spec, status: JobStatus::Queued, started_at: None, finished_at: None, exit_code: None, pid: None }
    }

    pub fn mark_started(&mut self, pid: Option<u32>)
        ensures
            final(self).status == JobStatus::Running,
            final(self).started_at is Some,
            final(self).pid == pid,
            final(self).id == old(self).id,
            final(self).spec == old(self).spec,
            final(self).finished_at == old(self).finished_at,
            final(self).exit_code == old(self).exit_code,
    {
        self.status = JobStatus::Running;
        self.started_at = Some(now());
        self.pid = pid;
    }

    pub fn mark_finished(&mut self, exit_code: Option<i32>)
        ensures
            final(self).status == finish_status(exit_code),
            final(self).finished_at is Some,
            final(self).exit_code == exit_code,
            final(self).id == old(self).id,
            final(self).spec == old(self).spec,
            final(self).started_at == old(self).started_at,
            final(self).pid == old(self).pid,
    {
        self.finished_at = Some(now());
        self.exit_code = exit_code;
        self.status = match exit_code {
            Some(0) => JobStatus::Success,
            _ => JobStatus::Failed { code: exit_code },
        };
    }

    pub fn mark_cancelled(&mut self)
        ensures
            final(self).status == JobStatus::Cancelled,
            final(self).finished_at is Some,
            final(self).id == old(self).id,
            final(self).spec == old(self).spec,
            final(self).started_at == old(self).started_at,
            final(self).exit_code == old(self).exit_code,
            final(self).pid == old(self).pid,
    {
        self.finished_at = Some(now());
        self.status = JobStatus::Cancelled;
    }

    /// Time from the start to the finish (or to now); `None` before the
    /// job has started.
    pub fn duration(&self) -> (r: Option<std::time::Duration>)
        ensures
            match (self.started_at, self.finished_at) {
                (None, _) => r is None,
                (Some(s), Some(f)) => r == Some(elapsed(s, f)),
                (Some(s), None) => exists|t: SystemTime| r == Some(#[trigger] elapsed(s, t)),
            },
    {
        match self.started_at {
            Some(start) => {
                let end = match self.finished_at {
                    Some(t) => t,
                    None => now(),
                };
                Some(elapsed_between(&start, &end))
            },
            None => None,
        }
    }

    /// The duration as `elapsed_text` renders it, or `-` before the start.
    pub fn duration_str(&self) -> (r: String)
        ensures
            match (self.started_at, self.finished_at) {
                (None, _) => r@ == "-"@,
                (Some(s), Some(f)) => r@ == elapsed_text(whole_secs(elapsed(s, f)) as nat),
                (Some(s), None) => exists|t: SystemTime| r@ == elapsed_text(whole_secs(#[trigger] elapsed(s, t)) as nat),
            },
    {
        match self.duration() {
            Some(d) => format_elapsed(duration_secs(&d)),
            None => owned("-"),
        }
    }

    pub fn display_name(&self) -> (r: &str)
        ensures
            r@ == self.spec.display_name@,
    {
        self.spec.display_name.as_str()
    }
}

pub enum JobEvent {
    JobQueued { job_id: String, spec: JobSpec },
    JobStarted { job_id: String, pid: Option<u32> },
    JobOutput { job_id: String, stream: LogStream, line: String },
    JobFinished { job_id: String, status: JobStatus, exit_code: Option<i32> },
}

/// A job's spec and another agree on every field (texts by their
/// characters).
pub open spec fn same_spec(a: JobSpec, b: JobSpec) -> bool {
    &&& opt_view(a.command_id) == opt_view(b.command_id)
    &&& opt_view(a.unit_id) == opt_view(b.unit_id)
    &&& a.display_name@ == b.display_name@
    &&& string_views(a.argv@) == string_views(b.argv@)
    &&& opt_view(a.cwd) == opt_view(b.cwd)
    &&& a.env@ == b.env@
    &&& a.created_at == b.created_at
}

impl Clone for JobSpec {
    fn clone(&self) -> (r: Self)
        ensures
            same_spec(r, *self),
    {
        let env = self.env.clone();
        proof {
            lemma_cloned_strings_same(self.env, env);
        }
        JobSpec {
            command_id: clone_opt_string(&self.command_id),
            unit_id: clone_opt_string(&self.unit_id),
            display_name: self.display_name.clone(),
            argv: clone_strings(&self.argv),
            cwd: clone_opt_string(&self.cwd),
            env,
            created_at: self.created_at.clone(),
        }
    }
}

/// The jobs of a session, most recently added first.  `order` lists job ids
/// from newest to oldest; every id in it is a job of `jobs` and every job
/// of `jobs` is listed.
#[derive(Debug)]
pub struct JobStore {
    jobs: StrMap<Job>,
    order: Vec<String>,
}

/// Whether `id` names a finished job of `m`.
pub open spec fn finished_id(m: Map<Seq<char>, Job>, id: Seq<char>) -> bool {
    m.dom().contains(id) && !status_active(m[id].status)
}

/// Number of finished jobs of `m`.
pub open spec fn finished_count(m: Map<Seq<char>, Job>) -> nat {
    m.dom().filter(|id: Seq<char>| finished_id(m, id)).len()
}

/// The ids pruning drops: while more than `MAX_COMPLETED_JOBS` jobs are
/// finished, the excess, taken from the oldest end of `order` among the
/// finished ones.
pub open spec fn prune_victims(order: Seq<Seq<char>>, m: Map<Seq<char>, Job>) -> Seq<Seq<char>> {
    let c = finished_count(m);
    if c <= MAX_COMPLETED_JOBS {
        Seq::empty()
    } else {
        let cands = order.reverse().filter(|id: Seq<char>| finished_id(m, id));
        let n = c - MAX_COMPLETED_JOBS;
        cands.take(if n <= cands.len() { n } else { cands.len() as int })
    }
}

/// The jobs after pruning.
pub open spec fn pruned_map(order: Seq<Seq<char>>, m: Map<Seq<char>, Job>) -> Map<Seq<char>, Job> {
    m.remove_keys(prune_victims(order, m).to_set())
}

/// The order after pruning.
pub open spec fn pruned_order(order: Seq<Seq<char>>, m: Map<Seq<char>, Job>) -> Seq<Seq<char>> {
    order.filter(|id: Seq<char>| !prune_victims(order, m).contains(id))
}

/// Order and jobs agree: every listed id is a job, every job is listed.
pub open spec fn store_consistent(order: Seq<Seq<char>>, m: Map<Seq<char>, Job>) -> bool {
    &&& forall|i: int| 0 <= i < order.len() ==> m.dom().contains(#[trigger] order[i])
    &&& forall|k: Seq<char>| #[trigger] m.dom().contains(k) ==> order.contains(k)
}

/// Whether a list of strings holds `id`.
fn holds_id(v: &Vec<String>, id: &str) -> (r: bool)
    ensures
        r == string_views(v@).contains(id@),
{
    let mut i: usize = 0;
    while i < v.len()
        invariant
            i <= v.len(),
            forall|k: int| 0 <= k < i ==> string_views(v@)[k] != id@,
        decreases v.len() - i,
    {
        if str_eq(v[i].as_str(), id) {
            assert(string_views(v@)[i as int] == id@);
            return true;
        }
        i = i + 1;
    }
    false
}

/// Number of finished jobs in a map.
fn count_finished(jobs: &StrMap<Job>) -> (r: usize)
    ensures
        r == finished_count(jobs@),
{
    let ghost p = |j: Job| !status_active(j.status);
    let n = jobs.len();
    let mut count: usize = 0;
    let mut i: usize = 0;
    while i < n
        invariant
            i <= n,
            n == jobs.vals().len(),
            p == |j: Job| !status_active(j.status),
            count == jobs.vals().take(i as int).filter(p).len(),
            count <= i,
        decreases n - i,
    {
        proof {
            lemma_filter_step(jobs.vals(), p, i as int);
        }
        if jobs.value_at(i).status.is_finished() {
            count = count + 1;
        }
        i = i + 1;
    }
    proof {
        assert(jobs.vals().take(n as int) =~= jobs.vals());
        lemma_sorted_distinct(jobs.keys());
        lemma_pairs_count(jobs.keys(), jobs.vals(), p);
        let m = jobs@;
        assert(m.dom().filter(|k: Seq<char>| p(m[k])) =~= m.dom().filter(
            |id: Seq<char>| finished_id(m, id),
        ));
    }
    count
}

/// Drops the excess finished jobs, oldest first, from a consistent pair of
/// jobs and order.
fn prune(jobs: &mut StrMap<Job>, order: &mut Vec<String>)
    requires
        store_consistent(string_views(old(order)@), old(jobs)@),
    ensures
        final(jobs)@ == pruned_map(string_views(old(order)@), old(jobs)@),
        string_views(final(order)@) == pruned_order(string_views(old(order)@), old(jobs)@),
        store_consistent(string_views(final(order)@), final(jobs)@),
{
    let ghost m = jobs@;
    let ghost o = string_views(order@);
    let c = count_finished(jobs);
    if c <= MAX_COMPLETED_JOBS {
        proof {
            assert(prune_victims(o, m) =~= Seq::<Seq<char>>::empty());
            assert(m.remove_keys(Seq::<Seq<char>>::empty().to_set()) =~= m);
            assert(o.filter(|id: Seq<char>| !prune_victims(o, m).contains(id)) =~= o) by {
                lemma_filter_all(o, |id: Seq<char>| !prune_victims(o, m).contains(id));
            }
        }
        return;
    }
    let n = c - MAX_COMPLETED_JOBS;
    let ghost q = |id: Seq<char>| finished_id(m, id);
    let ghost rev = o.reverse();
    // The oldest finished ids, at most `n` of them.
    let mut victims: Vec<String> = Vec::new();
    let len = order.len();
    let mut j: usize = 0;
    while j < len && victims.len() < n
        invariant
            j <= len,
            len == order@.len(),
            o == string_views(order@),
            m == jobs@,
            rev == o.reverse(),
            rev.len() == len,
            q == |id: Seq<char>| finished_id(m, id),
            string_views(victims@) == rev.take(j as int).filter(q),
            victims@.len() <= n,
        decreases len - j,
    {
        proof {
            lemma_filter_step(rev, q, j as int);
            assert(rev[j as int] == o[len - 1 - j]);
        }
        let id = &order[len - 1 - j];
        let ghost prev = victims@;
        match jobs.get(id.as_str()) {
            Some(job) => {
                if job.status.is_finished() {
                    victims.push(id.clone());
                    proof {
                        assert(string_views(victims@) =~= string_views(prev).push(id@));
                    }
                }
            },
            None => {},
        }
        j = j + 1;
    }
    proof {
        let cands = rev.filter(q);
        lemma_filter_prefix(rev, q, j as int);
        assert(prune_victims(o, m) == cands.take(
            if n <= cands.len() { n as int } else { cands.len() as int },
        ));
        if j == len {
            assert(rev.take(len as int) =~= rev);
            assert(cands.take(cands.len() as int) =~= cands);
        } else {
            assert(cands.take(n as int) =~= rev.take(j as int).filter(q));
        }
    }
    let ghost vs = string_views(victims@);
    // Drop the victims from the jobs.
    let mut k: usize = 0;
    while k < victims.len()
        invariant
            k <= victims.len(),
            vs == string_views(victims@),
            jobs@ == m.remove_keys(vs.take(k as int).to_set()),
        decreases victims.len() - k,
    {
        let ghost before = jobs@;
        let _ = jobs.remove(victims[k].as_str());
        proof {
            let a = vs.take(k + 1);
            let b = vs.take(k as int);
            assert forall|x: Seq<char>| a.contains(x) <==> b.contains(x) || x == vs[k as int] by {
                if a.contains(x) {
                    let w = choose|w: int| 0 <= w < a.len() && a[w] == x;
                    if w < k {
                        assert(b[w] == x);
                    }
                }
                if b.contains(x) {
                    let w = choose|w: int| 0 <= w < b.len() && b[w] == x;
                    assert(a[w] == x);
                }
                assert(a[k as int] == vs[k as int]);
            }
            assert(a.to_set() =~= b.to_set().insert(vs[k as int]));
            assert(jobs@ =~= m.remove_keys(a.to_set()));
        }
        k = k + 1;
    }
    assert(vs.take(victims.len() as int) =~= vs);
    // Keep the ids that are not victims, in order.
    let ghost keep = |id: Seq<char>| !vs.contains(id);
    let mut kept: Vec<String> = Vec::new();
    let mut i: usize = 0;
    while i < order.len()
        invariant
            i <= order.len(),
            o == string_views(order@),
            vs == string_views(victims@),
            keep == |id: Seq<char>| !vs.contains(id),
            string_views(kept@) == o.take(i as int).filter(keep),
        decreases order.len() - i,
    {
        proof {
            lemma_filter_step(o, keep, i as int);
        }
        let ghost prev = kept@;
        if !holds_id(&victims, order[i].as_str()) {
            kept.push(order[i].clone());
            proof {
                assert(string_views(kept@) =~= string_views(prev).push(o[i as int]));
            }
        }
        i = i + 1;
    }
    assert(o.take(order.len() as int) =~= o);
    *order = kept;
    proof {
        let fo = o.filter(keep);
        assert forall|x: int| 0 <= x < fo.len() implies jobs@.dom().contains(#[trigger] fo[x]) by {
            assert(fo.contains(fo[x]));
            o.lemma_filter_contains_rev(keep, fo[x]);
            o.lemma_filter_pred(keep, x);
            let w = choose|w: int| 0 <= w < o.len() && o[w] == fo[x];
            assert(m.dom().contains(o[w]));
            assert(!vs.to_set().contains(fo[x]));
        }
        assert forall|key: Seq<char>| #[trigger] jobs@.dom().contains(key) implies fo.contains(key) by {
            assert(m.dom().contains(key) && !vs.to_set().contains(key));
            assert(o.contains(key));
            let w = choose|w: int| 0 <= w < o.len() && o[w] == key;
            assert(keep(o[w]));
            o.lemma_filter_contains(keep, w);
        }
    }
}

/// A filter that keeps every element changes nothing.
proof fn lemma_filter_all<T>(s: Seq<T>, p: spec_fn(T) -> bool)
    requires
        forall|i: int| 0 <= i < s.len() ==> p(#[trigger] s[i]),
    ensures
        s.filter(p) == s,
    decreases s.len(),
{
    reveal(Seq::filter);
    if s.len() > 0 {
        lemma_filter_all(s.drop_last(), p);
        assert(s.drop_last().push(s.last()) =~= s);
    }
}

/// Filtering a prefix gives a prefix of the filtered whole.
proof fn lemma_filter_prefix<T>(s: Seq<T>, p: spec_fn(T) -> bool, j: int)
    requires
        0 <= j <= s.len(),
    ensures
        s.take(j).filter(p).len() <= s.filter(p).len(),
        s.filter(p).take(s.take(j).filter(p).len() as int) == s.take(j).filter(p),
{
    assert(s =~= s.take(j) + s.skip(j));
    Seq::filter_distributes_over_add(s.take(j), s.skip(j), p);
    let a = s.take(j).filter(p);
    assert((a + s.skip(j).filter(p)).take(a.len() as int) =~= a);
}


/// Filtering keeps a sequence free of repeats.
proof fn lemma_filter_no_duplicates<T>(s: Seq<T>, p: spec_fn(T) -> bool)
    requires
        s.no_duplicates(),
    ensures
        s.filter(p).no_duplicates(),
    decreases s.len(),
{
    reveal(Seq::filter);
    if s.len() > 0 {
        let r = s.drop_last();
        assert(r.no_duplicates()) by {
            assert forall|i: int, j: int| 0 <= i < r.len() && 0 <= j < r.len() && i != j implies r[i]
                != r[j] by {
                assert(r[i] == s[i] && r[j] == s[j]);
            }
        }
        lemma_filter_no_duplicates(r, p);
        if p(s.last()) {
            let f = r.filter(p);
            if f.contains(s.last()) {
                r.lemma_filter_contains_rev(p, s.last());
                let w = choose|w: int| 0 <= w < r.len() && r[w] == s.last();
                assert(s[w] == s[s.len() - 1]);
            }
            assert forall|i: int, j: int|
                0 <= i < f.push(s.last()).len() && 0 <= j < f.push(s.last()).len() && i != j implies
                f.push(s.last())[i] != f.push(s.last())[j] by {
                if i < f.len() && j < f.len() {
                } else if i < f.len() {
                    assert(f.contains(f[i]));
                } else if j < f.len() {
                    assert(f.contains(f[j]));
                }
            }
        }
    }
}

/// The finished ids among a consistent order are the finished jobs, each
/// once when no id repeats.
proof fn lemma_finished_candidates(order: Seq<Seq<char>>, m: Map<Seq<char>, Job>)
    requires
        store_consistent(order, m),
        order.no_duplicates(),
    ensures
        m.dom().finite(),
        order.reverse().filter(|id: Seq<char>| finished_id(m, id)).len() == finished_count(m),
        order.reverse().filter(|id: Seq<char>| finished_id(m, id)).no_duplicates(),
        order.reverse().filter(|id: Seq<char>| finished_id(m, id)).to_set() == m.dom().filter(
            |id: Seq<char>| finished_id(m, id),
        ),
{
    let q = |id: Seq<char>| finished_id(m, id);
    let rev = order.reverse();
    assert(m.dom().subset_of(order.to_set()));
    order.lemma_cardinality_of_set();
    vstd::set_lib::lemma_len_subset(m.dom(), order.to_set());
    assert(rev.no_duplicates()) by {
        assert forall|i: int, j: int| 0 <= i < rev.len() && 0 <= j < rev.len() && i != j implies rev[i]
            != rev[j] by {
            assert(rev[i] == order[order.len() - 1 - i]);
            assert(rev[j] == order[order.len() - 1 - j]);
        }
    }
    lemma_filter_no_duplicates(rev, q);
    let cands = rev.filter(q);
    let f = m.dom().filter(q);
    assert forall|x: Seq<char>| cands.to_set().contains(x) <==> f.contains(x) by {
        if cands.contains(x) {
            rev.lemma_filter_contains_rev(q, x);
            let w = choose|w: int| 0 <= w < cands.len() && cands[w] == x;
            rev.lemma_filter_pred(q, w);
        }
        if f.contains(x) {
            assert(order.contains(x));
            let w = choose|w: int| 0 <= w < order.len() && order[w] == x;
            assert(rev[order.len() - 1 - w] == x);
            rev.lemma_filter_contains(q, order.len() - 1 - w);
        }
    }
    assert(cands.to_set() =~= f);
    cands.unique_seq_to_set();
}

/// Pruning leaves at most `MAX_COMPLETED_JOBS` finished jobs, and exactly
/// that many when there were more, provided no id is listed twice.
pub proof fn law_prune_bounds_finished(order: Seq<Seq<char>>, m: Map<Seq<char>, Job>)
    requires
        store_consistent(order, m),
        order.no_duplicates(),
    ensures
        finished_count(pruned_map(order, m)) <= MAX_COMPLETED_JOBS,
        finished_count(m) > MAX_COMPLETED_JOBS ==> finished_count(pruned_map(order, m))
            == MAX_COMPLETED_JOBS,
        finished_count(m) <= MAX_COMPLETED_JOBS ==> pruned_map(order, m) == m,
{
    lemma_finished_candidates(order, m);
    let q = |id: Seq<char>| finished_id(m, id);
    let c = finished_count(m);
    let v = prune_victims(order, m);
    let pm = pruned_map(order, m);
    let f = m.dom().filter(q);
    m.dom().lemma_len_filter(q);
    if c <= MAX_COMPLETED_JOBS {
        assert(v.to_set() =~= Set::<Seq<char>>::empty());
        assert(pm =~= m);
    } else {
        let cands = order.reverse().filter(q);
        let n = c - MAX_COMPLETED_JOBS;
        assert(v == cands.take(n as int));
        assert(v.no_duplicates());
        v.unique_seq_to_set();
        let vs = v.to_set();
        assert(vs.subset_of(f)) by {
            assert forall|x: Seq<char>| vs.contains(x) implies f.contains(x) by {
                let w = choose|w: int| 0 <= w < v.len() && v[w] == x;
                assert(cands[w] == x);
                assert(cands.to_set().contains(x));
            }
        }
        let pf = pm.dom().filter(|id: Seq<char>| finished_id(pm, id));
        assert(pf =~= f.difference(vs));
        vstd::set_lib::lemma_len_subset(vs, f);
        assert(f =~= f.difference(vs) + vs);
        vstd::set_lib::lemma_len_difference(f, vs);
        vstd::set_lib::lemma_set_disjoint_lens(f.difference(vs), vs);
    }
}


/// After a job with a new id is added in front of an order that lists each
/// id once, at most `MAX_COMPLETED_JOBS` finished jobs remain.
pub proof fn law_add_bounds_finished(order: Seq<Seq<char>>, m: Map<Seq<char>, Job>, job: Job)
    requires
        store_consistent(order, m),
        order.no_duplicates(),
        !m.dom().contains(job.id@),
    ensures
        finished_count(pruned_map(seq![job.id@] + order, m.insert(job.id@, job)))
            <= MAX_COMPLETED_JOBS,
{
    let o = seq![job.id@] + order;
    let m2 = m.insert(job.id@, job);
    assert forall|i: int| 0 <= i < o.len() implies m2.dom().contains(#[trigger] o[i]) by {
        if i > 0 {
            assert(o[i] == order[i - 1]);
        }
    }
    assert forall|k: Seq<char>| #[trigger] m2.dom().contains(k) implies o.contains(k) by {
        if k != job.id@ {
            let w = choose|w: int| 0 <= w < order.len() && order[w] == k;
            assert(o[w + 1] == k);
        } else {
            assert(o[0] == k);
        }
    }
    assert(o.no_duplicates()) by {
        assert forall|i: int, j: int| 0 <= i < o.len() && 0 <= j < o.len() && i != j implies o[i]
            != o[j] by {
            if i > 0 && j > 0 {
                assert(o[i] == order[i - 1] && o[j] == order[j - 1]);
            } else if i == 0 {
                assert(o[j] == order[j - 1]);
                assert(m.dom().contains(order[j - 1]));
            } else {
                assert(o[i] == order[i - 1]);
                assert(m.dom().contains(order[i - 1]));
            }
        }
    }
    law_prune_bounds_finished(o, m2);
}

impl JobStore {
    #[verifier::type_invariant]
    closed spec fn inv(&self) -> bool {
        store_consistent(string_views(self.order@), self.jobs@)
    }

    /// Ids from newest to oldest (an id added twice is listed twice).
    pub closed spec fn order_ids(&self) -> Seq<Seq<char>> {
        string_views(self.order@)
    }

    /// The jobs by id.
    pub closed spec fn job_map(&self) -> Map<Seq<char>, Job> {
        self.jobs@
    }

    /// The jobs in listing order, newest first.
    pub open spec fn listed(&self) -> Seq<Job> {
        self.order_ids().map_values(|id: Seq<char>| self.job_map()[id])
    }

    pub fn new() -> (r: Self)
        ensures
            r.order_ids() == Seq::<Seq<char>>::empty(),
            r.job_map() == Map::<Seq<char>, Job>::empty(),
            store_consistent(r.order_ids(), r.job_map()),
    {
        let r = JobStore { jobs: StrMap::new(), order: Vec::new() };
        assert(r.order_ids() =~= Seq::<Seq<char>>::empty());
        r
    }

    /// Adds a job in front of the others (replacing a job with the same
    /// id), then prunes the excess finished jobs.
    pub fn add(&mut self, job: Job)
        ensures
            ({
                let m = old(self).job_map().insert(job.id@, job);
                let o = seq![job.id@] + old(self).order_ids();
                &&& final(self).job_map() == pruned_map(o, m)
                &&& final(self).order_ids() == pruned_order(o, m)
            }),
            store_consistent(final(self).order_ids(), final(self).job_map()),
    {
        proof {
            use_type_invariant(&*self);
        }
        let ghost m = self.jobs@.insert(job.id@, job);
        let ghost o = seq![job.id@] + string_views(self.order@);
        let id = job.id.clone();
        let mut tmp = JobStore::new();
        std::mem::swap(self, &mut tmp);
        let JobStore { mut jobs, mut order } = tmp;
        let ghost old_o = string_views(order@);
        let _ = jobs.insert(id.clone(), job);
        order.insert(0, id);
        proof {
            assert(string_views(order@) =~= o);
            assert forall|i: int| 0 <= i < o.len() implies m.dom().contains(#[trigger] o[i]) by {
                if i > 0 {
                    assert(o[i] == old_o[i - 1]);
                }
            }
            assert forall|k: Seq<char>| #[trigger] m.dom().contains(k) implies o.contains(k) by {
                if k == o[0] {
                } else {
                    let w = choose|w: int| 0 <= w < old_o.len() && old_o[w] == k;
                    assert(o[w + 1] == k);
                }
            }
        }
        prune(&mut jobs, &mut order);
        *self = JobStore { jobs, order };
        proof {
            use_type_invariant(&*self);
        }
    }

    pub fn len(&self) -> (r: usize)
        ensures
            r == self.job_map().len(),
    {
        let r = self.jobs.len();
        proof {
            lemma_sorted_distinct(self.jobs.keys());
            self.jobs.keys().unique_seq_to_set();
            assert(self.jobs@.dom() =~= self.jobs.keys().to_set());
        }
        r
    }

    pub fn is_empty(&self) -> (r: bool)
        ensures
            r == (self.job_map().len() == 0),
    {
        self.len() == 0
    }

    pub fn get(&self, id: &str) -> (r: Option<&Job>)
        ensures
            match r {
                Some(j) => self.job_map().dom().contains(id@) && *j == self.job_map()[id@],
                None => !self.job_map().dom().contains(id@),
            },
    {
        self.jobs.get(id)
    }

    /// Number of queued or running jobs.
    pub fn active_count(&self) -> (r: usize)
        ensures
            r == self.job_map().dom().filter(
                |id: Seq<char>| self.job_map().dom().contains(id) && status_active(self.job_map()[id].status),
            ).len(),
    {
        let ghost p = |j: Job| status_active(j.status);
        let n = self.jobs.len();
        let mut count: usize = 0;
        let mut i: usize = 0;
        while i < n
            invariant
                i <= n,
                n == self.jobs.vals().len(),
                p == |j: Job| status_active(j.status),
                count == self.jobs.vals().take(i as int).filter(p).len(),
                count <= i,
            decreases n - i,
        {
            proof {
                lemma_filter_step(self.jobs.vals(), p, i as int);
            }
            if self.jobs.value_at(i).status.is_active() {
                count = count + 1;
            }
            i = i + 1;
        }
        proof {
            assert(self.jobs.vals().take(n as int) =~= self.jobs.vals());
            lemma_sorted_distinct(self.jobs.keys());
            lemma_pairs_count(self.jobs.keys(), self.jobs.vals(), p);
            let m = self.jobs@;
            assert(m.dom().filter(|k: Seq<char>| p(m[k])) =~= m.dom().filter(
                |id: Seq<char>| m.dom().contains(id) && status_active(m[id].status),
            ));
        }
        count
    }

    /// The listed jobs a selector picks, newest first.
    fn select(&self, which: JobSel) -> (r: Vec<&Job>)
        ensures
            r@.map_values(|j: &Job| *j) == self.listed().filter(|j: Job| job_selected(which, j)),
    {
        proof {
            use_type_invariant(self);
        }
        let ghost p = |j: Job| job_selected(which, j);
        let ghost l = self.listed();
        let mut out: Vec<&Job> = Vec::new();
        let mut i: usize = 0;
        while i < self.order.len()
            invariant
                i <= self.order.len(),
                l == self.listed(),
                l.len() == self.order.len(),
                p == |j: Job| job_selected(which, j),
                store_consistent(string_views(self.order@), self.jobs@),
                out@.map_values(|j: &Job| *j) == l.take(i as int).filter(p),
            decreases self.order.len() - i,
        {
            proof {
                lemma_filter_step(l, p, i as int);
                assert(self.jobs@.dom().contains(string_views(self.order@)[i as int]));
            }
            let ghost prev = out@.map_values(|j: &Job| *j);
            match self.jobs.get(self.order[i].as_str()) {
                Some(job) => {
                    assert(*job == l[i as int]);
                    if job_selector_admits(which, job) {
                        out.push(job);
                        assert(out@.map_values(|j: &Job| *j) =~= prev.push(*job));
                    }
                },
                None => {},
            }
            i = i + 1;
        }
        assert(l.take(l.len() as int) =~= l);
        out
    }

    /// The queued and running jobs, newest first.
    pub fn active(&self) -> (r: Vec<&Job>)
        ensures
            r@.map_values(|j: &Job| *j) == self.listed().filter(
                |j: Job| job_selected(JobSel::Active, j),
            ),
    {
        self.select(JobSel::Active)
    }

    /// The finished jobs, newest first.
    pub fn completed(&self) -> (r: Vec<&Job>)
        ensures
            r@.map_values(|j: &Job| *j) == self.listed().filter(
                |j: Job| job_selected(JobSel::Finished, j),
            ),
    {
        self.select(JobSel::Finished)
    }

    /// The jobs of a unit, newest first.
    pub fn for_unit(&self, unit_id: &str) -> (r: Vec<&Job>)
        ensures
            r@.map_values(|j: &Job| *j) == self.listed().filter(
                |j: Job| job_selected(JobSel::Unit(unit_id), j),
            ),
    {
        self.select(JobSel::Unit(unit_id))
    }

    /// The active jobs followed by the finished ones, each group newest
    /// first, cut after `limit` jobs (after one job when `limit` is zero,
    /// since the cut is checked after each job is taken).
    pub fn recent(&self, limit: usize) -> (r: Vec<&Job>)
        ensures
            r@.map_values(|j: &Job| *j) == recent_spec(self.listed(), limit as int),
    {
        let a = self.select(JobSel::Active);
        let f = self.select(JobSel::Finished);
        let ghost all = a@.map_values(|j: &Job| *j) + f@.map_values(|j: &Job| *j);
        let mut both: Vec<&Job> = Vec::new();
        let mut i: usize = 0;
        while i < a.len()
            invariant
                i <= a.len(),
                both@ == a@.take(i as int),
            decreases a.len() - i,
        {
            both.push(a[i]);
            assert(both@ =~= a@.take(i + 1));
            i = i + 1;
        }
        let mut k: usize = 0;
        while k < f.len()
            invariant
                k <= f.len(),
                both@ == a@ + f@.take(k as int),
            decreases f.len() - k,
        {
            both.push(f[k]);
            assert(both@ =~= a@ + f@.take(k + 1));
            k = k + 1;
        }
        assert(a@.take(a.len() as int) =~= a@);
        assert(f@.take(f.len() as int) =~= f@);
        assert(both@.map_values(|j: &Job| *j) =~= all);
        let mut out: Vec<&Job> = Vec::new();
        let mut m: usize = 0;
        while m < both.len()
            invariant
                m <= both.len(),
                out@ == both@.take(m as int),
                both@.map_values(|j: &Job| *j) == all,
                all == self.listed().filter(|j: Job| job_selected(JobSel::Active, j))
                    + self.listed().filter(|j: Job| job_selected(JobSel::Finished, j)),
                m == 0 || m < limit,
            decreases both.len() - m,
        {
            out.push(both[m]);
            m = m + 1;
            assert(out@ =~= both@.take(m as int));
            if out.len() >= limit {
                proof {
                    assert(out@.map_values(|j: &Job| *j) =~= all.take(m as int));
                    assert(all.len() == both@.len());
                    assert(m == (if limit == 0 { 1 } else { limit }));
                    assert(all == self.listed().filter(|j: Job| job_selected(JobSel::Active, j))
                        + self.listed().filter(|j: Job| job_selected(JobSel::Finished, j)));
                }
                return out;
            }
        }
        assert(out@.map_values(|j: &Job| *j) =~= all.take(m as int));
        out
    }

    /// Replaces the job stored under `id` by what `step` makes of it; the
    /// order is unchanged.
    fn update_job(&mut self, id: &String, step: JobStep)
        ensures
            final(self).order_ids() == old(self).order_ids(),
            stepped_store(old(self).job_map(), final(self).job_map(), id@, step),
    {
        proof {
            use_type_invariant(&*self);
        }
        let mut tmp = JobStore::new();
        std::mem::swap(self, &mut tmp);
        let JobStore { mut jobs, order } = tmp;
        let ghost m = jobs@;
        match jobs.remove(id.as_str()) {
            Some(mut job) => {
                match step {
                    JobStep::Started(pid) => job.mark_started(pid),
                    JobStep::Finished(status, exit_code) => {
                        job.status = status;
                        job.exit_code = exit_code;
                        job.finished_at = Some(now());
                    },
                }
                let ghost j = job;
                let _ = jobs.insert(id.clone(), job);
                proof {
                    assert(jobs@.dom() =~= m.dom());
                }
            },
            None => {},
        }
        *self = JobStore { jobs, order };
    }

    /// Applies an event: a queued job is added, a started or finished job
    /// is updated; output changes nothing.
    pub fn apply_event(&mut self, event: &JobEvent)
        ensures
            match event {
                JobEvent::JobQueued { job_id, spec } => exists|j: Job|
                    {
                        &&& j.id@ == job_id@
                        &&& j.status == JobStatus::Queued
                        &&& j.started_at is None
                        &&& j.finished_at is None
                        &&& j.exit_code is None
                        &&& j.pid is None
                        &&& same_spec(j.spec, *spec)
                        &&& final(self).job_map() == pruned_map(
                            seq![j.id@] + old(self).order_ids(),
                            old(self).job_map().insert(j.id@, j),
                        )
                        &&& final(self).order_ids() == pruned_order(
                            seq![j.id@] + old(self).order_ids(),
                            old(self).job_map().insert(j.id@, j),
                        )
                    },
                JobEvent::JobStarted { job_id, pid } => {
                    &&& final(self).order_ids() == old(self).order_ids()
                    &&& stepped_store(
                        old(self).job_map(),
                        final(self).job_map(),
                        job_id@,
                        JobStep::Started(*pid),
                    )
                },
                JobEvent::JobOutput { .. } => final(self).order_ids() == old(self).order_ids()
                    && final(self).job_map() == old(self).job_map(),
                JobEvent::JobFinished { job_id, status, exit_code } => {
                    &&& final(self).order_ids() == old(self).order_ids()
                    &&& stepped_store(
                        old(self).job_map(),
                        final(self).job_map(),
                        job_id@,
                        JobStep::Finished(*status, *exit_code),
                    )
                },
            },
    {
        match event {
            JobEvent::JobQueued { job_id, spec } => {
                let job = Job::new(job_id.clone(), spec.clone());
                self.add(job);
            },
            JobEvent::JobStarted { job_id, pid } => {
                self.update_job(job_id, JobStep::Started(*pid));
            },
            JobEvent::JobOutput { .. } => {},
            JobEvent::JobFinished { job_id, status, exit_code } => {
                self.update_job(job_id, JobStep::Finished(status.clone(), *exit_code));
            },
        }
    }
}

/// A change made to a stored job by an event.
pub enum JobStep {
    Started(Option<u32>),
    Finished(JobStatus, Option<i32>),
}

/// Whether `b` is what `step` makes of job `a` (the times it sets come
/// from the clock and are only known to be set).
pub open spec fn step_applied(a: Job, b: Job, step: JobStep) -> bool {
    &&& b.id == a.id
    &&& b.spec == a.spec
    &&& match step {
        JobStep::Started(pid) => {
            &&& b.status == JobStatus::Running
            &&& b.started_at is Some
            &&& b.pid == pid
            &&& b.finished_at == a.finished_at
            &&& b.exit_code == a.exit_code
        },
        JobStep::Finished(status, exit_code) => {
            &&& b.status == status
            &&& b.exit_code == exit_code
            &&& b.finished_at is Some
            &&& b.started_at == a.started_at
            &&& b.pid == a.pid
        },
    }
}

/// The store's jobs after a step on the job `id` (if there is one): only
/// that job changes.
pub open spec fn stepped_store(
    before: Map<Seq<char>, Job>,
    after: Map<Seq<char>, Job>,
    id: Seq<char>,
    step: JobStep,
) -> bool {
    &&& after.dom() == before.dom()
    &&& forall|k: Seq<char>| k != id && #[trigger] before.dom().contains(k) ==> after[k] == before[k]
    &&& before.dom().contains(id) ==> step_applied(before[id], after[id], step)
}

/// What `recent` lists: the active jobs then the finished ones, cut after
/// `limit` jobs, or after one job when `limit` is zero.
pub open spec fn recent_spec(l: Seq<Job>, limit: int) -> Seq<Job> {
    let all = l.filter(|j: Job| job_selected(JobSel::Active, j)) + l.filter(|j: Job| job_selected(JobSel::Finished, j));
    let cap = if limit == 0 { 1 } else { limit };
    all.take(if cap <= all.len() { cap } else { all.len() as int })
}

/// Which jobs a store query picks.
#[derive(Clone, Copy)]
pub enum JobSel<'a> {
    Active,
    Finished,
    Unit(&'a str),
}

pub open spec fn job_selected(which: JobSel, j: Job) -> bool {
    match which {
        JobSel::Active => status_active(j.status),
        JobSel::Finished => !status_active(j.status),
        JobSel::Unit(u) => j.spec.unit_id matches Some(x) && x@ == u@,
    }
}

fn job_selector_admits(which: JobSel, j: &Job) -> (r: bool)
    ensures
        r == job_selected(which, *j),
{
    match which {
        JobSel::Active => j.status.is_active(),
        JobSel::Finished => j.status.is_finished(),
        JobSel::Unit(u) => match &j.spec.unit_id {
            Some(x) => str_eq(x.as_str(), u),
            None => false,
        },
    }
}

/// At most this many finished jobs are kept after a job is added.
pub const MAX_COMPLETED_JOBS: usize = 50;


/// How a job's output lines are prefixed: `unit > name` for a unit's job,
/// else `job:` and the first eight bytes of its id.
pub open spec fn log_prefix_of(job: Job, id_cut: Seq<char>) -> Seq<char> {
    match job.spec.unit_id {
        Some(u) => u@ + " > "@ + job.spec.display_name@,
        None => "job:"@ + id_cut,
    }
}

/// The prefix of a job's log lines.  Without a unit, the id is cut after
/// its eighth byte, which must end a character.
pub fn job_log_prefix(job: &Job) -> (r: String)
    requires
        job.spec.unit_id is None ==> exists|k: int| byte_cut(job.id@, 8, k),
    ensures
        job.spec.unit_id is Some ==> r@ == log_prefix_of(*job, seq![]),
        job.spec.unit_id is None ==> exists|k: int|
            byte_cut(job.id@, 8, k) && r@ == log_prefix_of(*job, job.id@.take(k)),
{
    match &job.spec.unit_id {
        Some(unit_id) => concat3(unit_id.as_str(), " > ", job.display_name()),
        None => {
            match byte_prefix(job.id.as_str(), 8) {
                Some(cut) => concat2("job:", cut.as_str()),
                None => {
                    proof {
                        let k = choose|k: int| byte_cut(job.id@, 8, k);
                        assert(!byte_cut(job.id@, 8, k));
                    }
                    owned("job:")
                },
            }
        },
    }
}

/// A job's output line with its prefix: `prefix | line`.
pub fn format_job_log_line(job: &Job, line: &str) -> (r: String)
    requires
        job.spec.unit_id is None ==> exists|k: int| byte_cut(job.id@, 8, k),
    ensures
        job.spec.unit_id is Some ==> r@ == log_prefix_of(*job, seq![]) + " | "@ + line@,
        job.spec.unit_id is None ==> exists|k: int|
            byte_cut(job.id@, 8, k) && r@ == log_prefix_of(*job, job.id@.take(k)) + " | "@
                + line@,
{
    let p = job_log_prefix(job);
    concat3(p.as_str(), " | ", line)
}

/// The first element `s.filter(f)` keeps is the first element of `s` that
/// satisfies `f`.
proof fn lemma_filter_first<A>(s: Seq<A>, f: spec_fn(A) -> bool)
    requires
        s.filter(f).len() > 0,
    ensures
        exists|j: int|
            0 <= j < s.len() && s[j] == s.filter(f)[0] && f(s[j]) && forall|k: int| 0 <= k < j ==> !f(#[trigger] s[k]),
    decreases s.len(),
{
    reveal(Seq::filter);
    let d = s.drop_last();
    if d.filter(f).len() > 0 {
        lemma_filter_first(d, f);
        let j = choose|j: int|
            0 <= j < d.len() && d[j] == d.filter(f)[0] && f(d[j]) && forall|k: int| 0 <= k < j ==> !f(#[trigger] d[k]);
        assert(s.filter(f)[0] == d.filter(f)[0]);
        assert(s[j] == d[j]);
        assert forall|k: int| 0 <= k < j implies !f(#[trigger] s[k]) by {
            assert(s[k] == d[k]);
        }
    } else {
        assert(f(s.last()));
        assert(s.filter(f)[0] == s.last());
        assert forall|k: int| 0 <= k < s.len() - 1 implies !f(#[trigger] s[k]) by {
            if f(s[k]) {
                assert(d[k] == s[k]);
                d.lemma_filter_contains(f, k);
            }
        }
        assert(s[s.len() - 1] == s.last());
    }
}

/// The finished ids of a map.
pub open spec fn finished_ids(m: Map<Seq<char>, Job>) -> Set<Seq<char>> {
    m.dom().filter(|id: Seq<char>| finished_id(m, id))
}

/// Adding a new job to a store that keeps at most `MAX_COMPLETED_JOBS`
/// finished jobs puts it first, keeps it and every active job, and leaves
/// at most `MAX_COMPLETED_JOBS` finished jobs: nothing is dropped while
/// there is room; otherwise exactly one job is dropped, the finished one
/// listed last (the oldest).
pub proof fn law_add_drops_oldest_finished(order: Seq<Seq<char>>, m: Map<Seq<char>, Job>, job: Job)
    requires
        store_consistent(order, m),
        order.no_duplicates(),
        m.dom().finite(),
        finished_count(m) <= MAX_COMPLETED_JOBS,
        !m.dom().contains(job.id@),
    ensures
        ({
            let o = seq![job.id@] + order;
            let m2 = m.insert(job.id@, job);
            let pm = pruned_map(o, m2);
            let po = pruned_order(o, m2);
            let v = prune_victims(o, m2);
            &&& po.len() > 0 && po[0] == job.id@
            &&& pm.dom().contains(job.id@) && pm[job.id@] == job
            &&& finished_count(pm) <= MAX_COMPLETED_JOBS
            &&& forall|k: Seq<char>| m2.dom().contains(k) && status_active(#[trigger] m2[k].status)
                ==> pm.dom().contains(k) && pm[k] == m2[k]
            &&& (finished_count(m2) <= MAX_COMPLETED_JOBS ==> pm == m2 && v.len() == 0)
            &&& (finished_count(m2) > MAX_COMPLETED_JOBS ==> {
                &&& v.len() == 1
                &&& pm == m2.remove(v[0])
                &&& exists|j: int| 0 <= j < o.len() && o[j] == v[0] && finished_id(m2, o[j])
                    && forall|k: int| j < k < o.len() ==> !finished_id(m2, #[trigger] o[k])
            })
        }),
{
    let id = job.id@;
    let o = seq![id] + order;
    let m2 = m.insert(id, job);
    let f1 = |k: Seq<char>| finished_id(m, k);
    let f2 = |k: Seq<char>| finished_id(m2, k);
    let s1 = m.dom().filter(f1);
    let s2 = m2.dom().filter(f2);
    m.dom().lemma_len_filter(f1);
    let done = !status_active(job.status);
    // the new job adds itself to the finished ones when it is finished
    if done {
        assert(s2 =~= s1.insert(id));
    } else {
        assert(s2 =~= s1);
    }
    assert(finished_count(m2) == s2.len());
    assert(finished_count(m) == s1.len());
    assert(s2.len() == s1.len() + (if done { 1int } else { 0 }));
    let v = prune_victims(o, m2);
    let f = |x: Seq<char>| !v.contains(x);
    // the filtered order starts with the new job when it is no victim
    assert(o.filter(f) == seq![id].filter(f) + order.filter(f)) by {
        Seq::filter_distributes_over_add(seq![id], order, f);
    }
    if finished_count(m2) <= MAX_COMPLETED_JOBS {
        assert(v.len() == 0);
        assert(!v.contains(id));
        assert(v.to_set() =~= Set::<Seq<char>>::empty());
        assert(pruned_map(o, m2) =~= m2);
    } else {
        assert(done);
        assert(finished_count(m2) == MAX_COMPLETED_JOBS + 1);
        let r = o.reverse();
        let cands = r.filter(f2);
        // some job of the old order is finished
        assert(s1.len() > 0);
        let w = s1.choose();
        assert(s1.contains(w));
        assert(order.contains(w));
        let iw = choose|iw: int| 0 <= iw < order.len() && order[iw] == w;
        assert(o[iw + 1] == w);
        assert(r[o.len() - 1 - (iw + 1)] == w);
        r.lemma_filter_contains(f2, o.len() - 1 - (iw + 1));
        assert(cands.len() > 0);
        assert(v =~= cands.take(1));
        lemma_filter_first(r, f2);
        let j = choose|j: int|
            0 <= j < r.len() && r[j] == cands[0] && f2(r[j]) && forall|k: int| 0 <= k < j ==> !f2(#[trigger] r[k]);
        let x = cands[0];
        let jo = o.len() - 1 - j;
        assert(o[jo] == x);
        assert(j < r.len() - 1) by {
            // the last of the reversed order is the new job, after the finished `w`
            if j == r.len() - 1 {
                assert(r[o.len() - 1 - (iw + 1)] == w);
                assert(f2(w));
                assert(!f2(r[o.len() - 1 - (iw + 1)]));
            }
        }
        assert(jo > 0);
        assert(x == order[jo - 1]);
        assert(m.dom().contains(x));
        assert(x != id);
        assert forall|k: int| jo < k < o.len() implies !finished_id(m2, #[trigger] o[k]) by {
            let kr = o.len() - 1 - k;
            assert(r[kr] == o[k]);
            assert(!f2(r[kr]));
        }
        assert(v =~= seq![x]);
        assert forall|y: Seq<char>| v.to_set().contains(y) <==> set![x].contains(y) by {
            if y == x {
                assert(v[0] == x);
            }
        }
        assert(v.to_set() =~= set![x]);
        assert(pruned_map(o, m2) =~= m2.remove(x));
        assert(finished_ids(m2.remove(x)) =~= s2.remove(x));
        assert(s2.contains(x));
        assert(finished_count(pruned_map(o, m2)) == s2.remove(x).len());
        assert(!v.contains(id));
    }
    assert(seq![id].filter(f) =~= seq![id]) by {
        reveal_with_fuel(Seq::filter, 2);
        assert(seq![id].drop_last() =~= Seq::<Seq<char>>::empty());
    }
    assert(pruned_order(o, m2) == o.filter(f));
    assert(pruned_order(o, m2)[0] == id);
}

} // verus!
