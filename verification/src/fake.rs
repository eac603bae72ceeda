//! The demo engine: services that only pretend to run.  It answers requests
//! with the status changes and log lines a real engine would produce, after
//! short pauses, and on every tick each running service prints a line chosen
//! by its name and the tick number.
use vstd::prelude::*;

use crate::lifecycle::EngineCommand;
use crate::model::{DesiredState, ServiceNode, ServiceStatus};
use crate::model::RuntimeGraph;
use crate::reducer::{EventEnvelope, RuntimeEvent};
use crate::state::LogStream;
use crate::strmap::StrMap;
use crate::text::{concat2, decimal, join, join_strings, owned, push_str, string_views, u64_to_string};

verus! {

/// Milliseconds between two ticks of a new engine.
pub const DEFAULT_TICK_MS: u64 = 600;

/// The demo engine's counters.
#[derive(Debug)]
pub struct FakeEngine {
    pub tick_interval_ms: u64,
    pub tick_counter: u64,
    pub job_counter: u64,
}

impl FakeEngine {
    pub fn new() -> (r: Self)
        ensures
            r.tick_interval_ms == DEFAULT_TICK_MS,
            r.tick_counter == 0,
            r.job_counter == 0,
    {
        FakeEngine { tick_interval_ms: DEFAULT_TICK_MS, tick_counter: 0, job_counter: 0 }
    }

    /// The same engine ticking every `ms` milliseconds.
    pub fn with_tick_interval(self, ms: u64) -> (r: Self)
        ensures
            r.tick_interval_ms == ms,
            r.tick_counter == self.tick_counter,
            r.job_counter == self.job_counter,
    {
        FakeEngine { tick_interval_ms: ms, ..self }
    }
}

impl Default for FakeEngine {
    fn default() -> (r: Self)
        ensures
            r.tick_interval_ms == DEFAULT_TICK_MS,
            r.tick_counter == 0,
            r.job_counter == 0,
    {
        FakeEngine::new()
    }
}

/// Something the demo engine does: report a status, print a system line,
/// clear a service's logs, or pause.
#[derive(Debug)]
pub enum FakeStep {
    Status { id: String, status: ServiceStatus },
    Log { id: String, text: String },
    ClearLogs { id: String },
    Sleep { ms: u64 },
}

/// A step as plain values.
pub enum StepView {
    Status(Seq<char>, ServiceStatus),
    Log(Seq<char>, Seq<char>),
    ClearLogs(Seq<char>),
    Sleep(u64),
}

pub open spec fn step_view(s: FakeStep) -> StepView {
    match s {
        FakeStep::Status { id, status } => StepView::Status(id@, status),
        FakeStep::Log { id, text } => StepView::Log(id@, text@),
        FakeStep::ClearLogs { id } => StepView::ClearLogs(id@),
        FakeStep::Sleep { ms } => StepView::Sleep(ms),
    }
}

pub open spec fn steps_view(v: Seq<FakeStep>) -> Seq<StepView> {
    v.map_values(|s: FakeStep| step_view(s))
}

/// A status in which the service counts as on.
pub open spec fn is_on(s: ServiceStatus) -> bool {
    s is Running || s is Starting || s is Restarting
}

/// The steps answering a request for `id`, whose status is `current`, and
/// the status it has afterwards (`None`: unchanged).
pub open spec fn fake_answer(cmd: EngineCommand, current: Option<ServiceStatus>) -> (Seq<StepView>, Option<ServiceStatus>) {
    match cmd {
        EngineCommand::Start { id } => (
            seq![
                StepView::Status(id@, ServiceStatus::Starting),
                StepView::Sleep(300),
                StepView::Status(id@, ServiceStatus::Running),
            ],
            Some(ServiceStatus::Running),
        ),
        EngineCommand::Stop { id } => (seq![StepView::Status(id@, ServiceStatus::Stopped)], Some(ServiceStatus::Stopped)),
        EngineCommand::Restart { id } => (
            seq![
                StepView::Status(id@, ServiceStatus::Restarting),
                StepView::Sleep(200),
                StepView::Status(id@, ServiceStatus::Running),
                StepView::Log(id@, "restarted"@),
            ],
            Some(ServiceStatus::Running),
        ),
        EngineCommand::Kill { id } => (
            seq![StepView::Status(id@, ServiceStatus::Stopped), StepView::Log(id@, "process killed"@)],
            Some(ServiceStatus::Stopped),
        ),
        EngineCommand::Toggle { id } => if current matches Some(s) && is_on(s) {
            (seq![StepView::Status(id@, ServiceStatus::Stopped)], Some(ServiceStatus::Stopped))
        } else {
            (
                seq![
                    StepView::Status(id@, ServiceStatus::Starting),
                    StepView::Sleep(250),
                    StepView::Status(id@, ServiceStatus::Running),
                ],
                Some(ServiceStatus::Running),
            )
        },
        EngineCommand::ClearLogs { id } => (seq![StepView::ClearLogs(id@)], None),
        EngineCommand::Exec { id, cmd } => (
            seq![
                StepView::Log(id@, "$ "@ + join(string_views(cmd@), " "@)),
                StepView::Sleep(120),
                StepView::Log(id@, "ok"@),
            ],
            None,
        ),
        EngineCommand::EmitLog { id, text } => (seq![StepView::Log(id@, text@)], None),
        EngineCommand::Shutdown => (Seq::empty(), None),
    }
}

/// The id a request is about.
pub open spec fn target_of(cmd: EngineCommand) -> Option<Seq<char>> {
    match cmd {
        EngineCommand::Start { id } => Some(id@),
        EngineCommand::Stop { id } => Some(id@),
        EngineCommand::Restart { id } => Some(id@),
        EngineCommand::Kill { id } => Some(id@),
        EngineCommand::Toggle { id } => Some(id@),
        EngineCommand::ClearLogs { id } => Some(id@),
        EngineCommand::Exec { id, .. } => Some(id@),
        EngineCommand::EmitLog { id, .. } => Some(id@),
        EngineCommand::Shutdown => None,
    }
}

fn push_step(v: &mut Vec<FakeStep>, s: FakeStep)
    ensures
        steps_view(final(v)@) == steps_view(old(v)@).push(step_view(s)),
{
    let ghost before = v@;
    let ghost sv = step_view(s);
    v.push(s);
    proof {
        assert(steps_view(v@) =~= steps_view(before).push(sv));
    }
}

/// What the demo engine does for a request: the steps, and whether it stops.
#[derive(Debug)]
pub struct FakeReaction {
    pub steps: Vec<FakeStep>,
    pub quit: bool,
}

/// Answers a request and records the service's new status.
pub fn fake_command(statuses: &mut StrMap<ServiceStatus>, cmd: EngineCommand) -> (r: FakeReaction)
    ensures
        r.quit == (cmd is Shutdown),
        ({
            let id = target_of(cmd);
            let current = match id {
                Some(k) => if old(statuses)@.dom().contains(k) { Some(old(statuses)@[k]) } else { None },
                None => None,
            };
            let (steps, next) = fake_answer(cmd, current);
            &&& steps_view(r.steps@) == steps
            &&& final(statuses)@ == match (id, next) {
                (Some(k), Some(s)) => old(statuses)@.insert(k, s),
                _ => old(statuses)@,
            }
        }),
{
    let mut v: Vec<FakeStep> = Vec::new();
    proof {
        assert(steps_view(v@) =~= Seq::<StepView>::empty());
    }
    match cmd {
        EngineCommand::Shutdown => {
            return FakeReaction { steps: v, quit: true };
        },
        EngineCommand::Start { id } => {
            push_step(&mut v, FakeStep::Status { id: id.clone(), status: ServiceStatus::Starting });
            push_step(&mut v, FakeStep::Sleep { ms: 300 });
            push_step(&mut v, FakeStep::Status { id: id.clone(), status: ServiceStatus::Running });
            let _ = statuses.insert(id, ServiceStatus::Running);
        },
        EngineCommand::Stop { id } => {
            push_step(&mut v, FakeStep::Status { id: id.clone(), status: ServiceStatus::Stopped });
            let _ = statuses.insert(id, ServiceStatus::Stopped);
        },
        EngineCommand::Restart { id } => {
            push_step(&mut v, FakeStep::Status { id: id.clone(), status: ServiceStatus::Restarting });
            push_step(&mut v, FakeStep::Sleep { ms: 200 });
            push_step(&mut v, FakeStep::Status { id: id.clone(), status: ServiceStatus::Running });
            push_step(&mut v, FakeStep::Log { id: id.clone(), text: owned("restarted") });
            let _ = statuses.insert(id, ServiceStatus::Running);
        },
        EngineCommand::Kill { id } => {
            push_step(&mut v, FakeStep::Status { id: id.clone(), status: ServiceStatus::Stopped });
            push_step(&mut v, FakeStep::Log { id: id.clone(), text: owned("process killed") });
            let _ = statuses.insert(id, ServiceStatus::Stopped);
        },
        EngineCommand::Toggle { id } => {
            let on = match statuses.get(id.as_str()) {
                Some(ServiceStatus::Running) | Some(ServiceStatus::Starting) | Some(ServiceStatus::Restarting) => true,
                _ => false,
            };
            if on {
                push_step(&mut v, FakeStep::Status { id: id.clone(), status: ServiceStatus::Stopped });
                let _ = statuses.insert(id, ServiceStatus::Stopped);
            } else {
                push_step(&mut v, FakeStep::Status { id: id.clone(), status: ServiceStatus::Starting });
                push_step(&mut v, FakeStep::Sleep { ms: 250 });
                push_step(&mut v, FakeStep::Status { id: id.clone(), status: ServiceStatus::Running });
                let _ = statuses.insert(id, ServiceStatus::Running);
            }
        },
        EngineCommand::ClearLogs { id } => {
            push_step(&mut v, FakeStep::ClearLogs { id });
        },
        EngineCommand::Exec { id, cmd } => {
            let shown = join_strings(&cmd, " ");
            push_step(&mut v, FakeStep::Log { id: id.clone(), text: concat2("$ ", shown.as_str()) });
            push_step(&mut v, FakeStep::Sleep { ms: 120 });
            push_step(&mut v, FakeStep::Log { id, text: owned("ok") });
        },
        EngineCommand::EmitLog { id, text } => {
            push_step(&mut v, FakeStep::Log { id, text });
        },
    }
    FakeReaction { steps: v, quit: false }
}

/// The status a service has after start-up.
pub open spec fn startup_status(n: ServiceNode) -> ServiceStatus {
    if n.desired == DesiredState::Running {
        ServiceStatus::Running
    } else {
        ServiceStatus::Stopped
    }
}

/// The ids of the services that should run, in key order.
pub open spec fn wanted(ids: Seq<Seq<char>>, nodes: Seq<ServiceNode>) -> Seq<Seq<char>>
    decreases ids.len(),
{
    if ids.len() == 0 {
        seq![]
    } else {
        let rest = wanted(ids.drop_last(), nodes.drop_last());
        if nodes[ids.len() - 1].desired == DesiredState::Running { rest.push(ids.last()) } else { rest }
    }
}

/// Each service reported running, with a line saying it started.
pub open spec fn running_steps(w: Seq<Seq<char>>) -> Seq<StepView>
    decreases w.len(),
{
    if w.len() == 0 {
        seq![]
    } else {
        running_steps(w.drop_last()) + seq![
            StepView::Status(w.last(), ServiceStatus::Running),
            StepView::Log(w.last(), w.last() + " started"@),
        ]
    }
}

/// Start-up: each service that should run is reported starting, then after a
/// pause running, with a line saying so.
pub open spec fn startup_steps(w: Seq<Seq<char>>) -> Seq<StepView> {
    w.map_values(|id: Seq<char>| StepView::Status(id, ServiceStatus::Starting)) + seq![StepView::Sleep(250)]
        + running_steps(w)
}

/// Start-up of the demo engine over the graph's nodes: the steps, and the
/// statuses it leaves: running for the services that should run, stopped for
/// the others.
pub fn fake_startup(nodes: &StrMap<ServiceNode>) -> (r: (Vec<FakeStep>, StrMap<ServiceStatus>))
    ensures
        steps_view(r.0@) == startup_steps(wanted(nodes.keys(), nodes.vals())),
        r.1@ == nodes@.map_values(|n: ServiceNode| startup_status(n)),
{
    let n = nodes.len();
    let ghost ks = nodes.keys();
    let ghost vs = nodes.vals();
    proof {
        crate::strmap::lemma_sorted_distinct(ks);
    }
    let mut up: Vec<String> = Vec::new();
    let mut statuses: StrMap<ServiceStatus> = StrMap::new();
    let mut i: usize = 0;
    while i < n
        invariant
            n == ks.len(),
            n == vs.len(),
            ks == nodes.keys(),
            vs == nodes.vals(),
            crate::strmap::distinct_keys(ks),
            i <= n,
            string_views(up@) == wanted(ks.take(i as int), vs.take(i as int)),
            forall|k: Seq<char>| #[trigger] statuses@.dom().contains(k) <==> ks.take(i as int).contains(k),
            forall|j: int| 0 <= j < i ==> #[trigger] statuses@[ks[j]] == startup_status(vs[j]),
        decreases n - i,
    {
        let k = nodes.key_at(i);
        let node = nodes.value_at(i);
        let ghost before = up@;
        let ghost st_before = statuses@;
        proof {
            assert(ks.take(i + 1).drop_last() =~= ks.take(i as int));
            assert(vs.take(i + 1).drop_last() =~= vs.take(i as int));
            assert(vs.take(i + 1)[i as int] == vs[i as int]);
        }
        if node.desired == DesiredState::Running {
            up.push(k.clone());
            proof {
                assert(string_views(up@) =~= string_views(before).push(k@));
            }
            let _ = statuses.insert(k.clone(), ServiceStatus::Running);
        } else {
            let _ = statuses.insert(k.clone(), ServiceStatus::Stopped);
        }
        proof {
            let t1 = ks.take(i + 1);
            let t0 = ks.take(i as int);
            assert forall|x: Seq<char>| #[trigger] statuses@.dom().contains(x) <==> t1.contains(x) by {
                if t1.contains(x) {
                    let j = choose|j: int| 0 <= j < t1.len() && #[trigger] t1[j] == x;
                    if j < i {
                        assert(t0[j] == x);
                    }
                }
                if t0.contains(x) {
                    let j = choose|j: int| 0 <= j < t0.len() && #[trigger] t0[j] == x;
                    assert(t1[j] == x);
                }
                if x == k@ {
                    assert(t1[i as int] == x);
                }
            }
            assert forall|j: int| 0 <= j < i + 1 implies #[trigger] statuses@[ks[j]] == startup_status(vs[j]) by {
                if j < i {
                    assert(ks[j] != ks[i as int]);
                    assert(statuses@[ks[j]] == st_before[ks[j]]);
                }
            }
        }
        i = i + 1;
    }
    proof {
        assert(ks.take(n as int) =~= ks);
        assert(vs.take(n as int) =~= vs);
        assert forall|x: Seq<char>| #[trigger] statuses@.dom().contains(x) <==> nodes@.dom().contains(x) by {}
        assert forall|x: Seq<char>| #[trigger] statuses@.dom().contains(x) implies statuses@[x] == startup_status(nodes@[x]) by {
            let j = choose|j: int| 0 <= j < ks.len() && #[trigger] ks[j] == x;
            crate::strmap::lemma_pairs_at(ks, vs, j);
        }
        assert(statuses@ =~= nodes@.map_values(|n: ServiceNode| startup_status(n)));
    }

    let ghost w = string_views(up@);
    let mut steps: Vec<FakeStep> = Vec::new();
    let mut a: usize = 0;
    while a < up.len()
        invariant
            a <= up@.len(),
            w == string_views(up@),
            steps_view(steps@) == w.take(a as int).map_values(|id: Seq<char>| StepView::Status(id, ServiceStatus::Starting)),
        decreases up@.len() - a,
    {
        push_step(&mut steps, FakeStep::Status { id: up[a].clone(), status: ServiceStatus::Starting });
        proof {
            assert(w.take(a + 1).map_values(|id: Seq<char>| StepView::Status(id, ServiceStatus::Starting))
                =~= w.take(a as int).map_values(|id: Seq<char>| StepView::Status(id, ServiceStatus::Starting)).push(
                StepView::Status(w[a as int], ServiceStatus::Starting),
            ));
        }
        a = a + 1;
    }
    push_step(&mut steps, FakeStep::Sleep { ms: 250 });
    let ghost head = steps_view(steps@);
    proof {
        assert(w.take(a as int) =~= w);
        assert(w.take(0) =~= Seq::<Seq<char>>::empty());
        assert(head + running_steps(w.take(0)) =~= head);
    }
    let mut b: usize = 0;
    while b < up.len()
        invariant
            b <= up@.len(),
            w == string_views(up@),
            steps_view(steps@) == head + running_steps(w.take(b as int)),
        decreases up@.len() - b,
    {
        let ghost before = steps_view(steps@);
        push_step(&mut steps, FakeStep::Status { id: up[b].clone(), status: ServiceStatus::Running });
        push_step(&mut steps, FakeStep::Log { id: up[b].clone(), text: concat2(up[b].as_str(), " started") });
        proof {
            assert(w.take(b + 1).drop_last() =~= w.take(b as int));
            assert(w.take(b + 1).last() == w[b as int]);
            assert(steps_view(steps@) =~= head + running_steps(w.take(b + 1)));
        }
        b = b + 1;
    }
    proof {
        assert(w.take(b as int) =~= w);
    }
    (steps, statuses)
}

/// What the API prints on tick `t`.
pub open spec fn api_line(t: nat) -> Seq<char> {
    if t % 12 == 7 {
        "[ERROR] Connection refused to upstream service"@
    } else if t % 8 == 3 {
        "[WARN] High latency detected: 450ms"@
    } else if t % 4 == 0 {
        "GET /health 200"@
    } else if t % 4 == 1 {
        "GET /api/users 200"@
    } else if t % 4 == 2 {
        "POST /api/data 201"@
    } else {
        "GET /api/status 200"@
    }
}

/// What the worker prints on tick `t`, `job` being its job count.
pub open spec fn worker_line(t: nat, job: nat) -> Seq<char> {
    if t % 10 == 5 {
        "[ERROR] Job "@ + decimal(job) + " failed: timeout after 30s"@
    } else if t % 7 == 2 {
        "[WARN] Queue depth high: "@ + decimal(50 + t % 30) + " pending"@
    } else {
        "processed job id="@ + decimal(job)
    }
}

/// What the database prints on tick `t`.
pub open spec fn db_line(t: nat) -> Seq<char> {
    if t % 15 == 10 {
        "[WARN] Slow query detected: 1250ms"@
    } else if t % 3 == 0 {
        "checkpoint complete"@
    } else if t % 3 == 1 {
        "autovacuum: processing"@
    } else {
        "connection accepted"@
    }
}

/// What the cache prints on tick `t`: its key count and memory in MB.
pub open spec fn cache_line(t: nat) -> Seq<char> {
    "keys: "@ + decimal(1000 + t % 500) + ", memory: 2."@ + decimal(t % 10) + "MB"@
}

/// The line service `id` prints on tick `t`.
pub open spec fn tick_line(id: Seq<char>, t: nat, job: nat) -> Seq<char> {
    if id == "api"@ {
        api_line(t)
    } else if id == "worker"@ {
        worker_line(t, job)
    } else if id == "postgres"@ || id == "db"@ {
        db_line(t)
    } else if id == "redis"@ || id == "cache"@ {
        cache_line(t)
    } else {
        "tick "@ + decimal(t)
    }
}

/// The lines of one tick, service by service in id order, with the job count
/// after it: each running service prints one, the worker counting a job.
pub open spec fn tick_lines(ids: Seq<Seq<char>>, sts: Seq<ServiceStatus>, t: nat, job: nat) -> (Seq<(Seq<char>, Seq<char>)>, nat)
    decreases ids.len(),
{
    if ids.len() == 0 {
        (seq![], job)
    } else {
        let (rest, j) = tick_lines(ids.drop_last(), sts.drop_last(), t, job);
        if sts[ids.len() - 1] is Running {
            let j2: nat = if ids.last() == "worker"@ { j + 1 } else { j };
            (rest.push((ids.last(), tick_line(ids.last(), t, j2))), j2)
        } else {
            (rest, j)
        }
    }
}

proof fn lemma_tick_job_bound(ids: Seq<Seq<char>>, sts: Seq<ServiceStatus>, t: nat, job: nat)
    ensures
        tick_lines(ids, sts, t, job).1 <= job + ids.len(),
        tick_lines(ids, sts, t, job).1 >= job,
    decreases ids.len(),
{
    if ids.len() > 0 {
        lemma_tick_job_bound(ids.drop_last(), sts.drop_last(), t, job);
    }
}

fn line_for(id: &str, t: u64, job: u64) -> (r: String)
    ensures
        r@ == tick_line(id@, t as nat, job as nat),
{
    if crate::command::str_eq(id, "api") {
        if t % 12 == 7 {
            owned("[ERROR] Connection refused to upstream service")
        } else if t % 8 == 3 {
            owned("[WARN] High latency detected: 450ms")
        } else if t % 4 == 0 {
            owned("GET /health 200")
        } else if t % 4 == 1 {
            owned("GET /api/users 200")
        } else if t % 4 == 2 {
            owned("POST /api/data 201")
        } else {
            owned("GET /api/status 200")
        }
    } else if crate::command::str_eq(id, "worker") {
        if t % 10 == 5 {
            let mut s = owned("[ERROR] Job ");
            push_str(&mut s, u64_to_string(job).as_str());
            push_str(&mut s, " failed: timeout after 30s");
            s
        } else if t % 7 == 2 {
            let mut s = owned("[WARN] Queue depth high: ");
            push_str(&mut s, u64_to_string(50 + t % 30).as_str());
            push_str(&mut s, " pending");
            s
        } else {
            concat2("processed job id=", u64_to_string(job).as_str())
        }
    } else if crate::command::str_eq(id, "postgres") || crate::command::str_eq(id, "db") {
        if t % 15 == 10 {
            owned("[WARN] Slow query detected: 1250ms")
        } else if t % 3 == 0 {
            owned("checkpoint complete")
        } else if t % 3 == 1 {
            owned("autovacuum: processing")
        } else {
            owned("connection accepted")
        }
    } else if crate::command::str_eq(id, "redis") || crate::command::str_eq(id, "cache") {
        let mut s = owned("keys: ");
        push_str(&mut s, u64_to_string(1000 + t % 500).as_str());
        push_str(&mut s, ", memory: 2.");
        push_str(&mut s, u64_to_string(t % 10).as_str());
        push_str(&mut s, "MB");
        s
    } else {
        concat2("tick ", u64_to_string(t).as_str())
    }
}

/// The lines of a tick as plain values.
pub open spec fn lines_view(v: Seq<(String, String)>) -> Seq<(Seq<char>, Seq<char>)> {
    v.map_values(|p: (String, String)| (p.0@, p.1@))
}

impl FakeEngine {
    /// One tick: the counter advances and each running service, in id
    /// order, prints its line.
    pub fn tick(&mut self, statuses: &StrMap<ServiceStatus>) -> (r: Vec<(String, String)>)
        requires
            old(self).tick_counter < u64::MAX,
            old(self).job_counter + statuses.keys().len() <= u64::MAX,
        ensures
            final(self).tick_counter == old(self).tick_counter + 1,
            final(self).tick_interval_ms == old(self).tick_interval_ms,
            (lines_view(r@), final(self).job_counter as nat) == tick_lines(
                statuses.keys(),
                statuses.vals(),
                final(self).tick_counter as nat,
                old(self).job_counter as nat,
            ),
    {
        self.tick_counter = self.tick_counter + 1;
        let t = self.tick_counter;
        let n = statuses.len();
        let ghost ks = statuses.keys();
        let ghost vs = statuses.vals();
        let ghost job0 = self.job_counter as nat;
        let mut out: Vec<(String, String)> = Vec::new();
        let mut i: usize = 0;
        while i < n
            invariant
                n == ks.len(),
                n == vs.len(),
                ks == statuses.keys(),
                vs == statuses.vals(),
                i <= n,
                t == self.tick_counter,
                self.tick_interval_ms == old(self).tick_interval_ms,
                job0 + n <= u64::MAX,
                (lines_view(out@), self.job_counter as nat) == tick_lines(ks.take(i as int), vs.take(i as int), t as nat, job0),
            decreases n - i,
        {
            proof {
                assert(ks.take(i + 1).drop_last() =~= ks.take(i as int));
                assert(vs.take(i + 1).drop_last() =~= vs.take(i as int));
                assert(vs.take(i + 1)[i as int] == vs[i as int]);
                assert(ks.take(i + 1).last() == ks[i as int]);
                lemma_tick_job_bound(ks.take(i as int), vs.take(i as int), t as nat, job0);
            }
            let id = statuses.key_at(i);
            match statuses.value_at(i) {
                ServiceStatus::Running => {
                    if crate::command::str_eq(id.as_str(), "worker") {
                        self.job_counter = self.job_counter + 1;
                    }
                    let line = line_for(id.as_str(), t, self.job_counter);
                    let ghost before = out@;
                    out.push((id.clone(), line));
                    proof {
                        assert(lines_view(out@) =~= lines_view(before).push((id@, line@)));
                    }
                },
                _ => {},
            }
            i = i + 1;
        }
        proof {
            assert(ks.take(n as int) =~= ks);
            assert(vs.take(n as int) =~= vs);
        }
        out
    }
}

/// The runtime event a step reports; a pause reports none.
pub open spec fn event_of_step(step: FakeStep) -> Option<RuntimeEvent> {
    match step {
        FakeStep::Status { id, status } => Some(RuntimeEvent::StatusChanged { id, status }),
        FakeStep::Log { id, text } => Some(RuntimeEvent::LogLine { id, stream: LogStream::System, text }),
        FakeStep::ClearLogs { id } => Some(RuntimeEvent::ClearLogs { id }),
        FakeStep::Sleep { .. } => None,
    }
}

/// The runtime event a step reports; a pause reports none.
pub fn step_event(step: FakeStep) -> (r: Option<RuntimeEvent>)
    ensures
        r == event_of_step(step),
        match step {
            FakeStep::Status { id, status } => r == Some(RuntimeEvent::StatusChanged { id, status }),
            FakeStep::Log { id, text } => r == Some(RuntimeEvent::LogLine { id, stream: LogStream::System, text }),
            FakeStep::ClearLogs { id } => r == Some(RuntimeEvent::ClearLogs { id }),
            FakeStep::Sleep { .. } => r is None,
        },
{
    match step {
        FakeStep::Status { id, status } => Some(RuntimeEvent::StatusChanged { id, status }),
        FakeStep::Log { id, text } => Some(RuntimeEvent::LogLine { id, stream: LogStream::System, text }),
        FakeStep::ClearLogs { id } => Some(RuntimeEvent::ClearLogs { id }),
        FakeStep::Sleep { .. } => None,
    }
}

/// Toggling a service twice leaves it on exactly when it was on before.
pub proof fn law_toggle_twice(id: String, s: Option<ServiceStatus>)
    ensures
        ({
            let once = fake_answer(EngineCommand::Toggle { id }, s).1;
            let twice = fake_answer(EngineCommand::Toggle { id }, once).1;
            &&& once is Some
            &&& twice is Some
            &&& is_on(twice->0) == (s matches Some(x) && is_on(x))
        }),
{
}

proof fn lemma_running_steps_at(w: Seq<Seq<char>>, i: int)
    requires
        0 <= i < w.len(),
    ensures
        running_steps(w).len() == 2 * w.len(),
        running_steps(w)[2 * i] == StepView::Status(w[i], ServiceStatus::Running),
        running_steps(w)[2 * i + 1] == StepView::Log(w[i], w[i] + " started"@),
    decreases w.len(),
{
    lemma_running_steps_len(w.drop_last());
    if i < w.len() - 1 {
        lemma_running_steps_at(w.drop_last(), i);
        assert(w.drop_last()[i] == w[i]);
    }
}

proof fn lemma_running_steps_len(w: Seq<Seq<char>>)
    ensures
        running_steps(w).len() == 2 * w.len(),
    decreases w.len(),
{
    if w.len() > 0 {
        lemma_running_steps_len(w.drop_last());
    }
}

/// At start-up every service that should run is reported starting before
/// it is reported running, followed by the line that it started; and a
/// shutdown request is answered with nothing more and ends the engine.
pub proof fn law_fake_engine_order(w: Seq<Seq<char>>, i: int, current: Option<ServiceStatus>)
    requires
        0 <= i < w.len(),
    ensures
        startup_steps(w)[i] == StepView::Status(w[i], ServiceStatus::Starting),
        startup_steps(w)[w.len() + 1 + 2 * i] == StepView::Status(w[i], ServiceStatus::Running),
        startup_steps(w)[w.len() + 2 + 2 * i] == StepView::Log(w[i], w[i] + " started"@),
        i < w.len() + 1 + 2 * i,
        startup_steps(w).len() == 3 * w.len() + 1,
        fake_answer(EngineCommand::Shutdown, current).0.len() == 0,
        fake_answer(EngineCommand::Shutdown, current).1 is None,
{
    lemma_running_steps_at(w, i);
    let head = w.map_values(|id: Seq<char>| StepView::Status(id, ServiceStatus::Starting)) + seq![StepView::Sleep(250)];
    assert(head.len() == w.len() + 1);
    assert(startup_steps(w) == head + running_steps(w));
    assert(startup_steps(w)[w.len() + 1 + 2 * i] == running_steps(w)[2 * i]);
    assert(startup_steps(w)[w.len() + 2 + 2 * i] == running_steps(w)[2 * i + 1]);
}

/// What the demo engine hands on, in order: an event in its envelope, or a
/// pause before the next one.
#[derive(Debug)]
pub enum Outgoing {
    Send(EventEnvelope),
    Pause(u64),
}

/// The envelopes among what is handed on, in order.
pub open spec fn sends(o: Seq<Outgoing>) -> Seq<EventEnvelope>
    decreases o.len(),
{
    if o.len() == 0 {
        seq![]
    } else {
        sends(o.drop_last()) + match o.last() {
            Outgoing::Send(e) => seq![e],
            Outgoing::Pause(_) => seq![],
        }
    }
}

/// Envelopes numbered `first`, `first + 1`, ... with no gap or repeat.
pub open spec fn numbered_from(es: Seq<EventEnvelope>, first: nat) -> bool {
    forall|j: int| 0 <= j < es.len() ==> (#[trigger] es[j]).id == first + j
}

/// How many of the steps send an event (all but the pauses).
pub open spec fn sent_count(steps: Seq<FakeStep>) -> nat
    decreases steps.len(),
{
    if steps.len() == 0 {
        0
    } else {
        sent_count(steps.drop_last()) + if steps.last() is Sleep {
            0nat
        } else {
            1nat
        }
    }
}

/// Whether `o` hands on one step whose envelope, if it has one, gets `id`:
/// a pause as a pause, any other step as its event.
pub open spec fn step_out(step: FakeStep, id: nat, o: Outgoing) -> bool {
    match step {
        FakeStep::Sleep { ms } => o == Outgoing::Pause(ms),
        _ => o matches Outgoing::Send(e) && e.id == id && Some(e.event) == event_of_step(step),
    }
}

/// Whether `o` hands on the steps numbered from `first`: each pause as a
/// pause, each other step as its event in an envelope with the next id.
pub open spec fn numbered_steps(steps: Seq<FakeStep>, first: nat, o: Seq<Outgoing>) -> bool {
    &&& o.len() == steps.len()
    &&& forall|i: int|
        0 <= i < steps.len() ==> step_out(#[trigger] steps[i], first + sent_count(steps.take(i)), o[i])
}

/// The ids the demo engine gives its envelopes: the next one to hand out.
#[derive(Debug)]
pub struct EnvelopeCounter {
    pub next_id: u64,
}

impl EnvelopeCounter {
    /// A counter whose first envelope gets id 1.
    pub fn new() -> (r: Self)
        ensures
            r.next_id == 1,
    {
        EnvelopeCounter { next_id: 1 }
    }

    /// Puts an event in the next envelope, stamped with the current time.
    pub fn emit(&mut self, event: RuntimeEvent) -> (r: EventEnvelope)
        requires
            old(self).next_id < u64::MAX,
        ensures
            r.id == old(self).next_id,
            r.event == event,
            final(self).next_id == old(self).next_id + 1,
    {
        let at = crate::clock::now();
        let r = EventEnvelope { id: self.next_id, at, event };
        self.next_id = self.next_id + 1;
        r
    }

    /// Hands on one step: a pause as a pause, any other step as its event
    /// in the next envelope.
    pub fn send_step(&mut self, step: FakeStep) -> (o: Outgoing)
        requires
            old(self).next_id < u64::MAX,
        ensures
            step_out(step, old(self).next_id as nat, o),
            final(self).next_id == old(self).next_id + if step is Sleep {
                0int
            } else {
                1int
            },
    {
        match step {
            FakeStep::Sleep { ms } => Outgoing::Pause(ms),
            FakeStep::Status { id, status } => Outgoing::Send(self.emit(RuntimeEvent::StatusChanged { id, status })),
            FakeStep::Log { id, text } => Outgoing::Send(
                self.emit(RuntimeEvent::LogLine { id, stream: LogStream::System, text }),
            ),
            FakeStep::ClearLogs { id } => Outgoing::Send(self.emit(RuntimeEvent::ClearLogs { id })),
        }
    }

    /// Hands on the steps in order: a pause as a pause, each other step as
    /// its event in the next envelope.
    pub fn send_steps(&mut self, steps: Vec<FakeStep>) -> (r: Vec<Outgoing>)
        requires
            old(self).next_id + steps.len() < u64::MAX,
        ensures
            numbered_steps(steps@, old(self).next_id as nat, r@),
            numbered_from(sends(r@), old(self).next_id as nat),
            sends(r@).len() == sent_count(steps@),
            final(self).next_id == old(self).next_id + sent_count(steps@),
    {
        let ghost orig = steps@;
        let ghost first = self.next_id as nat;
        let n = steps.len();
        let mut rest = steps;
        let mut out: Vec<Outgoing> = Vec::new();
        let mut i: usize = 0;
        while rest.len() > 0
            invariant
                i + rest@.len() == orig.len(),
                orig.len() == n,
                rest@ == orig.skip(i as int),
                first + orig.len() < u64::MAX,
                self.next_id == first + sent_count(orig.take(i as int)),
                sent_count(orig.take(i as int)) <= i,
                out@.len() == i,
                forall|k: int|
                    0 <= k < i ==> step_out(#[trigger] orig[k], first + sent_count(orig.take(k)), out@[k]),
                numbered_from(sends(out@), first),
                sends(out@).len() == sent_count(orig.take(i as int)),
            decreases rest@.len(),
        {
            let ghost before = out@;
            proof {
                assert(orig.take(i + 1).drop_last() =~= orig.take(i as int));
                assert(orig.take(i + 1).last() == orig[i as int]);
                assert(rest@[0] == orig[i as int]);
            }
            let step = rest.remove(0);
            proof {
                assert(rest@ =~= orig.skip(i + 1));
            }
            let o = self.send_step(step);
            out.push(o);
            proof {
                assert(out@.drop_last() =~= before);
                assert(out@.last() == o);
                assert forall|k: int| 0 <= k < i + 1 implies step_out(
                    #[trigger] orig[k],
                    first + sent_count(orig.take(k)),
                    out@[k],
                ) by {
                    if k < i {
                        assert(out@[k] == before[k]);
                    }
                }
            }
            i = i + 1;
        }
        proof {
            assert(orig.take(i as int) =~= orig);
        }
        out
    }
}

/// The opening of the demo engine over a graph: the topology in envelope 1,
/// then the start-up steps numbered on from 2, with their pauses; the
/// counter for what follows, and the statuses start-up leaves.
pub fn open_demo(graph: RuntimeGraph) -> (r: (Vec<Outgoing>, EnvelopeCounter, StrMap<ServiceStatus>))
    requires
        graph.nodes.keys().len() < 0x5000_0000_0000_0000,
    ensures
        sends(r.0@).len() >= 1,
        sends(r.0@)[0].event == (RuntimeEvent::TopologyLoaded { graph }),
        numbered_from(sends(r.0@), 1),
        r.1.next_id == sends(r.0@).len() + 1,
        r.0@[0] == Outgoing::Send(sends(r.0@)[0]),
        exists|steps: Seq<FakeStep>|
            steps_view(steps) == startup_steps(wanted(graph.nodes.keys(), graph.nodes.vals()))
                && #[trigger] numbered_steps(steps, 2, r.0@.skip(1)),
        r.2@ == graph.nodes@.map_values(|n: ServiceNode| startup_status(n)),
{
    let (steps, statuses) = fake_startup(&graph.nodes);
    let ghost sv = steps@;
    proof {
        lemma_wanted_len(graph.nodes.keys(), graph.nodes.vals());
        lemma_startup_len(wanted(graph.nodes.keys(), graph.nodes.vals()));
        assert(steps@.len() == steps_view(steps@).len());
    }
    let mut counter = EnvelopeCounter::new();
    let first = counter.emit(RuntimeEvent::TopologyLoaded { graph });
    let rest = counter.send_steps(steps);
    let mut out: Vec<Outgoing> = Vec::new();
    out.push(Outgoing::Send(first));
    let ghost rv = rest@;
    let mut rest = rest;
    out.append(&mut rest);
    proof {
        assert(out@ =~= seq![Outgoing::Send(first)] + rv);
        assert(out@.skip(1) =~= rv);
        lemma_sends_prepend(first, rv);
        assert(numbered_steps(sv, 2, out@.skip(1)));
    }
    (out, counter, statuses)
}

proof fn lemma_sends_prepend(e: EventEnvelope, o: Seq<Outgoing>)
    ensures
        sends(seq![Outgoing::Send(e)] + o) == seq![e] + sends(o),
    decreases o.len(),
{
    let p = seq![Outgoing::Send(e)] + o;
    if o.len() == 0 {
        assert(p =~= seq![Outgoing::Send(e)]);
        assert(p.drop_last() =~= Seq::<Outgoing>::empty());
        assert(sends(p.drop_last()) =~= Seq::<EventEnvelope>::empty());
        assert(sends(p) =~= seq![e]);
        assert(seq![e] + sends(o) =~= seq![e]);
    } else {
        lemma_sends_prepend(e, o.drop_last());
        assert(p.drop_last() =~= seq![Outgoing::Send(e)] + o.drop_last());
        assert(p.last() == o.last());
        assert(sends(p) =~= seq![e] + sends(o));
    }
}

proof fn lemma_wanted_len(ids: Seq<Seq<char>>, nodes: Seq<ServiceNode>)
    ensures
        wanted(ids, nodes).len() <= ids.len(),
    decreases ids.len(),
{
    if ids.len() > 0 {
        lemma_wanted_len(ids.drop_last(), nodes.drop_last());
    }
}

proof fn lemma_startup_len(w: Seq<Seq<char>>)
    ensures
        startup_steps(w).len() == 3 * w.len() + 1,
{
    lemma_running_steps_len(w);
}

} // verus!
