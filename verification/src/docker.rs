//! How Docker units and services are brought up: through the shell when the
//! start line is itself a docker command, otherwise as a container named
//! after the unit, whose image and arguments come from the start line and
//! whose environment comes from the unit's variables.
use vstd::prelude::*;

use crate::config::ServiceConfig;
use crate::palette::opt_chars;
use crate::strmap::StrMap;
use crate::text::{
    chars_of, clone_opt_string, clone_strings, concat2, decimal, owned, push_str, seq_starts_with, str_starts_with,
    string_of, string_views, u64_to_string, views_of, words, split_words,
};
use crate::unit::{StopBehavior, Unit};

verus! {

/// The container name for a unit or service id.
pub open spec fn container_name_text(id: Seq<char>) -> Seq<char> {
    "orkesy-"@ + id
}

/// `key=value` for each variable, in key order.
pub open spec fn env_lines(keys: Seq<Seq<char>>, vals: Seq<String>) -> Seq<Seq<char>> {
    Seq::new(keys.len(), |i: int| keys[i] + "="@ + vals[i]@)
}

/// The image: the first word, or `busybox` when there is none.
pub open spec fn image_of(ws: Seq<Seq<char>>) -> Seq<char> {
    if ws.len() > 0 {
        ws[0]
    } else {
        "busybox"@
    }
}

/// The container's arguments: the words after the first, if there are any.
pub open spec fn args_of(ws: Seq<Seq<char>>) -> Option<Seq<Seq<char>>> {
    if ws.len() > 1 {
        Some(ws.drop_first())
    } else {
        None
    }
}

/// A container to create and start.
#[derive(Debug)]
pub struct ContainerSpec {
    pub name: String,
    pub image: String,
    pub cmd: Option<Vec<String>>,
    pub env: Vec<String>,
}

/// A container spec as plain values.
pub struct ContainerView {
    pub name: Seq<char>,
    pub image: Seq<char>,
    pub cmd: Option<Seq<Seq<char>>>,
    pub env: Seq<Seq<char>>,
}

impl View for ContainerSpec {
    type V = ContainerView;

    open spec fn view(&self) -> ContainerView {
        ContainerView {
            name: self.name@,
            image: self.image@,
            cmd: match self.cmd {
                Some(c) => Some(string_views(c@)),
                None => None,
            },
            env: string_views(self.env@),
        }
    }
}

/// The container for `id` running the command `ws` with the variables.
pub open spec fn container_for(id: Seq<char>, ws: Seq<Seq<char>>, env: StrMap<String>) -> ContainerView {
    ContainerView {
        name: container_name_text(id),
        image: image_of(ws),
        cmd: args_of(ws),
        env: env_lines(env.keys(), env.vals()),
    }
}

/// How a Docker unit is brought up.
#[derive(Debug)]
pub enum ContainerLaunch {
    /// The start line is a docker command: run it through the shell, then
    /// follow the unit's logs command when it has one.
    Shell { command: String, logs: Option<String> },
    /// Create and start a container.
    Create(ContainerSpec),
}

/// The container name for an id.
pub fn container_name(id: &str) -> (r: String)
    ensures
        r@ == container_name_text(id@),
{
    concat2("orkesy-", id)
}

/// `key=value` for each of the variables, in key order.
fn env_list(env: &StrMap<String>) -> (r: Vec<String>)
    ensures
        string_views(r@) == env_lines(env.keys(), env.vals()),
{
    let n = env.len();
    let mut out: Vec<String> = Vec::new();
    let mut i: usize = 0;
    while i < n
        invariant
            n == env.keys().len(),
            n == env.vals().len(),
            i <= n,
            string_views(out@) == env_lines(env.keys(), env.vals()).take(i as int),
        decreases n - i,
    {
        let mut line = env.key_at(i).clone();
        push_str(&mut line, "=");
        push_str(&mut line, env.value_at(i).as_str());
        let ghost before = out@;
        let ghost lv = line@;
        out.push(line);
        proof {
            assert(lv == env_lines(env.keys(), env.vals())[i as int]);
            assert(string_views(out@) =~= string_views(before).push(lv));
            assert(string_views(out@) =~= env_lines(env.keys(), env.vals()).take(i + 1));
        }
        i = i + 1;
    }
    proof {
        assert(env_lines(env.keys(), env.vals()).take(n as int) =~= env_lines(env.keys(), env.vals()));
    }
    out
}

/// The container for `id` running the words of `ws` with the variables.
fn container_from_words(id: &str, ws: Vec<String>, env: &StrMap<String>) -> (r: ContainerSpec)
    ensures
        r@ == container_for(id@, string_views(ws@), *env),
{
    let ghost all = string_views(ws@);
    let image = if ws.len() > 0 { ws[0].clone() } else { owned("busybox") };
    let cmd = if ws.len() > 1 {
        let mut rest = ws;
        let _ = rest.remove(0);
        proof {
            assert(string_views(rest@) =~= all.drop_first());
        }
        Some(rest)
    } else {
        None
    };
    ContainerSpec { name: container_name(id), image, cmd, env: env_list(env) }
}

fn word_strings(s: &str) -> (r: Vec<String>)
    ensures
        string_views(r@) == words(s@),
{
    let cs = chars_of(s);
    let ws = split_words(cs.as_slice());
    let mut out: Vec<String> = Vec::new();
    let mut i: usize = 0;
    while i < ws.len()
        invariant
            i <= ws@.len(),
            views_of(ws@) == words(s@),
            string_views(out@) == views_of(ws@).take(i as int),
        decreases ws@.len() - i,
    {
        let w = string_of(ws[i].as_slice());
        let ghost before = out@;
        let ghost wv = w@;
        out.push(w);
        proof {
            assert(string_views(out@) =~= string_views(before).push(wv));
            assert(string_views(out@) =~= views_of(ws@).take(i + 1));
        }
        i = i + 1;
    }
    proof {
        assert(views_of(ws@).take(i as int) =~= views_of(ws@));
    }
    out
}

/// How the Docker adapter brings up `unit`: a start line beginning with
/// `docker ` runs through the shell; any other names an image and its
/// arguments, separated by whitespace.
pub fn adapter_launch(unit: &Unit) -> (r: ContainerLaunch)
    ensures
        seq_starts_with(unit.start@, "docker "@) ==> (r matches ContainerLaunch::Shell { command, logs }
            && command@ == unit.start@ && opt_chars(logs) == opt_chars(unit.logs)),
        !seq_starts_with(unit.start@, "docker "@) ==> (r matches ContainerLaunch::Create(spec)
            && spec@ == container_for(unit.id@, words(unit.start@), unit.env)),
{
    if str_starts_with(unit.start.as_str(), "docker ") {
        ContainerLaunch::Shell { command: unit.start.clone(), logs: clone_opt_string(&unit.logs) }
    } else {
        let ws = word_strings(unit.start.as_str());
        ContainerLaunch::Create(container_from_words(unit.id.as_str(), ws, &unit.env))
    }
}

/// The container the Docker engine creates for a service: the first word of
/// its command is the image, the rest its arguments.
pub fn engine_container(id: &str, config: &ServiceConfig) -> (r: ContainerSpec)
    ensures
        r@ == container_for(id@, string_views(config.command@), config.env),
{
    let ws = clone_strings(&config.command);
    container_from_words(id, ws, &config.env)
}

/// The exit code as the failure message shows it.
pub open spec fn code_debug(code: Option<i32>) -> Seq<char> {
    match code {
        Some(c) => "Some("@ + (if c < 0 { "-"@ + decimal((-c) as nat) } else { decimal(c as nat) }) + ")"@,
        None => "None"@,
    }
}

/// Why a docker start line failed: its exit code, if any.
pub fn shell_failure(code: Option<i32>) -> (r: String)
    ensures
        r@ == "docker command failed: "@ + code_debug(code),
{
    let mut s = owned("docker command failed: ");
    push_str(&mut s, code_text(code).as_str());
    s
}


/// How the Docker adapter halts a unit.
#[derive(Debug)]
pub enum ContainerHalt {
    /// Run the unit's stop command through the shell.
    Shell(String),
    /// Stop and remove its container through the Docker API.
    Api,
}

/// A unit with a stop command is halted through the shell; any other unit,
/// or an unknown one, through the Docker API.
pub fn adapter_halt(unit: Option<&Unit>) -> (r: ContainerHalt)
    ensures
        match unit {
            Some(u) => match u.stop {
                StopBehavior::Command(c) => r matches ContainerHalt::Shell(cmd) && cmd@ == c@,
                _ => r is Api,
            },
            None => r is Api,
        },
{
    match unit {
        Some(u) => match &u.stop {
            StopBehavior::Command(c) => ContainerHalt::Shell(c.clone()),
            _ => ContainerHalt::Api,
        },
        None => ContainerHalt::Api,
    }
}

/// Why a stop command failed: its exit code, if any.
pub fn stop_failure(code: Option<i32>) -> (r: String)
    ensures
        r@ == "stop command failed: "@ + code_debug(code),
{
    let mut s = owned("stop command failed: ");
    push_str(&mut s, code_text(code).as_str());
    s
}

fn code_text(code: Option<i32>) -> (r: String)
    ensures
        r@ == code_debug(code),
{
    match code {
        Some(c) => {
            let mut s = owned("Some(");
            if c < 0 {
                push_str(&mut s, "-");
                let m: u64 = (-(c as i64)) as u64;
                push_str(&mut s, u64_to_string(m).as_str());
            } else {
                push_str(&mut s, u64_to_string(c as u64).as_str());
            }
            push_str(&mut s, ")");
            s
        },
        None => owned("None"),
    }
}

} // verus!
