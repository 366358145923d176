//! Handing the key agent of the user on to the containers.
use vstd::prelude::*;

use crate::docker;
use crate::number;
use crate::paths;
use crate::text;
use crate::text::{is_listed, push_text};
use crate::ui;
use crate::ui::{Level, Message};

verus! {

/// An address with a port.
pub open spec fn socket(ip: Seq<char>, port: u16) -> Seq<char> {
    ip + ":"@ + number::decimal(port as nat)
}

/// Writes an address with a port.
pub fn socket_address(ip: &str, port: u16) -> (r: String)
    ensures
        r@ == socket(ip@, port),
{
    let mut r = text::owned(ip);
    r.append(":");
    r.append(number::to_decimal(port as u64).as_str());
    r
}

/// What to do about the forwarding.
#[derive(Debug, Clone, PartialEq, Eq)]
pub enum Forwarding {
    /// It runs already.
    Open,
    /// It is started on this address, for this socket of the agent.
    Start { address: String, socket: String },
    /// There is no agent.
    NoAgent,
}

/// Decides about the forwarding, by whether its port is open and where the agent of the user
/// listens, and what the user is told.
pub fn ensure_forwarding(
    port_open: bool,
    bind_ip: &str,
    port: u16,
    agent_socket: Option<&str>,
) -> (r: (Forwarding, Vec<Message>))
    ensures
        port_open ==> r.0 is Open && r.1@.len() == 0,
        !port_open ==> (match agent_socket {
            Some(s) => {
                &&& r.0 matches Forwarding::Start { address, socket: t }
                &&& address@ == socket(bind_ip@, port) && t@ == s@
                &&& ui::said(r.1@) == seq![
                    (
                        Level::Info,
                        "Starting SSH agent forwarding socket on "@ + socket(bind_ip@, port),
                    ),
                ]
            },
            None => r.0 is NoAgent && ui::said(r.1@) == seq![
                (
                    Level::Warning,
                    "SSH agent seems to not be running ($SSH_AUTH_SOCK is empty)."@,
                ),
            ],
        }),
{
    let mut out: Vec<Message> = Vec::new();
    assert(ui::said(out@) =~= Seq::empty());
    if port_open {
        return (Forwarding::Open, out);
    }
    match agent_socket {
        Some(s) => {
            let address = socket_address(bind_ip, port);
            let mut m = text::owned("Starting SSH agent forwarding socket on ");
            m.append(address.as_str());
            ui::say(&mut out, Level::Info, m);
            assert(ui::said(out@) =~= seq![
                (
                    Level::Info,
                    "Starting SSH agent forwarding socket on "@ + socket(bind_ip@, port),
                ),
            ]);
            (Forwarding::Start { address, socket: text::owned(s) }, out)
        },
        None => {
            ui::say(
                &mut out,
                Level::Warning,
                text::owned("SSH agent seems to not be running ($SSH_AUTH_SOCK is empty)."),
            );
            assert(ui::said(out@) =~= seq![
                (
                    Level::Warning,
                    "SSH agent seems to not be running ($SSH_AUTH_SOCK is empty)."@,
                ),
            ]);
            (Forwarding::NoAgent, out)
        },
    }
}

/// The directories that the labels of a container name.
#[derive(Debug, Clone, PartialEq, Eq)]
pub struct ContainerDirs {
    /// By the label of the tool.
    pub plugin: Option<String>,
    /// By the label of Docker Compose.
    pub compose: Option<String>,
}

/// The directory of a container's project: the label of the tool counts first.
pub open spec fn dir_of(c: ContainerDirs) -> Option<Seq<char>> {
    match c.plugin {
        Some(d) => Some(d@),
        None => paths::opt(c.compose),
    }
}

/// Whether a directory holds a project that can be restarted.
pub open spec fn restartable(dir: Seq<char>, existing: Seq<Seq<char>>) -> bool {
    &&& dir.len() > 0
    &&& existing.contains(dir)
    &&& existing.contains(paths::below(dir, "compose.yml"@)) || existing.contains(
        paths::below(dir, "docker-compose.yml"@),
    )
}

/// The projects of some containers that can be restarted, each once.
pub open spec fn projects_of(all: Seq<ContainerDirs>, existing: Seq<Seq<char>>) -> Seq<Seq<char>>
    decreases all.len(),
{
    if all.len() == 0 {
        Seq::empty()
    } else {
        let rest = projects_of(all.drop_last(), existing);
        match dir_of(all.last()) {
            Some(d) => if !rest.contains(d) && restartable(d, existing) {
                rest.push(d)
            } else {
                rest
            },
            None => rest,
        }
    }
}

/// The projects whose containers have to be restarted to reach the agent, each once. `existing`
/// lists the paths that exist.
pub fn restart_php_containers(containers: &Vec<ContainerDirs>, existing: &Vec<String>) -> (r: Vec<
    String,
>)
    ensures
        text::texts(r@) == projects_of(containers@, text::texts(existing@)),
{
    let ghost there = text::texts(existing@);
    let mut r = text::no_texts();
    let mut i: usize = 0;
    assert(containers@.take(0) =~= Seq::empty());
    while i < containers.len()
        invariant
            i <= containers@.len(),
            there == text::texts(existing@),
            text::texts(r@) == projects_of(containers@.take(i as int), there),
        decreases containers@.len() - i,
    {
        assert(containers@.take(i + 1).drop_last() =~= containers@.take(i as int));
        assert(containers@.take(i + 1).last() == containers@[i as int]);
        let dir = match &containers[i].plugin {
            Some(d) => Some(text::owned(d.as_str())),
            None => match &containers[i].compose {
                Some(d) => Some(text::owned(d.as_str())),
                None => None,
            },
        };
        if let Some(d) = dir {
            let new = paths::join(d.as_str(), "compose.yml");
            let old_name = paths::join(d.as_str(), "docker-compose.yml");
            if !is_listed(&r, d.as_str()) && !d.as_str().is_empty() && is_listed(
                existing,
                d.as_str(),
            ) && (is_listed(existing, new.as_str()) || is_listed(existing, old_name.as_str())) {
                push_text(&mut r, d.as_str());
            }
        }
        i += 1;
    }
    assert(containers@.take(i as int) =~= containers@);
    r
}

/// The calls of `docker` that restart a project: its containers go down and up again.
pub fn restart_calls(project: &str) -> (r: (Vec<String>, Vec<String>))
    ensures
        text::texts(r.0@) == docker::compose(project@, seq!["down"@]),
        text::texts(r.1@) == docker::compose(project@, seq!["up"@, "-d"@]),
{
    let mut down = text::no_texts();
    push_text(&mut down, "down");
    let mut up = text::no_texts();
    push_text(&mut up, "up");
    push_text(&mut up, "-d");
    assert(text::texts(down@) =~= seq!["down"@]);
    assert(text::texts(up@) =~= seq!["up"@, "-d"@]);
    (docker::execute_compose(project, &down), docker::execute_compose(project, &up))
}

/// Every project is restarted once, and only where it can be.
pub proof fn projects_are_restarted_once(all: Seq<ContainerDirs>, existing: Seq<Seq<char>>)
    ensures
        projects_of(all, existing).no_duplicates(),
        forall|i: int|
            0 <= i < projects_of(all, existing).len() ==> restartable(
                #[trigger] projects_of(all, existing)[i],
                existing,
            ),
    decreases all.len(),
{
    if all.len() > 0 {
        projects_are_restarted_once(all.drop_last(), existing);
    }
}

} // verus!
