//! What is cleaned up when a client's connection ends.

use crate::text::{opt_clone, opt_view, str_eq};
use crate::text_set::TextSet;
use vstd::prelude::*;

verus! {

/// How long cleanup waits for a busy agent, in seconds.
pub const AGENT_LOCK_WAIT_SECS: u64 = 2;

/// How old a mark of a server reload may be to count, in seconds.
pub const RELOAD_MARKER_MAX_AGE_SECS: u64 = 30;

/// How a connection ended.
#[derive(Debug, Clone, Copy, PartialEq, Eq, Structural)]
pub enum DisconnectDisposition {
    Closed,
    Crashed,
    Reloading,
    Detached,
}

pub open spec fn disposition_of(
    processing: bool,
    detached: bool,
    reload_active: bool,
) -> DisconnectDisposition {
    if detached {
        DisconnectDisposition::Detached
    } else if !processing {
        DisconnectDisposition::Closed
    } else if reload_active {
        DisconnectDisposition::Reloading
    } else {
        DisconnectDisposition::Crashed
    }
}

/// How a connection ended. A client that asked to detach detached, busy or not;
/// one that left while its session was busy crashed, unless the server is
/// reloading.
pub fn disconnect_disposition(
    disconnected_while_processing: bool,
    client_detached: bool,
    reload_active: bool,
) -> (r: DisconnectDisposition)
    ensures
        r == disposition_of(disconnected_while_processing, client_detached, reload_active),
{
    if client_detached {
        return DisconnectDisposition::Detached;
    }
    if !disconnected_while_processing {
        return DisconnectDisposition::Closed;
    }
    if reload_active {
        DisconnectDisposition::Reloading
    } else {
        DisconnectDisposition::Crashed
    }
}

/// A client's connection.
#[derive(Debug)]
pub struct ClientConnection {
    pub id: String,
    pub session_id: String,
    /// The client asked to detach, and the connection is about to go.
    pub is_detaching: bool,
}

/// A session's membership in a swarm.
#[derive(Debug)]
pub struct SwarmMembership {
    pub session_id: String,
    pub swarm_id: Option<String>,
    pub friendly_name: Option<String>,
}

/// What the server holds for its clients and sessions.
#[derive(Debug)]
pub struct LiveState {
    pub connections: Vec<ClientConnection>,
    pub debug_clients: TextSet,
    /// Sessions with a live agent.
    pub sessions: TextSet,
    pub members: Vec<SwarmMembership>,
    /// Sessions with channel subscriptions.
    pub subscriptions: TextSet,
    /// Sessions that touched files.
    pub file_touches: TextSet,
    /// Sessions with a shutdown signal.
    pub shutdown_signals: TextSet,
    /// Sessions with a queue of interrupts.
    pub interrupt_queues: TextSet,
}

/// The end of a connection.
#[derive(Debug)]
pub struct Disconnect<'a> {
    pub session_id: &'a str,
    pub connection_id: &'a str,
    pub debug_id: &'a str,
    pub client_is_processing: bool,
    /// The session's task has not finished.
    pub task_unfinished: bool,
    pub detached: bool,
    /// The server is reloading.
    pub reload_active: bool,
}

/// What becomes of the agent of a session that ends.
#[derive(Debug)]
pub struct AgentEnd {
    /// Why it crashed; `None` when it was closed.
    pub crash_reason: Option<&'static str>,
    pub event: &'static str,
    pub cause: &'static str,
}

/// The end of a session, for the caller to carry out.
#[derive(Debug)]
pub struct Teardown {
    /// Set when the session had a live agent.
    pub agent: Option<AgentEnd>,
    pub member_status: &'static str,
    pub member_detail: &'static str,
    /// The swarm that the session leaves, and the name it had there.
    pub left_swarm: Option<(String, Option<String>)>,
}

/// What the end of a connection leads to.
#[derive(Debug)]
pub enum CleanupPlan {
    /// The session lives on for a later attach.
    KeepDetached,
    /// Another client is attached to the session.
    KeepShared,
    EndSession(Teardown),
}

/// The client still owns the session: it is attached, and stays so.
pub open spec fn owns(c: ClientConnection, session_id: Seq<char>) -> bool {
    c.session_id@ == session_id && !c.is_detaching
}

/// A client still owns the session.
pub open spec fn has_successor(cs: Seq<ClientConnection>, session_id: Seq<char>) -> bool {
    exists|i: int| 0 <= i < cs.len() && owns(#[trigger] cs[i], session_id)
}

/// Whether a client still owns the session.
pub fn session_has_live_successor(connections: &Vec<ClientConnection>, session_id: &str) -> (r: bool)
    ensures
        r == has_successor(connections@, session_id@),
{
    let mut i: usize = 0;
    while i < connections.len()
        invariant
            i <= connections@.len(),
            forall|j: int| 0 <= j < i ==> !owns(#[trigger] connections@[j], session_id@),
        decreases connections@.len() - i,
    {
        if str_eq(connections[i].session_id.as_str(), session_id) && !connections[i].is_detaching {
            return true;
        }
        i = i + 1;
    }
    false
}

/// The connections without the one that ended.
pub open spec fn without_connection(cs: Seq<ClientConnection>, id: Seq<char>) -> Seq<ClientConnection> {
    cs.filter(|c: ClientConnection| c.id@ != id)
}

fn drop_connection(connections: &mut Vec<ClientConnection>, id: &str)
    ensures
        final(connections)@ == without_connection(old(connections)@, id@),
{
    let mut rest: Vec<ClientConnection> = Vec::new();
    std::mem::swap(&mut rest, connections);
    let ghost all = rest@;
    let ghost f = |c: ClientConnection| c.id@ != id@;
    let mut out: Vec<ClientConnection> = Vec::new();
    proof {
        reveal(Seq::filter);
        assert(all.take(0) =~= Seq::<ClientConnection>::empty());
    }
    for c in it: rest
        invariant
            it.seq() == all,
            f == (|c: ClientConnection| c.id@ != id@),
            out@ == all.take(it.index() as int).filter(f),
    {
        proof {
            reveal(Seq::filter);
            let n = it.index() as int;
            assert(all.take(n + 1).drop_last() =~= all.take(n));
            assert(all.take(n + 1).last() == c);
        }
        if !str_eq(c.id.as_str(), id) {
            out.push(c);
        }
    }
    assert(all.take(all.len() as int) =~= all);
    *connections = out;
}

/// The memberships without that of the session.
pub open spec fn without_member(ms: Seq<SwarmMembership>, session_id: Seq<char>) -> Seq<SwarmMembership> {
    ms.filter(|m: SwarmMembership| m.session_id@ != session_id)
}

/// The swarm that the session is in, and its name there, from the last of its
/// memberships.
pub open spec fn swarm_of(ms: Seq<SwarmMembership>, session_id: Seq<char>) -> Option<
    (Seq<char>, Option<Seq<char>>),
>
    decreases ms.len(),
{
    if ms.len() == 0 {
        None
    } else if ms.last().session_id@ == session_id {
        match ms.last().swarm_id {
            Some(s) => Some((s@, opt_view(ms.last().friendly_name))),
            None => None,
        }
    } else {
        swarm_of(ms.drop_last(), session_id)
    }
}

pub open spec fn left_view(l: Option<(String, Option<String>)>) -> Option<
    (Seq<char>, Option<Seq<char>>),
> {
    match l {
        Some((s, n)) => Some((s@, opt_view(n))),
        None => None,
    }
}

fn drop_member(members: &mut Vec<SwarmMembership>, session_id: &str) -> (r: Option<
    (String, Option<String>),
>)
    ensures
        final(members)@ == without_member(old(members)@, session_id@),
        left_view(r) == swarm_of(old(members)@, session_id@),
{
    let mut rest: Vec<SwarmMembership> = Vec::new();
    std::mem::swap(&mut rest, members);
    let ghost all = rest@;
    let ghost f = |m: SwarmMembership| m.session_id@ != session_id@;
    let mut out: Vec<SwarmMembership> = Vec::new();
    let mut found: Option<(String, Option<String>)> = None;
    proof {
        reveal(Seq::filter);
        assert(all.take(0) =~= Seq::<SwarmMembership>::empty());
    }
    for m in it: rest
        invariant
            it.seq() == all,
            f == (|m: SwarmMembership| m.session_id@ != session_id@),
            out@ == all.take(it.index() as int).filter(f),
            left_view(found) == swarm_of(all.take(it.index() as int), session_id@),
    {
        proof {
            reveal(Seq::filter);
            let n = it.index() as int;
            assert(all.take(n + 1).drop_last() =~= all.take(n));
            assert(all.take(n + 1).last() == m);
        }
        if str_eq(m.session_id.as_str(), session_id) {
            found = match &m.swarm_id {
                Some(s) => Some((s.clone(), opt_clone(&m.friendly_name))),
                None => None,
            };
        } else {
            out.push(m);
        }
    }
    assert(all.take(all.len() as int) =~= all);
    *members = out;
    found
}

/// What becomes of an agent whose session ends that way.
pub open spec fn agent_end_of(d: DisconnectDisposition) -> (Option<Seq<char>>, Seq<char>, Seq<char>) {
    match d {
        DisconnectDisposition::Closed => (None, "session_closed"@, "client_disconnected"@),
        DisconnectDisposition::Crashed => (
            Some("Client disconnected while processing"@),
            "session_crashed"@,
            "client_disconnected_while_processing"@,
        ),
        DisconnectDisposition::Reloading => (
            Some("Server reload interrupted processing"@),
            "session_reloading"@,
            "server_reload_disconnect"@,
        ),
        DisconnectDisposition::Detached => (
            None,
            "session_detached"@,
            "client_detach_request"@,
        ),
    }
}

/// The standing of a swarm member whose session ends that way.
pub open spec fn member_end_of(d: DisconnectDisposition) -> (Seq<char>, Seq<char>) {
    match d {
        DisconnectDisposition::Closed => ("stopped"@, "disconnected"@),
        DisconnectDisposition::Crashed => ("crashed"@, "disconnect while running"@),
        DisconnectDisposition::Reloading => ("stopped"@, "server reload in progress"@),
        DisconnectDisposition::Detached => ("stopped"@, "disconnected"@),
    }
}

pub open spec fn opt_static_view(s: Option<&'static str>) -> Option<Seq<char>> {
    match s {
        Some(t) => Some(t@),
        None => None,
    }
}

fn agent_end(d: DisconnectDisposition) -> (r: AgentEnd)
    ensures
        (opt_static_view(r.crash_reason), r.event@, r.cause@) == agent_end_of(d),
{
    match d {
        DisconnectDisposition::Closed => AgentEnd {
            crash_reason: None,
            event: "session_closed",
            cause: "client_disconnected",
        },
        DisconnectDisposition::Crashed => AgentEnd {
            crash_reason: Some("Client disconnected while processing"),
            event: "session_crashed",
            cause: "client_disconnected_while_processing",
        },
        DisconnectDisposition::Reloading => AgentEnd {
            crash_reason: Some("Server reload interrupted processing"),
            event: "session_reloading",
            cause: "server_reload_disconnect",
        },
        DisconnectDisposition::Detached => AgentEnd {
            crash_reason: None,
            event: "session_detached",
            cause: "client_detach_request",
        },
    }
}

/// How the connection ended.
pub open spec fn ended_how(d: Disconnect) -> DisconnectDisposition {
    disposition_of(d.client_is_processing || d.task_unfinished, d.detached, d.reload_active)
}

/// The session ends with the connection: the client did not detach, and no other
/// client owns it.
pub open spec fn ends_session(cs: Seq<ClientConnection>, d: Disconnect) -> bool {
    !(ended_how(d) is Detached) && !has_successor(
        without_connection(cs, d.connection_id@),
        d.session_id@,
    )
}

impl LiveState {
    pub open spec fn well_formed(&self) -> bool {
        &&& self.debug_clients.well_formed()
        &&& self.sessions.well_formed()
        &&& self.subscriptions.well_formed()
        &&& self.file_touches.well_formed()
        &&& self.shutdown_signals.well_formed()
        &&& self.interrupt_queues.well_formed()
    }

    /// Everything that is held for a session is as it was.
    pub open spec fn same_sessions(&self, before: &LiveState) -> bool {
        &&& self.sessions@ == before.sessions@
        &&& self.members@ == before.members@
        &&& self.subscriptions@ == before.subscriptions@
        &&& self.file_touches@ == before.file_touches@
        &&& self.shutdown_signals@ == before.shutdown_signals@
        &&& self.interrupt_queues@ == before.interrupt_queues@
    }

    /// Nothing is held for the session any more; the others are as they were.
    pub open spec fn without_session(&self, before: &LiveState, id: Seq<char>) -> bool {
        &&& self.sessions@ == before.sessions@.remove(id)
        &&& self.members@ == without_member(before.members@, id)
        &&& self.subscriptions@ == before.subscriptions@.remove(id)
        &&& self.file_touches@ == before.file_touches@.remove(id)
        &&& self.shutdown_signals@ == before.shutdown_signals@.remove(id)
        &&& self.interrupt_queues@ == before.interrupt_queues@.remove(id)
    }

    /// Cleans up after a connection that ended. The connection goes in any case,
    /// so that a client which reconnects can reclaim the session. The session
    /// goes with it unless the client detached or another one is attached.
    pub fn cleanup_client_connection(&mut self, d: &Disconnect) -> (r: CleanupPlan)
        requires
            old(self).well_formed(),
        ensures
            final(self).well_formed(),
            final(self).connections@ == without_connection(
                old(self).connections@,
                d.connection_id@,
            ),
            final(self).debug_clients@ == old(self).debug_clients@.remove(d.debug_id@),
            if ends_session(old(self).connections@, *d) {
                &&& final(self).without_session(&*old(self), d.session_id@)
                &&& r matches CleanupPlan::EndSession(t) && {
                    &&& (t.member_status@, t.member_detail@) == member_end_of(ended_how(*d))
                    &&& left_view(t.left_swarm) == swarm_of(old(self).members@, d.session_id@)
                    &&& match t.agent {
                        Some(a) => old(self).sessions@.contains(d.session_id@) && (
                            opt_static_view(a.crash_reason),
                            a.event@,
                            a.cause@,
                        ) == agent_end_of(ended_how(*d)),
                        None => !old(self).sessions@.contains(d.session_id@),
                    }
                }
            } else {
                &&& final(self).same_sessions(&*old(self))
                &&& r is KeepDetached == (ended_how(*d) is Detached)
                &&& r is KeepShared == !(ended_how(*d) is Detached)
            },
    {
        let processing = d.client_is_processing || d.task_unfinished;
        let disposition = disconnect_disposition(processing, d.detached, d.reload_active);
        self.debug_clients.remove(d.debug_id);
        drop_connection(&mut self.connections, d.connection_id);
        match disposition {
            DisconnectDisposition::Detached => {
                return CleanupPlan::KeepDetached;
            },
            _ => {},
        }
        if session_has_live_successor(&self.connections, d.session_id) {
            return CleanupPlan::KeepShared;
        }
        let agent = if self.sessions.contains(d.session_id) {
            Some(agent_end(disposition))
        } else {
            None
        };
        self.sessions.remove(d.session_id);
        let (member_status, member_detail): (&'static str, &'static str) = match disposition {
            DisconnectDisposition::Closed => ("stopped", "disconnected"),
            DisconnectDisposition::Crashed => ("crashed", "disconnect while running"),
            DisconnectDisposition::Reloading => ("stopped", "server reload in progress"),
            DisconnectDisposition::Detached => ("stopped", "disconnected"),
        };
        let left_swarm = drop_member(&mut self.members, d.session_id);
        self.subscriptions.remove(d.session_id);
        self.file_touches.remove(d.session_id);
        self.shutdown_signals.remove(d.session_id);
        self.interrupt_queues.remove(d.session_id);
        CleanupPlan::EndSession(Teardown { agent, member_status, member_detail, left_swarm })
    }
}

/// A detach surrenders the connection and nothing else: the session does not end,
/// whatever other clients do.
pub proof fn detaching_keeps_the_session(cs: Seq<ClientConnection>, d: Disconnect)
    requires
        d.detached,
    ensures
        !ends_session(cs, d),
{
}

/// A client that is about to detach does not keep a session alive.
pub proof fn detaching_clients_are_no_successors(cs: Seq<ClientConnection>, d: Disconnect)
    requires
        !d.detached,
        forall|i: int|
            0 <= i < cs.len() && (#[trigger] cs[i]).session_id@ == d.session_id@ && cs[i].id@
                != d.connection_id@ ==> cs[i].is_detaching,
    ensures
        ends_session(cs, d),
{
    let rest = without_connection(cs, d.connection_id@);
    crate::ambient::queue_laws::filter_members(cs, |c: ClientConnection| c.id@ != d.connection_id@);
    assert forall|i: int| 0 <= i < rest.len() implies !owns(#[trigger] rest[i], d.session_id@) by {
        assert(rest.contains(rest[i]));
        let k = cs.index_of(rest[i]);
        assert(cs[k] == rest[i]);
    }
}

/// A second client that stays attached keeps the session alive.
pub proof fn attached_clients_keep_the_session(cs: Seq<ClientConnection>, d: Disconnect, k: int)
    requires
        0 <= k < cs.len(),
        owns(cs[k], d.session_id@),
        cs[k].id@ != d.connection_id@,
    ensures
        !ends_session(cs, d),
{
    let rest = without_connection(cs, d.connection_id@);
    crate::ambient::queue_laws::filter_members(cs, |c: ClientConnection| c.id@ != d.connection_id@);
    assert(cs.contains(cs[k]));
    assert(rest.contains(cs[k]));
    let i = rest.index_of(cs[k]);
    assert(owns(rest[i], d.session_id@));
}

/// The session ends exactly when the client did not ask to detach and every other
/// client of the session is about to go.
pub proof fn a_session_ends_with_its_last_client(cs: Seq<ClientConnection>, d: Disconnect)
    ensures
        ends_session(cs, d) <==> {
            &&& !d.detached
            &&& forall|i: int|
                0 <= i < cs.len() && (#[trigger] cs[i]).id@ != d.connection_id@
                    && cs[i].session_id@ == d.session_id@ ==> cs[i].is_detaching
        },
{
    if !d.detached && forall|i: int|
        0 <= i < cs.len() && (#[trigger] cs[i]).id@ != d.connection_id@ && cs[i].session_id@
            == d.session_id@ ==> cs[i].is_detaching {
        detaching_clients_are_no_successors(cs, d);
    }
    if ends_session(cs, d) {
        assert forall|i: int|
            0 <= i < cs.len() && (#[trigger] cs[i]).id@ != d.connection_id@ && cs[i].session_id@
                == d.session_id@ implies cs[i].is_detaching by {
            if !cs[i].is_detaching {
                attached_clients_keep_the_session(cs, d, i);
            }
        }
    }
}

/// A session that ends is a crash exactly when its client left it busy without
/// asking to detach and the server is not reloading; a reload that interrupts one
/// is told as such, and an idle session is closed.
pub proof fn busy_sessions_crash(d: Disconnect)
    ensures
        ended_how(d) is Detached <==> d.detached,
        ended_how(d) is Closed <==> !d.detached && !d.client_is_processing && !d.task_unfinished,
        ended_how(d) is Reloading <==> !d.detached && (d.client_is_processing || d.task_unfinished)
            && d.reload_active,
        ended_how(d) is Crashed <==> !d.detached && (d.client_is_processing || d.task_unfinished)
            && !d.reload_active,
        agent_end_of(ended_how(d)).0 is Some <==> !d.detached && (d.client_is_processing
            || d.task_unfinished),
{
}

/// The connection that ended goes and every other one stays, in its order; the
/// membership of a session that ends goes and every other one stays.
pub proof fn only_what_ended_goes(
    cs: Seq<ClientConnection>,
    id: Seq<char>,
    ms: Seq<SwarmMembership>,
    session_id: Seq<char>,
)
    ensures
        forall|c: ClientConnection| #[trigger]
            without_connection(cs, id).contains(c) <==> cs.contains(c) && c.id@ != id,
        forall|m: SwarmMembership| #[trigger]
            without_member(ms, session_id).contains(m) <==> ms.contains(m) && m.session_id@
                != session_id,
{
    connections_that_stay(cs, id);
    members_that_stay(ms, session_id);
}

proof fn connections_that_stay(cs: Seq<ClientConnection>, id: Seq<char>)
    ensures
        forall|c: ClientConnection| #[trigger]
            without_connection(cs, id).contains(c) <==> cs.contains(c) && c.id@ != id,
    decreases cs.len(),
{
    reveal(Seq::filter);
    if cs.len() > 0 {
        let head = cs.drop_last();
        let kept = without_connection(head, id);
        connections_that_stay(head, id);
        assert(cs =~= head.push(cs.last()));
        assert forall|c: ClientConnection| #[trigger] without_connection(cs, id).contains(c)
            <==> cs.contains(c) && c.id@ != id by {
            vstd::seq_lib::lemma_seq_contains_after_push(head, cs.last(), c);
            vstd::seq_lib::lemma_seq_contains_after_push(kept, cs.last(), c);
        }
    }
}

proof fn members_that_stay(ms: Seq<SwarmMembership>, session_id: Seq<char>)
    ensures
        forall|m: SwarmMembership| #[trigger]
            without_member(ms, session_id).contains(m) <==> ms.contains(m) && m.session_id@
                != session_id,
    decreases ms.len(),
{
    reveal(Seq::filter);
    if ms.len() > 0 {
        let head = ms.drop_last();
        let kept = without_member(head, session_id);
        members_that_stay(head, session_id);
        assert(ms =~= head.push(ms.last()));
        assert forall|m: SwarmMembership| #[trigger] without_member(ms, session_id).contains(m)
            <==> ms.contains(m) && m.session_id@ != session_id by {
            vstd::seq_lib::lemma_seq_contains_after_push(head, ms.last(), m);
            vstd::seq_lib::lemma_seq_contains_after_push(kept, ms.last(), m);
        }
    }
}

/// The swarm of a session is that of its own membership, with the name it goes by
/// there.
pub proof fn a_member_is_found_in_its_swarm(ms: Seq<SwarmMembership>, k: int)
    requires
        0 <= k < ms.len(),
        forall|i: int| 0 <= i < ms.len() && i != k ==> (#[trigger] ms[i]).session_id@ != ms[k].session_id@,
    ensures
        swarm_of(ms, ms[k].session_id@) is Some <==> ms[k].swarm_id is Some,
        swarm_of(ms, ms[k].session_id@) matches Some(s) ==> ms[k].swarm_id is Some && s.0
            == ms[k].swarm_id->0@ && s.1 == opt_view(ms[k].friendly_name),
    decreases ms.len(),
{
    if k < ms.len() - 1 {
        let rest = ms.drop_last();
        assert(ms[ms.len() - 1] == ms.last());
        assert(forall|i: int| 0 <= i < rest.len() ==> #[trigger] rest[i] == ms[i]);
        a_member_is_found_in_its_swarm(rest, k);
    }
}

} // verus!
