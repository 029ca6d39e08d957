//! The `ambient:` commands of the debug socket.

use crate::ambient::prompt::ResourceBudget;
use crate::clock::{rfc3339, rfc3339_of};
use crate::text::{
    before_space_unique, has_prefix, is_space, opt_view, owned, space_halves, split_once_space, str_eq, strip_prefix, trim, trimmed,
};
use crate::time::Timestamp;
use vstd::prelude::*;

verus! {

/// The reference of the commands.
pub const AMBIENT_HELP: &'static str =
    "Ambient mode debug commands (ambient: prefix):\n  ambient:status              - Ambient + schedule runner state, counts, next due items\n  ambient:queue               - Scheduled queue contents with target/session metadata\n  ambient:trigger             - Manually trigger an ambient cycle\n  ambient:log                 - Recent transcript summaries\n  ambient:permissions         - List pending permission requests\n  ambient:approve:<id>        - Approve a permission request\n  ambient:deny:<id> [reason]  - Deny a permission request (optional reason)\n  ambient:start               - Start/restart ambient mode\n  ambient:stop                - Stop ambient mode";

/// What the status says when there is no runner.
pub const NOT_CONFIGURED: &'static str = "Ambient mode is not enabled in config";

/// Why a command that needs a runner fails without one.
pub const NOT_ENABLED: &'static str = "Ambient mode is not enabled";

/// What a command asks for.
#[derive(Debug)]
pub enum AmbientCommand {
    /// It is not an ambient command.
    NotMine,
    /// It is answered as it stands.
    Reply(String),
    /// It fails.
    Fail(String),
    /// The status without a runner: disabled, with [`NOT_CONFIGURED`].
    DisabledStatus,
    Status,
    Queue,
    Trigger,
    Log,
    Prompt,
    Permissions,
    Approve { request_id: String },
    Deny { request_id: String, message: Option<String> },
    Stop,
    Start,
}

/// The request that a denial names, and the reason it gives.
pub open spec fn denial(rest: Seq<char>) -> (Seq<char>, Option<Seq<char>>) {
    match space_halves(rest) {
        Some((id, reason)) => (
            trimmed(id),
            if trimmed(reason).len() > 0 {
                Some(trimmed(reason))
            } else {
                None
            },
        ),
        None => (trimmed(rest), None),
    }
}

pub open spec fn fails(r: AmbientCommand, text: Seq<char>) -> bool {
    r matches AmbientCommand::Fail(t) && t@ == text
}

pub open spec fn replies(r: AmbientCommand, text: Seq<char>) -> bool {
    r matches AmbientCommand::Reply(t) && t@ == text
}

/// What a command asks for, with a runner or without one.
pub open spec fn asks(cmd: Seq<char>, has_runner: bool, r: AmbientCommand) -> bool {
    if cmd == "ambient:status"@ {
        if has_runner {
            r is Status
        } else {
            r is DisabledStatus
        }
    } else if cmd == "ambient:queue"@ {
        if has_runner {
            r is Queue
        } else {
            replies(r, "[]"@)
        }
    } else if cmd == "ambient:trigger"@ {
        if has_runner {
            r is Trigger
        } else {
            fails(r, NOT_ENABLED@)
        }
    } else if cmd == "ambient:log"@ {
        if has_runner {
            r is Log
        } else {
            replies(r, "[]"@)
        }
    } else if cmd == "ambient:prompt"@ {
        r is Prompt
    } else if cmd == "ambient:permissions"@ {
        if has_runner {
            r is Permissions
        } else {
            replies(r, "[]"@)
        }
    } else if has_prefix(cmd, "ambient:approve:"@) {
        let id = trimmed(cmd.skip("ambient:approve:"@.len() as int));
        if id.len() == 0 {
            fails(r, "Usage: ambient:approve:<request_id>"@)
        } else if has_runner {
            r matches AmbientCommand::Approve { request_id } && request_id@ == id
        } else {
            fails(r, NOT_ENABLED@)
        }
    } else if has_prefix(cmd, "ambient:deny:"@) {
        let rest = trimmed(cmd.skip("ambient:deny:"@.len() as int));
        if rest.len() == 0 {
            fails(r, "Usage: ambient:deny:<request_id> [reason]"@)
        } else if has_runner {
            r matches AmbientCommand::Deny { request_id, message } && (
                request_id@,
                opt_view(message),
            ) == denial(rest)
        } else {
            fails(r, NOT_ENABLED@)
        }
    } else if cmd == "ambient:stop"@ {
        if has_runner {
            r is Stop
        } else {
            fails(r, NOT_ENABLED@)
        }
    } else if cmd == "ambient:start"@ {
        if has_runner {
            r is Start
        } else {
            fails(r, NOT_CONFIGURED@)
        }
    } else if cmd == "ambient:help"@ {
        replies(r, AMBIENT_HELP@)
    } else {
        r is NotMine
    }
}

fn without_runner() -> (r: AmbientCommand)
    ensures
        fails(r, NOT_ENABLED@),
{
    AmbientCommand::Fail(owned(NOT_ENABLED))
}

fn parse_denial(rest: &str) -> (r: (String, Option<String>))
    ensures
        (r.0@, opt_view(r.1)) == denial(rest@),
{
    match split_once_space(rest) {
        Some((id, reason)) => {
            let why = trim(reason);
            let message = if why.unicode_len() > 0 {
                Some(owned(why))
            } else {
                None
            };
            (owned(trim(id)), message)
        },
        None => (owned(trim(rest)), None),
    }
}

/// What a command asks for, with a runner or without one.
pub fn maybe_handle_ambient_command(cmd: &str, has_runner: bool) -> (r: AmbientCommand)
    ensures
        asks(cmd@, has_runner, r),
{
    if str_eq(cmd, "ambient:status") {
        return if has_runner {
            AmbientCommand::Status
        } else {
            AmbientCommand::DisabledStatus
        };
    }
    if str_eq(cmd, "ambient:queue") {
        return if has_runner {
            AmbientCommand::Queue
        } else {
            AmbientCommand::Reply(owned("[]"))
        };
    }
    if str_eq(cmd, "ambient:trigger") {
        return if has_runner {
            AmbientCommand::Trigger
        } else {
            without_runner()
        };
    }
    if str_eq(cmd, "ambient:log") {
        return if has_runner {
            AmbientCommand::Log
        } else {
            AmbientCommand::Reply(owned("[]"))
        };
    }
    if str_eq(cmd, "ambient:prompt") {
        return AmbientCommand::Prompt;
    }
    if str_eq(cmd, "ambient:permissions") {
        return if has_runner {
            AmbientCommand::Permissions
        } else {
            AmbientCommand::Reply(owned("[]"))
        };
    }
    if let Some(rest) = strip_prefix(cmd, "ambient:approve:") {
        assert(rest@ =~= cmd@.skip("ambient:approve:"@.len() as int));
        let id = trim(rest);
        if id.unicode_len() == 0 {
            return AmbientCommand::Fail(owned("Usage: ambient:approve:<request_id>"));
        }
        return if has_runner {
            AmbientCommand::Approve { request_id: owned(id) }
        } else {
            without_runner()
        };
    }
    if let Some(rest) = strip_prefix(cmd, "ambient:deny:") {
        assert(rest@ =~= cmd@.skip("ambient:deny:"@.len() as int));
        let rest = trim(rest);
        if rest.unicode_len() == 0 {
            return AmbientCommand::Fail(owned("Usage: ambient:deny:<request_id> [reason]"));
        }
        if !has_runner {
            return without_runner();
        }
        let (request_id, message) = parse_denial(rest);
        return AmbientCommand::Deny { request_id, message };
    }
    if str_eq(cmd, "ambient:stop") {
        return if has_runner {
            AmbientCommand::Stop
        } else {
            without_runner()
        };
    }
    if str_eq(cmd, "ambient:start") {
        return if has_runner {
            AmbientCommand::Start
        } else {
            AmbientCommand::Fail(owned(NOT_CONFIGURED))
        };
    }
    if str_eq(cmd, "ambient:help") {
        return AmbientCommand::Reply(owned(AMBIENT_HELP));
    }
    AmbientCommand::NotMine
}

/// The answer to a command that was carried out. `started` is whether the loop
/// was not running before; it matters to a start alone. A command that shows
/// something has no such answer.
pub fn done_reply(cmd: &AmbientCommand, started: bool) -> (r: Option<String>)
    ensures
        opt_view(r) == (match *cmd {
            AmbientCommand::Trigger => Some("Ambient cycle triggered"@),
            AmbientCommand::Approve { request_id } => Some("Approved: "@ + request_id@),
            AmbientCommand::Deny { request_id, .. } => Some("Denied: "@ + request_id@),
            AmbientCommand::Stop => Some("Ambient mode stopped"@),
            AmbientCommand::Start => if started {
                Some("Ambient mode started"@)
            } else {
                Some("Ambient mode is already running"@)
            },
            _ => None,
        }),
{
    match cmd {
        AmbientCommand::Trigger => Some(owned("Ambient cycle triggered")),
        AmbientCommand::Approve { request_id } => {
            let mut out = owned("Approved: ");
            out.append(request_id.as_str());
            Some(out)
        },
        AmbientCommand::Deny { request_id, .. } => {
            let mut out = owned("Denied: ");
            out.append(request_id.as_str());
            Some(out)
        },
        AmbientCommand::Stop => Some(owned("Ambient mode stopped")),
        AmbientCommand::Start => Some(
            owned(
                if started {
                    "Ambient mode started"
                } else {
                    "Ambient mode is already running"
                },
            ),
        ),
        _ => None,
    }
}

/// The budget that a prompt shown for inspection tells of.
pub fn inspection_budget(provider: &str) -> (r: ResourceBudget)
    ensures
        r.provider@ == provider@,
        r.tokens_remaining_desc@ == "unknown (debug dump)"@,
        r.window_resets_desc@ == "unknown"@,
        r.user_usage_rate_desc@ == "unknown"@,
        r.cycle_budget_desc@ == "unknown"@,
{
    ResourceBudget {
        provider: owned(provider),
        tokens_remaining_desc: owned("unknown (debug dump)"),
        window_resets_desc: owned("unknown"),
        user_usage_rate_desc: owned("unknown"),
        cycle_budget_desc: owned("unknown"),
    }
}

/// A permission request that waits for a decision.
#[derive(Debug)]
pub struct PermissionFacts {
    pub id: String,
    pub action: String,
    pub description: String,
    pub rationale: String,
    pub urgency: String,
    pub wait: bool,
    pub created_at: Timestamp,
    /// The summary of its review, when it has one.
    pub review_summary: Option<String>,
    /// The reason of its review, when it has one.
    pub review_why: Option<String>,
}

/// A permission request as listed.
#[derive(Debug)]
pub struct PermissionEntry {
    pub id: String,
    pub action: String,
    pub description: String,
    pub rationale: String,
    pub summary: String,
    pub why_permission_needed: String,
    pub urgency: String,
    pub wait: bool,
    pub created_at: String,
}

/// Lists a permission request. What its review says goes before what it says of
/// itself.
pub fn permission_entry(p: &PermissionFacts) -> (r: PermissionEntry)
    requires
        p.created_at.valid(),
    ensures
        r.id@ == p.id@ && r.action@ == p.action@,
        r.description@ == p.description@ && r.rationale@ == p.rationale@,
        r.summary@ == (match p.review_summary {
            Some(s) => s@,
            None => p.description@,
        }),
        r.why_permission_needed@ == (match p.review_why {
            Some(s) => s@,
            None => p.rationale@,
        }),
        r.urgency@ == p.urgency@,
        r.wait == p.wait,
        r.created_at@ == rfc3339_of(p.created_at),
{
    PermissionEntry {
        id: p.id.clone(),
        action: p.action.clone(),
        description: p.description.clone(),
        rationale: p.rationale.clone(),
        summary: match &p.review_summary {
            Some(s) => s.clone(),
            None => p.description.clone(),
        },
        why_permission_needed: match &p.review_why {
            Some(s) => s.clone(),
            None => p.rationale.clone(),
        },
        urgency: p.urgency.clone(),
        wait: p.wait,
        created_at: rfc3339(&p.created_at),
    }
}

/// What follows the id of a request is the reason that it is denied for; the id
/// alone denies it without one.
pub proof fn denials_give_their_reason(id: Seq<char>, reason: Seq<char>)
    requires
        id.len() > 0,
        forall|i: int| 0 <= i < id.len() ==> !is_space(#[trigger] id[i]),
    ensures
        denial(id) == (id, None::<Seq<char>>),
        trimmed(reason).len() > 0 ==> denial(id + " "@ + reason) == (id, Some(trimmed(reason))),
        trimmed(reason).len() == 0 ==> denial(id + " "@ + reason) == (id, None::<Seq<char>>),
{
    reveal_strlit(" ");
    let t = id + " "@ + reason;
    assert(forall|i: int| 0 <= i < id.len() ==> #[trigger] t[i] == id[i]);
    assert(is_space(t[id.len() as int]));
    before_space_unique(id, id.len() as int);
    before_space_unique(t, id.len() as int);
    assert(t.take(id.len() as int) =~= id);
    assert(t.skip(id.len() + 1int) =~= reason);
    assert(!is_space(id[0]) && !is_space(id.last()));
}

/// Without a runner nothing is done: a command is answered, or fails, or asks only
/// for what needs none. With one no command fails but for want of a request's id.
/// A text that is no command of these is left to others either way.
pub proof fn commands_need_a_runner(cmd: Seq<char>, r: AmbientCommand, q: AmbientCommand)
    requires
        asks(cmd, false, r),
        asks(cmd, true, q),
    ensures
        r is NotMine || r is Reply || r is Fail || r is DisabledStatus || r is Prompt,
        r is NotMine <==> q is NotMine,
        r is NotMine ==> !has_prefix(cmd, "ambient:approve:"@) && !has_prefix(cmd, "ambient:deny:"@),
        r is DisabledStatus <==> q is Status,
        r is Prompt <==> q is Prompt,
        q is Fail ==> r is Fail,
        q is Reply ==> r is Reply,
        q is Approve || q is Deny || q is Stop || q is Start || q is Trigger ==> r is Fail,
        q is Queue || q is Log || q is Permissions ==> r is Reply,
{
}

} // verus!
