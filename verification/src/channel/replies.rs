//! Answering a message: what is sent back once it was delivered or recorded.

use crate::numerals::{dec, push_dec};
use crate::text::{has_part, owned};
use vstd::prelude::*;

verus! {

/// How a channel words its answers.
#[derive(Debug, Clone, Copy, PartialEq, Eq, Structural)]
pub enum ReplyStyle {
    Telegram,
    Discord,
    JadeRelay,
    GitHub,
}

pub open spec fn verdict(approved: bool) -> Seq<char> {
    if approved {
        "approved"@
    } else {
        "denied"@
    }
}

fn verdict_word(approved: bool) -> (r: &'static str)
    ensures
        r@ == verdict(approved),
{
    if approved {
        "approved"
    } else {
        "denied"
    }
}

/// The name under which a channel's permission answers are recorded.
pub open spec fn recorded_as(style: ReplyStyle) -> Seq<char> {
    match style {
        ReplyStyle::Telegram => "telegram_reply"@,
        ReplyStyle::Discord => "discord_reply"@,
        ReplyStyle::JadeRelay => "jade_relay"@,
        ReplyStyle::GitHub => "github_issue"@,
    }
}

/// The name under which a channel's permission answers are recorded.
pub fn permission_source(style: ReplyStyle) -> (r: &'static str)
    ensures
        r@ == recorded_as(style),
{
    match style {
        ReplyStyle::Telegram => "telegram_reply",
        ReplyStyle::Discord => "discord_reply",
        ReplyStyle::JadeRelay => "jade_relay",
        ReplyStyle::GitHub => "github_issue",
    }
}

/// A message that decides a permission request.
#[derive(Debug)]
pub struct PermissionReply {
    pub request_id: String,
    pub approved: bool,
    pub message: Option<String>,
}

/// What is done with a message that is meant for the agent.
#[derive(Debug)]
pub enum ReplyAction {
    /// A decision is recorded.
    Record { reply: PermissionReply, via: &'static str },
    /// It goes to the agent, from a source.
    Inject { source: String },
}

/// The source that a channel's messages come from. On GitHub it names the issue,
/// so that the agent can answer in its thread.
pub open spec fn source_name(style: ReplyStyle, issue: u64) -> Seq<char> {
    match style {
        ReplyStyle::Telegram => "telegram"@,
        ReplyStyle::Discord => "discord"@,
        ReplyStyle::JadeRelay => "jade_relay"@,
        ReplyStyle::GitHub => "github#"@ + dec(issue as nat),
    }
}

/// What is done with a message: one that decides a permission request is
/// recorded, and never reaches the agent; any other one does. `issue` is where
/// a GitHub comment stands, and matters there alone.
pub fn reply_action(style: ReplyStyle, issue: u64, permission: Option<PermissionReply>) -> (r:
    ReplyAction)
    ensures
        match permission {
            Some(p) => r matches ReplyAction::Record { reply, via } && reply == p && via@
                == recorded_as(style),
            None => r matches ReplyAction::Inject { source } && source@ == source_name(style, issue),
        },
{
    match permission {
        Some(reply) => ReplyAction::Record { reply, via: permission_source(style) },
        None => {
            let source = match style {
                ReplyStyle::Telegram => owned("telegram"),
                ReplyStyle::Discord => owned("discord"),
                ReplyStyle::JadeRelay => owned("jade_relay"),
                ReplyStyle::GitHub => {
                    let mut out = owned("github#");
                    push_dec(&mut out, issue);
                    out
                },
            };
            ReplyAction::Inject { source }
        },
    }
}

/// The answer to a permission that was recorded.
pub open spec fn permission_answer(style: ReplyStyle, approved: bool, id: Seq<char>) -> Seq<char> {
    match style {
        ReplyStyle::Telegram => "✅ Permission "@ + verdict(approved) + " for `"@ + id + "`"@,
        ReplyStyle::Discord => "✅ Permission "@ + verdict(approved) + " for `"@ + id + "`"@,
        ReplyStyle::JadeRelay => "Permission "@ + verdict(approved) + " for "@ + id,
        ReplyStyle::GitHub => "Permission "@ + verdict(approved) + " for `"@ + id + "`."@,
    }
}

/// The answer to a permission reply: none when it could not be recorded.
pub fn permission_ack(style: ReplyStyle, recorded: bool, approved: bool, id: &str) -> (r: Option<
    String,
>)
    ensures
        match r {
            Some(t) => recorded && t@ == permission_answer(style, approved, id@),
            None => !recorded,
        },
{
    if !recorded {
        return None;
    }
    let word = verdict_word(approved);
    let out = match style {
        ReplyStyle::Telegram | ReplyStyle::Discord => {
            let mut out = owned("✅ Permission ");
            out.append(word);
            out.append(" for `");
            out.append(id);
            out.append("`");
            out
        },
        ReplyStyle::JadeRelay => {
            let mut out = owned("Permission ");
            out.append(word);
            out.append(" for ");
            out.append(id);
            out
        },
        ReplyStyle::GitHub => {
            let mut out = owned("Permission ");
            out.append(word);
            out.append(" for `");
            out.append(id);
            out.append("`.");
            out
        },
    };
    Some(out)
}

/// The answer to a message: whether it went into a running cycle or wakes one.
pub open spec fn delivery_answer(style: ReplyStyle, injected: bool, text: Seq<char>) -> Seq<char> {
    match style {
        ReplyStyle::Telegram => if injected {
            "💬 Message sent to active session: _"@ + text + "_"@
        } else {
            "📋 Message queued, waking agent: _"@ + text + "_"@
        },
        ReplyStyle::Discord => if injected {
            "💬 Message sent to active session: *"@ + text + "*"@
        } else {
            "📋 Message queued, waking agent: *"@ + text + "*"@
        },
        ReplyStyle::JadeRelay => if injected {
            "Message delivered to active session."@
        } else {
            "Message queued; waking agent."@
        },
        ReplyStyle::GitHub => if injected {
            "Delivered to the running cycle."@
        } else {
            "Queued; waking the agent now."@
        },
    }
}

/// The answer to a message.
pub fn delivery_ack(style: ReplyStyle, injected: bool, text: &str) -> (r: String)
    ensures
        r@ == delivery_answer(style, injected, text@),
{
    match style {
        ReplyStyle::Telegram => {
            let mut out = owned(
                if injected {
                    "💬 Message sent to active session: _"
                } else {
                    "📋 Message queued, waking agent: _"
                },
            );
            out.append(text);
            out.append("_");
            out
        },
        ReplyStyle::Discord => {
            let mut out = owned(
                if injected {
                    "💬 Message sent to active session: *"
                } else {
                    "📋 Message queued, waking agent: *"
                },
            );
            out.append(text);
            out.append("*");
            out
        },
        ReplyStyle::JadeRelay => owned(
            if injected {
                "Message delivered to active session."
            } else {
                "Message queued; waking agent."
            },
        ),
        ReplyStyle::GitHub => owned(
            if injected {
                "Delivered to the running cycle."
            } else {
                "Queued; waking the agent now."
            },
        ),
    }
}

/// How long a channel waits before polling again after an error, in seconds.
pub const ERROR_WAIT_SECS: u64 = 10;

/// The answer to a permission names the request and what was decided, whatever
/// the channel; and a decision is told apart from its opposite.
pub proof fn decisions_are_answered(style: ReplyStyle, id: Seq<char>)
    ensures
        has_part(permission_answer(style, true, id), "Permission approved for "@),
        has_part(permission_answer(style, false, id), "Permission denied for "@),
        has_part(permission_answer(style, true, id), id),
        has_part(permission_answer(style, false, id), id),
{
    reveal_strlit("Permission approved for ");
    reveal_strlit("Permission denied for ");
    reveal_strlit("Permission ");
    reveal_strlit("✅ Permission ");
    reveal_strlit("approved");
    reveal_strlit("denied");
    reveal_strlit(" for `");
    reveal_strlit(" for ");
    reveal_strlit("`");
    reveal_strlit("`.");
    let yes = permission_answer(style, true, id);
    let no = permission_answer(style, false, id);
    let at: int = if style is Telegram || style is Discord {
        2
    } else {
        0
    };
    let tick: int = if style is JadeRelay {
        0
    } else {
        1
    };
    assert(yes.subrange(at, at + 24) =~= "Permission approved for "@);
    assert(no.subrange(at, at + 22) =~= "Permission denied for "@);
    assert(yes.subrange(at + 24 + tick, at + 24 + tick + id.len()) =~= id);
    assert(no.subrange(at + 22 + tick, at + 22 + tick + id.len()) =~= id);
}

/// A decision never reaches the agent, and nothing else is recorded: what is done
/// with a message depends on whether it decides a request, and its source tells
/// the channels apart.
pub proof fn sources_tell_channels_apart(a: ReplyStyle, m: u64, b: ReplyStyle, n: u64)
    requires
        source_name(a, m) == source_name(b, n),
    ensures
        a == b,
        a is GitHub ==> m == n,
{
    reveal_strlit("telegram");
    reveal_strlit("discord");
    reveal_strlit("jade_relay");
    reveal_strlit("github#");
    let s = source_name(a, m);
    let t = source_name(b, n);
    assert(s[0] == t[0]);
    if a is GitHub && b is GitHub {
        assert(s.skip(7) =~= dec(m as nat));
        assert(t.skip(7) =~= dec(n as nat));
        crate::numerals::reading_undoes_rendering(m as nat);
        crate::numerals::reading_undoes_rendering(n as nat);
    }
}

/// An answer tells a message that reached a running session from one that waits,
/// in every channel and whatever the message says.
pub proof fn delivery_is_told_from_waiting(style: ReplyStyle, text: Seq<char>, other: Seq<char>)
    ensures
        delivery_answer(style, true, text) != delivery_answer(style, false, other),
        style is Telegram || style is Discord ==> (delivery_answer(style, true, text)
            == delivery_answer(style, true, other) <==> text == other),
        style is Telegram || style is Discord ==> (delivery_answer(style, false, text)
            == delivery_answer(style, false, other) <==> text == other),
{
    reveal_strlit("💬 Message sent to active session: _");
    reveal_strlit("📋 Message queued, waking agent: _");
    reveal_strlit("💬 Message sent to active session: *");
    reveal_strlit("📋 Message queued, waking agent: *");
    reveal_strlit("_");
    reveal_strlit("*");
    reveal_strlit("Message delivered to active session.");
    reveal_strlit("Message queued; waking agent.");
    reveal_strlit("Delivered to the running cycle.");
    reveal_strlit("Queued; waking the agent now.");
    let a = delivery_answer(style, true, text);
    let b = delivery_answer(style, false, other);
    if style is Telegram || style is Discord {
        assert(a[0] != b[0]);
        inner_text_decides(
            delivery_answer(style, true, Seq::empty()).drop_last(),
            text,
            other,
            seq![a.last()],
        );
        inner_text_decides(
            delivery_answer(style, false, Seq::empty()).drop_last(),
            text,
            other,
            seq![b.last()],
        );
        let c = delivery_answer(style, true, Seq::empty()).drop_last();
        let d = delivery_answer(style, false, Seq::empty()).drop_last();
        assert(a =~= c + text + seq![a.last()]);
        assert(delivery_answer(style, true, other) =~= c + other + seq![a.last()]);
        assert(b =~= d + other + seq![b.last()]);
        assert(delivery_answer(style, false, text) =~= d + text + seq![b.last()]);
    } else {
        assert(a.len() != b.len() || a[0] != b[0]);
    }
}

proof fn inner_text_decides(a: Seq<char>, x: Seq<char>, y: Seq<char>, b: Seq<char>)
    ensures
        a + x + b == a + y + b <==> x == y,
{
    if a + x + b == a + y + b {
        assert((a + x + b).len() == (a + y + b).len());
        assert forall|i: int| 0 <= i < x.len() implies x[i] == y[i] by {
            assert((a + x + b)[a.len() + i] == x[i]);
            assert((a + y + b)[a.len() + i] == y[i]);
        }
        assert(x =~= y);
    }
}

} // verus!
