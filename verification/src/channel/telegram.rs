//! The Telegram channel.

use crate::numerals::{dec_int, push_dec_int};
use crate::text::{owned, str_eq, trim, trimmed, views};
use vstd::prelude::*;

verus! {

/// How long a poll for updates waits, in seconds.
pub const POLL_WAIT_SECS: u32 = 30;

/// A chat with a Telegram bot.
#[derive(Debug)]
pub struct TelegramChannel {
    pub token: String,
    pub chat_id: String,
    pub reply_enabled: bool,
}

/// A message in an update.
#[derive(Debug)]
pub struct TelegramMessage {
    pub chat_id: i64,
    pub text: Option<String>,
}

/// An update of the bot.
#[derive(Debug)]
pub struct TelegramUpdate {
    pub update_id: i64,
    pub message: Option<TelegramMessage>,
}

/// What an update says to the agent, if anything: a text in the configured
/// chat, without the white space around it.
pub open spec fn said(u: TelegramUpdate, chat_id: Seq<char>) -> Option<Seq<char>> {
    match u.message {
        None => None,
        Some(m) => if dec_int(m.chat_id as int) != chat_id {
            None
        } else {
            match m.text {
                None => None,
                Some(t) => if trimmed(t@).len() == 0 {
                    None
                } else {
                    Some(trimmed(t@))
                },
            }
        },
    }
}

/// What the updates say to the agent, in order.
pub open spec fn all_said(us: Seq<TelegramUpdate>, chat_id: Seq<char>) -> Seq<Seq<char>>
    decreases us.len(),
{
    if us.len() == 0 {
        Seq::empty()
    } else {
        let rest = all_said(us.drop_last(), chat_id);
        match said(us.last(), chat_id) {
            Some(t) => rest.push(t),
            None => rest,
        }
    }
}

impl TelegramChannel {
    pub fn new(token: String, chat_id: String, reply_enabled: bool) -> (r: TelegramChannel)
        ensures
            r.token == token && r.chat_id == chat_id && r.reply_enabled == reply_enabled,
    {
        TelegramChannel { token, chat_id, reply_enabled }
    }

    /// What an update says to the agent, if anything.
    fn text_of(&self, u: &TelegramUpdate) -> (r: Option<String>)
        ensures
            crate::text::opt_view(r) == said(*u, self.chat_id@),
    {
        let m = match &u.message {
            Some(m) => m,
            None => {
                return None;
            },
        };
        let mut id = String::new();
        push_dec_int(&mut id, m.chat_id);
        assert(id@ =~= dec_int(m.chat_id as int));
        if !str_eq(id.as_str(), self.chat_id.as_str()) {
            return None;
        }
        match &m.text {
            Some(t) => {
                let text = trim(t.as_str());
                if text.unicode_len() == 0 {
                    None
                } else {
                    Some(owned(text))
                }
            },
            None => None,
        }
    }

    /// Takes in a poll's updates: returns what they say to the agent, in order.
    /// The offset moves past the last of them, so that none comes again.
    pub fn take_updates(&self, offset: &mut Option<i64>, updates: &Vec<TelegramUpdate>) -> (r: Vec<
        String,
    >)
        requires
            forall|i: int| 0 <= i < updates@.len() ==> (#[trigger] updates@[i]).update_id < i64::MAX,
        ensures
            views(r@) == all_said(updates@, self.chat_id@),
            updates@.len() == 0 ==> *final(offset) == *old(offset),
            updates@.len() > 0 ==> *final(offset) == Some((updates@.last().update_id + 1) as i64),
    {
        let mut out: Vec<String> = Vec::new();
        let mut i: usize = 0;
        assert(updates@.take(0) =~= Seq::<TelegramUpdate>::empty());
        assert(views(out@) =~= Seq::<Seq<char>>::empty());
        while i < updates.len()
            invariant
                forall|j: int|
                    0 <= j < updates@.len() ==> (#[trigger] updates@[j]).update_id < i64::MAX,
                i <= updates@.len(),
                views(out@) == all_said(updates@.take(i as int), self.chat_id@),
                i == 0 ==> *offset == *old(offset),
                i > 0 ==> *offset == Some((updates@[i - 1].update_id + 1) as i64),
            decreases updates@.len() - i,
        {
            proof {
                assert(updates@.take(i + 1).drop_last() =~= updates@.take(i as int));
                assert(updates@[i as int].update_id < i64::MAX);
            }
            *offset = Some(updates[i].update_id + 1);
            if let Some(text) = self.text_of(&updates[i]) {
                let ghost was = out@;
                out.push(text);
                assert(views(out@) =~= views(was).push(text@));
            }
            i = i + 1;
        }
        assert(updates@.take(updates@.len() as int) =~= updates@);
        out
    }
}

/// Only what is said in the configured chat reaches the agent.
pub proof fn other_chats_are_ignored(us: Seq<TelegramUpdate>, chat_id: Seq<char>)
    requires
        forall|i: int|
            0 <= i < us.len() ==> ((#[trigger] us[i]).message matches Some(m) ==> dec_int(
                m.chat_id as int,
            ) != chat_id),
    ensures
        all_said(us, chat_id).len() == 0,
    decreases us.len(),
{
    if us.len() > 0 {
        assert(us[us.len() - 1] == us.last());
        assert forall|i: int| 0 <= i < us.drop_last().len() implies ((
        #[trigger] us.drop_last()[i]).message matches Some(m) ==> dec_int(m.chat_id as int)
            != chat_id) by {
            assert(us.drop_last()[i] == us[i]);
        }
        other_chats_are_ignored(us.drop_last(), chat_id);
    }
}

/// Every text of the configured chat reaches the agent, once, in its order and
/// without the white space around it; nothing else does.
pub proof fn every_text_of_the_chat_is_heard(
    us: Seq<TelegramUpdate>,
    u: TelegramUpdate,
    chat_id: Seq<char>,
)
    ensures
        all_said(Seq::empty(), chat_id).len() == 0,
        ({
            let heard = u.message is Some && dec_int(u.message->0.chat_id as int) == chat_id
                && u.message->0.text is Some && trimmed(u.message->0.text->0@).len() > 0;
            all_said(us.push(u), chat_id) == (if heard {
                all_said(us, chat_id).push(trimmed(u.message->0.text->0@))
            } else {
                all_said(us, chat_id)
            })
        }),
{
    assert(us.push(u).drop_last() =~= us);
}

} // verus!
