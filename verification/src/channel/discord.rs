//! The Discord channel.

use crate::text::{opt_view, owned, str_eq, trim, trimmed, views};
use vstd::prelude::*;

verus! {

/// How long to wait between polls, in seconds.
pub const POLL_EVERY_SECS: u64 = 3;

/// A Discord channel that a bot reads and writes.
#[derive(Debug)]
pub struct DiscordChannel {
    pub token: String,
    pub channel_id: String,
    pub reply_enabled: bool,
    pub bot_user_id: Option<String>,
}

#[derive(Debug, Clone)]
pub struct DiscordMessage {
    pub id: String,
    pub content: String,
    pub author: DiscordAuthor,
}

#[derive(Debug, Clone)]
pub struct DiscordAuthor {
    pub id: String,
    pub bot: Option<bool>,
}

pub open spec fn messages_url_of(channel_id: Seq<char>) -> Seq<char> {
    "https://discord.com/api/v10/channels/"@ + channel_id + "/messages"@
}

/// What a message says to the agent, if anything: bots, this one among them, say
/// nothing.
pub open spec fn said(m: DiscordMessage, bot_user_id: Option<Seq<char>>) -> Option<Seq<char>> {
    if m.author.bot == Some(true) || bot_user_id == Some(m.author.id@) || trimmed(m.content@).len()
        == 0 {
        None
    } else {
        Some(trimmed(m.content@))
    }
}

/// What the messages, newest first, say to the agent, oldest first.
pub open spec fn all_said(ms: Seq<DiscordMessage>, bot_user_id: Option<Seq<char>>) -> Seq<Seq<char>>
    decreases ms.len(),
{
    if ms.len() == 0 {
        Seq::empty()
    } else {
        let rest = all_said(ms.drop_first(), bot_user_id);
        match said(ms[0], bot_user_id) {
            Some(t) => rest.push(t),
            None => rest,
        }
    }
}

impl DiscordChannel {
    pub fn new(
        token: String,
        channel_id: String,
        reply_enabled: bool,
        bot_user_id: Option<String>,
    ) -> (r: DiscordChannel)
        ensures
            r.token == token && r.channel_id == channel_id,
            r.reply_enabled == reply_enabled && r.bot_user_id == bot_user_id,
    {
        DiscordChannel { token, channel_id, reply_enabled, bot_user_id }
    }

    /// Where messages are sent.
    pub fn send_url(&self) -> (r: String)
        ensures
            r@ == messages_url_of(self.channel_id@),
    {
        let mut url = owned("https://discord.com/api/v10/channels/");
        url.append(self.channel_id.as_str());
        url.append("/messages");
        url
    }

    /// Where the messages behind `after` are read.
    pub fn poll_url(&self, after: Option<&str>) -> (r: String)
        ensures
            r@ == (match after {
                Some(id) => messages_url_of(self.channel_id@) + "?limit=10"@ + "&after="@ + id@,
                None => messages_url_of(self.channel_id@) + "?limit=10"@,
            }),
    {
        let mut url = self.send_url();
        url.append("?limit=10");
        if let Some(id) = after {
            url.append("&after=");
            url.append(id);
        }
        url
    }

    /// The authorization of a request.
    pub fn authorization(&self) -> (r: String)
        ensures
            r@ == "Bot "@ + self.token@,
    {
        let mut out = owned("Bot ");
        out.append(self.token.as_str());
        out
    }

    /// The message to start behind: the newest there is, so that old ones are
    /// not taken for new.
    pub fn starting_point(msgs: &Vec<DiscordMessage>) -> (r: Option<String>)
        ensures
            opt_view(r) == (if msgs@.len() > 0 {
                Some(msgs@[0].id@)
            } else {
                None
            }),
    {
        if msgs.len() > 0 {
            Some(msgs[0].id.clone())
        } else {
            None
        }
    }

    fn text_of(&self, m: &DiscordMessage) -> (r: Option<String>)
        ensures
            opt_view(r) == said(*m, opt_view(self.bot_user_id)),
    {
        let from_bot = match m.author.bot {
            Some(b) => b,
            None => false,
        };
        let own = match &self.bot_user_id {
            Some(id) => str_eq(id.as_str(), m.author.id.as_str()),
            None => false,
        };
        let text = trim(m.content.as_str());
        if from_bot || own || text.unicode_len() == 0 {
            None
        } else {
            Some(owned(text))
        }
    }

    /// Takes in a poll's messages, newest first: returns what they say to the
    /// agent, oldest first. The newest of them is the one to go on behind.
    pub fn take_messages(&self, last_seen: &mut Option<String>, msgs: &Vec<DiscordMessage>) -> (r: Vec<
        String,
    >)
        ensures
            views(r@) == all_said(msgs@, opt_view(self.bot_user_id)),
            opt_view(*final(last_seen)) == (if msgs@.len() > 0 {
                Some(msgs@[0].id@)
            } else {
                opt_view(*old(last_seen))
            }),
    {
        let mut out: Vec<String> = Vec::new();
        let mut i: usize = msgs.len();
        assert(msgs@.skip(msgs@.len() as int) =~= Seq::<DiscordMessage>::empty());
        assert(views(out@) =~= Seq::<Seq<char>>::empty());
        while i > 0
            invariant
                i <= msgs@.len(),
                views(out@) == all_said(msgs@.skip(i as int), opt_view(self.bot_user_id)),
                i == msgs@.len() ==> opt_view(*last_seen) == opt_view(*old(last_seen)),
                i < msgs@.len() ==> opt_view(*last_seen) == Some(msgs@[i as int].id@),
            decreases i,
        {
            i = i - 1;
            proof {
                assert(msgs@.skip(i as int).drop_first() =~= msgs@.skip(i + 1));
                assert(msgs@.skip(i as int)[0] == msgs@[i as int]);
            }
            *last_seen = Some(msgs[i].id.clone());
            if let Some(text) = self.text_of(&msgs[i]) {
                let ghost was = out@;
                out.push(text);
                assert(views(out@) =~= views(was).push(text@));
            }
        }
        assert(msgs@.skip(0) =~= msgs@);
        out
    }
}

/// The bot never answers itself: nothing that it wrote reaches the agent.
pub proof fn own_messages_are_ignored(m: DiscordMessage, bot_user_id: Option<Seq<char>>)
    requires
        m.author.bot == Some(true) || bot_user_id == Some(m.author.id@),
    ensures
        said(m, bot_user_id) is None,
{
}

/// Everything that someone else writes reaches the agent, once, without the white
/// space around it and behind what was written before; nothing that a bot writes
/// does. A poll lists the newest message first.
pub proof fn every_message_of_others_is_heard(
    newer: DiscordMessage,
    ms: Seq<DiscordMessage>,
    bot_user_id: Option<Seq<char>>,
)
    ensures
        all_said(Seq::empty(), bot_user_id).len() == 0,
        all_said(seq![newer] + ms, bot_user_id) == (if newer.author.bot != Some(true)
            && bot_user_id != Some(newer.author.id@) && trimmed(newer.content@).len() > 0 {
            all_said(ms, bot_user_id).push(trimmed(newer.content@))
        } else {
            all_said(ms, bot_user_id)
        }),
{
    assert((seq![newer] + ms).drop_first() =~= ms);
}

} // verus!
