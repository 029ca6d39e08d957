//! The Jade cloud relay: an append-only log of events per session, polled from
//! here, so that nothing listens on this machine.

use crate::channel::encoding::{
    drop_leading, dropped, url_encoded, urlencoding_encode, without_leading, Leading,
};
use crate::numerals::{dec, dec_int, push_dec, push_dec_int};
use crate::text::{ends_with_char, opt_str_view, owned, trim, trimmed};
use vstd::prelude::*;

verus! {

/// How often the device reports in, in seconds.
pub const HEARTBEAT_SECS: u64 = 30;

/// How long a poll for prompts waits, in seconds.
pub const POLL_WAIT_SECS: u32 = 20;

/// A session on the relay.
#[derive(Debug)]
pub struct JadeRelayChannel {
    /// Ends with a slash.
    pub api_base: String,
    pub token: String,
    pub token_id: Option<String>,
    pub user_id: String,
    pub session_id: String,
    pub reply_enabled: bool,
}

/// An event of a session.
#[derive(Debug)]
pub struct RelayEvent {
    pub seq: i64,
    pub text: Option<String>,
}

/// A prompt from the relay.
#[derive(Debug)]
pub struct RelayPrompt {
    pub seq: i64,
    pub text: String,
}

pub open spec fn with_slash(base: Seq<char>) -> Seq<char> {
    if base.len() > 0 && base.last() == '/' {
        base
    } else {
        base + "/"@
    }
}

/// The path of a session's events.
pub open spec fn events_path(session_id: Seq<char>) -> Seq<char> {
    "v1/sessions/"@ + url_encoded(session_id) + "/events"@
}

/// What the events say to the agent, in order.
pub open spec fn prompts(es: Seq<RelayEvent>) -> Seq<(i64, Seq<char>)>
    decreases es.len(),
{
    if es.len() == 0 {
        Seq::empty()
    } else {
        let rest = prompts(es.drop_last());
        match es.last().text {
            Some(t) => if trimmed(t@).len() == 0 {
                rest
            } else {
                rest.push((es.last().seq, trimmed(t@)))
            },
            None => rest,
        }
    }
}

pub open spec fn prompt_views(ps: Seq<RelayPrompt>) -> Seq<(i64, Seq<char>)> {
    ps.map_values(|p: RelayPrompt| (p.seq, p.text@))
}

impl JadeRelayChannel {
    /// The base address ends with a slash.
    pub open spec fn well_formed(&self) -> bool {
        self.api_base@.len() > 0 && self.api_base@.last() == '/'
    }

    pub fn new(
        api_base: String,
        token: String,
        token_id: Option<String>,
        user_id: String,
        session_id: String,
        reply_enabled: bool,
    ) -> (r: JadeRelayChannel)
        ensures
            r.well_formed(),
            r.api_base@ == with_slash(api_base@),
            r.token == token && r.token_id == token_id,
            r.user_id == user_id && r.session_id == session_id,
            r.reply_enabled == reply_enabled,
    {
        proof {
            reveal_strlit("/");
        }
        let mut api_base = api_base;
        if !ends_with_char(api_base.as_str(), '/') {
            api_base.append("/");
        }
        JadeRelayChannel { api_base, token, token_id, user_id, session_id, reply_enabled }
    }

    /// The address of a path, whether or not it starts with a slash.
    pub fn url(&self, path: &str) -> (r: String)
        ensures
            r@ == self.api_base@ + without_leading(path@, dropped(Leading::Slashes)),
    {
        let mut url = self.api_base.clone();
        let rest = drop_leading(path, Leading::Slashes);
        url.append(rest.as_str());
        url
    }

    /// The authorization of a request.
    pub fn authorization(&self) -> (r: String)
        ensures
            r@ == "Bearer "@ + self.token@,
    {
        let mut out = owned("Bearer ");
        out.append(self.token.as_str());
        out
    }

    /// The path at which prompts behind `after` are polled for.
    pub fn poll_path(&self, after: i64, wait: u32) -> (r: String)
        ensures
            r@ == events_path(self.session_id@) + "?user_id="@ + url_encoded(self.user_id@)
                + "&after="@ + dec_int(after as int) + "&types=prompt&wait="@ + dec(wait as nat),
    {
        let mut path = self.post_path();
        path.append("?user_id=");
        let user = urlencoding_encode(self.user_id.as_str());
        path.append(user.as_str());
        path.append("&after=");
        push_dec_int(&mut path, after);
        path.append("&types=prompt&wait=");
        push_dec(&mut path, wait as u64);
        path
    }

    /// The path at which responses are posted.
    pub fn post_path(&self) -> (r: String)
        ensures
            r@ == events_path(self.session_id@),
    {
        let mut path = owned("v1/sessions/");
        let session = urlencoding_encode(self.session_id.as_str());
        path.append(session.as_str());
        path.append("/events");
        path
    }

    /// Whether it is time to report in again.
    pub fn heartbeat_due(secs_since_last: u64) -> (r: bool)
        ensures
            r == (secs_since_last >= HEARTBEAT_SECS),
    {
        secs_since_last >= HEARTBEAT_SECS
    }

    /// The name of this device, from the names its environment gives it.
    pub fn device_id(hostname: Option<&str>, computer_name: Option<&str>) -> (r: String)
        ensures
            r@ == "jcode-"@ + (match (opt_str_view(hostname), opt_str_view(computer_name)) {
                (Some(h), _) => h,
                (None, Some(c)) => c,
                (None, None) => "laptop"@,
            }),
    {
        let mut out = owned("jcode-");
        match (hostname, computer_name) {
            (Some(h), _) => out.append(h),
            (None, Some(c)) => out.append(c),
            (None, None) => out.append("laptop"),
        }
        out
    }

    /// Takes in a poll's events: returns the prompts among them, in order. The
    /// relay says where to go on.
    pub fn take_events(after: &mut i64, events: &Vec<RelayEvent>, next_after: i64) -> (r: Vec<
        RelayPrompt,
    >)
        ensures
            *final(after) == next_after,
            prompt_views(r@) == prompts(events@),
    {
        *after = next_after;
        let mut out: Vec<RelayPrompt> = Vec::new();
        let mut i: usize = 0;
        assert(events@.take(0) =~= Seq::<RelayEvent>::empty());
        assert(prompt_views(out@) =~= Seq::<(i64, Seq<char>)>::empty());
        while i < events.len()
            invariant
                i <= events@.len(),
                prompt_views(out@) == prompts(events@.take(i as int)),
            decreases events@.len() - i,
        {
            assert(events@.take(i + 1).drop_last() =~= events@.take(i as int));
            if let Some(t) = &events[i].text {
                let text = trim(t.as_str());
                if text.unicode_len() > 0 {
                    let ghost was = out@;
                    let p = RelayPrompt { seq: events[i].seq, text: owned(text) };
                    let ghost v = (p.seq, p.text@);
                    out.push(p);
                    assert(prompt_views(out@) =~= prompt_views(was).push(v));
                }
            }
            i = i + 1;
        }
        assert(events@.take(events@.len() as int) =~= events@);
        out
    }
}

/// Every event that carries a text gives one prompt, in its order, with the
/// event's number and without the white space around the text; no other does.
pub proof fn every_text_is_prompted(es: Seq<RelayEvent>, e: RelayEvent)
    ensures
        prompts(Seq::empty()).len() == 0,
        prompts(es.push(e)) == (if e.text is Some && trimmed(e.text->0@).len() > 0 {
            prompts(es).push((e.seq, trimmed(e.text->0@)))
        } else {
            prompts(es)
        }),
{
    assert(es.push(e).drop_last() =~= es);
}

/// An address gets the slash that it lacks, and no second one.
pub proof fn addresses_end_in_one_slash(base: Seq<char>)
    ensures
        with_slash(base).last() == '/',
        with_slash(with_slash(base)) == with_slash(base),
        with_slash(base) == base || with_slash(base) == base.push('/'),
        base.len() > 0 && base.last() == '/' ==> with_slash(base) == base,
{
    reveal_strlit("/");
    assert(base + "/"@ =~= base.push('/'));
}

} // verus!
