//! The channels that the configuration sets up.

use crate::channel::discord::DiscordChannel;
use crate::channel::github::{token_of, GitHubChannel, TokenSources, MIN_POLL_SECS};
use crate::channel::jade::{with_slash, JadeRelayChannel};
use crate::channel::telegram::TelegramChannel;
use crate::text::{copy_texts, opt_clone, opt_view, owned, str_eq, views};
use vstd::prelude::*;

verus! {

/// The part of the configuration that sets up channels.
#[derive(Debug)]
pub struct SafetyConfig {
    pub telegram_enabled: bool,
    pub telegram_bot_token: Option<String>,
    pub telegram_chat_id: Option<String>,
    pub telegram_reply_enabled: bool,
    pub discord_enabled: bool,
    pub discord_bot_token: Option<String>,
    pub discord_channel_id: Option<String>,
    pub discord_reply_enabled: bool,
    pub discord_bot_user_id: Option<String>,
    pub github_enabled: bool,
    pub github_repo: Option<String>,
    pub github_label: String,
    pub github_token: Option<String>,
    pub github_allowed_logins: Vec<String>,
    pub github_reply_enabled: bool,
    pub github_poll_seconds: u64,
    pub jade_relay_enabled: bool,
    pub jade_relay_api_base: Option<String>,
    pub jade_relay_token: Option<String>,
    pub jade_relay_token_id: Option<String>,
    pub jade_relay_user_id: Option<String>,
    pub jade_relay_session_id: Option<String>,
    pub jade_relay_reply_enabled: bool,
}

/// A channel that messages go out on, and may come back on.
#[derive(Debug)]
pub enum Channel {
    Telegram(TelegramChannel),
    Discord(DiscordChannel),
    GitHub(GitHubChannel),
    JadeRelay(JadeRelayChannel),
}

/// What a channel is set up with.
pub enum ChannelView {
    Telegram { token: Seq<char>, chat_id: Seq<char>, reply_enabled: bool },
    Discord {
        token: Seq<char>,
        channel_id: Seq<char>,
        reply_enabled: bool,
        bot_user_id: Option<Seq<char>>,
    },
    GitHub {
        repo: Seq<char>,
        label: Seq<char>,
        token: Seq<char>,
        allowed_logins: Seq<Seq<char>>,
        reply_enabled: bool,
        poll_seconds: u64,
    },
    JadeRelay {
        api_base: Seq<char>,
        token: Seq<char>,
        token_id: Option<Seq<char>>,
        user_id: Seq<char>,
        session_id: Seq<char>,
        reply_enabled: bool,
    },
}

impl View for Channel {
    type V = ChannelView;

    open spec fn view(&self) -> ChannelView {
        match *self {
            Channel::Telegram(c) => ChannelView::Telegram {
                token: c.token@,
                chat_id: c.chat_id@,
                reply_enabled: c.reply_enabled,
            },
            Channel::Discord(c) => ChannelView::Discord {
                token: c.token@,
                channel_id: c.channel_id@,
                reply_enabled: c.reply_enabled,
                bot_user_id: opt_view(c.bot_user_id),
            },
            Channel::GitHub(c) => ChannelView::GitHub {
                repo: c.repo@,
                label: c.label@,
                token: c.token@,
                allowed_logins: views(c.allowed_logins@),
                reply_enabled: c.reply_enabled,
                poll_seconds: c.poll_seconds,
            },
            Channel::JadeRelay(c) => ChannelView::JadeRelay {
                api_base: c.api_base@,
                token: c.token@,
                token_id: opt_view(c.token_id),
                user_id: c.user_id@,
                session_id: c.session_id@,
                reply_enabled: c.reply_enabled,
            },
        }
    }
}

/// The name of a channel.
pub open spec fn name_of(c: ChannelView) -> Seq<char> {
    match c {
        ChannelView::Telegram { .. } => "telegram"@,
        ChannelView::Discord { .. } => "discord"@,
        ChannelView::GitHub { .. } => "github"@,
        ChannelView::JadeRelay { .. } => "jade_relay"@,
    }
}

/// Replies on the channel are polled for. Those on the relay are not: they have
/// a listener of their own, which works without ambient mode.
pub open spec fn polls_replies(c: ChannelView) -> bool {
    match c {
        ChannelView::Telegram { reply_enabled, .. } => reply_enabled,
        ChannelView::Discord { reply_enabled, .. } => reply_enabled,
        ChannelView::GitHub { reply_enabled, .. } => reply_enabled,
        ChannelView::JadeRelay { .. } => false,
    }
}

impl Channel {
    pub fn name(&self) -> (r: &'static str)
        ensures
            r@ == name_of(self@),
    {
        match self {
            Channel::Telegram(_) => "telegram",
            Channel::Discord(_) => "discord",
            Channel::GitHub(_) => "github",
            Channel::JadeRelay(_) => "jade_relay",
        }
    }

    /// Every channel that is set up sends.
    pub fn is_send_enabled(&self) -> (r: bool)
        ensures
            r,
    {
        true
    }

    /// Whether replies on the channel are polled for.
    pub fn is_reply_enabled(&self) -> (r: bool)
        ensures
            r == polls_replies(self@),
    {
        match self {
            Channel::Telegram(c) => c.reply_enabled,
            Channel::Discord(c) => c.reply_enabled,
            Channel::GitHub(c) => c.reply_enabled,
            Channel::JadeRelay(_) => false,
        }
    }
}

/// The Telegram channel of the configuration, if it is complete.
pub open spec fn telegram_of(config: SafetyConfig) -> Seq<ChannelView> {
    match (config.telegram_bot_token, config.telegram_chat_id) {
        (Some(token), Some(chat_id)) if config.telegram_enabled => seq![
            ChannelView::Telegram {
                token: token@,
                chat_id: chat_id@,
                reply_enabled: config.telegram_reply_enabled,
            },
        ],
        _ => Seq::empty(),
    }
}

/// The Discord channel of the configuration, if it is complete.
pub open spec fn discord_of(config: SafetyConfig) -> Seq<ChannelView> {
    match (config.discord_bot_token, config.discord_channel_id) {
        (Some(token), Some(channel_id)) if config.discord_enabled => seq![
            ChannelView::Discord {
                token: token@,
                channel_id: channel_id@,
                reply_enabled: config.discord_reply_enabled,
                bot_user_id: opt_view(config.discord_bot_user_id),
            },
        ],
        _ => Seq::empty(),
    }
}

/// The GitHub channel of the configuration, if it is complete.
pub open spec fn github_of(config: SafetyConfig, sources: TokenSources) -> Seq<ChannelView> {
    match (config.github_repo, token_of(opt_view(config.github_token), sources)) {
        (Some(repo), Some(token)) if config.github_enabled => seq![
            ChannelView::GitHub {
                repo: repo@,
                label: config.github_label@,
                token,
                allowed_logins: views(config.github_allowed_logins@),
                reply_enabled: config.github_reply_enabled,
                poll_seconds: if config.github_poll_seconds < MIN_POLL_SECS {
                    MIN_POLL_SECS
                } else {
                    config.github_poll_seconds
                },
            },
        ],
        _ => Seq::empty(),
    }
}

/// The user that the relay knows: the configured one, or else the one that the
/// token names.
pub open spec fn relay_user(config: SafetyConfig) -> Seq<char> {
    match (config.jade_relay_user_id, config.jade_relay_token_id) {
        (Some(u), _) => u@,
        (None, Some(t)) => t@,
        (None, None) => "default"@,
    }
}

/// The relay of the configuration, if it is complete.
pub open spec fn jade_of(config: SafetyConfig) -> Seq<ChannelView> {
    match (config.jade_relay_api_base, config.jade_relay_token, config.jade_relay_session_id) {
        (Some(api_base), Some(token), Some(session_id)) if config.jade_relay_enabled => seq![
            ChannelView::JadeRelay {
                api_base: with_slash(api_base@),
                token: token@,
                token_id: opt_view(config.jade_relay_token_id),
                user_id: relay_user(config),
                session_id: session_id@,
                reply_enabled: config.jade_relay_reply_enabled,
            },
        ],
        _ => Seq::empty(),
    }
}

/// The channels that the configuration sets up. One that is incomplete is left
/// out rather than set up by half.
pub open spec fn configured(config: SafetyConfig, sources: TokenSources) -> Seq<ChannelView> {
    telegram_of(config) + discord_of(config) + github_of(config, sources) + jade_of(config)
}

pub open spec fn channel_views(cs: Seq<Channel>) -> Seq<ChannelView> {
    cs.map_values(|c: Channel| c@)
}

/// The channels that are set up.
#[derive(Debug)]
pub struct ChannelRegistry {
    pub channels: Vec<Channel>,
}

fn add_channel(out: &mut Vec<Channel>, c: Channel)
    ensures
        channel_views(final(out)@) == channel_views(old(out)@) + seq![c@],
{
    out.push(c);
    assert(channel_views(out@) =~= channel_views(old(out)@) + seq![c@]);
}

impl ChannelRegistry {
    /// Sets up the channels of the configuration. `sources` are where a GitHub
    /// token may come from besides the configuration.
    pub fn from_config(config: &SafetyConfig, sources: &TokenSources) -> (r: ChannelRegistry)
        ensures
            channel_views(r.channels@) == configured(*config, *sources),
    {
        let mut channels: Vec<Channel> = Vec::new();
        assert(channel_views(channels@) =~= Seq::<ChannelView>::empty());
        if config.telegram_enabled {
            if let (Some(token), Some(chat_id)) = (
                &config.telegram_bot_token,
                &config.telegram_chat_id,
            ) {
                let c = TelegramChannel::new(
                    token.clone(),
                    chat_id.clone(),
                    config.telegram_reply_enabled,
                );
                add_channel(&mut channels, Channel::Telegram(c));
            }
        }
        assert(channel_views(channels@) =~= telegram_of(*config));
        if config.discord_enabled {
            if let (Some(token), Some(channel_id)) = (
                &config.discord_bot_token,
                &config.discord_channel_id,
            ) {
                let c = DiscordChannel::new(
                    token.clone(),
                    channel_id.clone(),
                    config.discord_reply_enabled,
                    opt_clone(&config.discord_bot_user_id),
                );
                add_channel(&mut channels, Channel::Discord(c));
            }
        }
        assert(channel_views(channels@) =~= telegram_of(*config) + discord_of(*config));
        if config.github_enabled {
            let given: Option<&str> = match &config.github_token {
                Some(t) => Some(t.as_str()),
                None => None,
            };
            if let (Some(repo), Some(token)) = (
                &config.github_repo,
                GitHubChannel::resolve_token(given, sources),
            ) {
                let c = GitHubChannel::new(
                    repo.clone(),
                    config.github_label.clone(),
                    token,
                    copy_texts(&config.github_allowed_logins),
                    config.github_reply_enabled,
                    config.github_poll_seconds,
                );
                add_channel(&mut channels, Channel::GitHub(c));
            }
        }
        assert(channel_views(channels@) =~= telegram_of(*config) + discord_of(*config) + github_of(
            *config,
            *sources,
        ));
        if config.jade_relay_enabled {
            if let (Some(api_base), Some(token), Some(session_id)) = (
                &config.jade_relay_api_base,
                &config.jade_relay_token,
                &config.jade_relay_session_id,
            ) {
                let user_id = match (&config.jade_relay_user_id, &config.jade_relay_token_id) {
                    (Some(u), _) => u.clone(),
                    (None, Some(t)) => t.clone(),
                    (None, None) => owned("default"),
                };
                let c = JadeRelayChannel::new(
                    api_base.clone(),
                    token.clone(),
                    opt_clone(&config.jade_relay_token_id),
                    user_id,
                    session_id.clone(),
                    config.jade_relay_reply_enabled,
                );
                add_channel(&mut channels, Channel::JadeRelay(c));
            }
        }
        assert(channel_views(channels@) =~= configured(*config, *sources));
        ChannelRegistry { channels }
    }

    pub fn channel_names(&self) -> (r: Vec<String>)
        ensures
            r@.len() == self.channels@.len(),
            forall|i: int|
                0 <= i < r@.len() ==> (#[trigger] r@[i])@ == name_of(self.channels@[i]@),
    {
        let mut out: Vec<String> = Vec::new();
        let mut i: usize = 0;
        while i < self.channels.len()
            invariant
                i <= self.channels@.len(),
                out@.len() == i,
                forall|j: int|
                    0 <= j < i ==> (#[trigger] out@[j])@ == name_of(self.channels@[j]@),
            decreases self.channels@.len() - i,
        {
            out.push(owned(self.channels[i].name()));
            i = i + 1;
        }
        out
    }

    /// The first channel with the given name.
    pub fn find_by_name(&self, name: &str) -> (r: Option<&Channel>)
        ensures
            match r {
                Some(c) => exists|k: int|
                    {
                        &&& 0 <= k < self.channels@.len()
                        &&& #[trigger] self.channels@[k] == *c
                        &&& name_of(c@) == name@
                        &&& forall|j: int|
                            0 <= j < k ==> name_of((#[trigger] self.channels@[j])@) != name@
                    },
                None => forall|j: int|
                    0 <= j < self.channels@.len() ==> name_of((#[trigger] self.channels@[j])@)
                        != name@,
            },
    {
        let mut i: usize = 0;
        while i < self.channels.len()
            invariant
                i <= self.channels@.len(),
                forall|j: int| 0 <= j < i ==> name_of((#[trigger] self.channels@[j])@) != name@,
            decreases self.channels@.len() - i,
        {
            if str_eq(self.channels[i].name(), name) {
                return Some(&self.channels[i]);
            }
            i = i + 1;
        }
        None
    }

    /// The places of the channels that messages are sent on: all of them.
    pub fn send_enabled(&self) -> (r: Vec<usize>)
        ensures
            r@ == Seq::new(self.channels@.len(), |i: int| i as usize),
    {
        let mut out: Vec<usize> = Vec::new();
        let mut i: usize = 0;
        while i < self.channels.len()
            invariant
                i <= self.channels@.len(),
                out@ == Seq::new(i as nat, |i: int| i as usize),
            decreases self.channels@.len() - i,
        {
            if self.channels[i].is_send_enabled() {
                out.push(i);
            }
            i = i + 1;
            assert(out@ =~= Seq::new(i as nat, |i: int| i as usize));
        }
        out
    }

    /// The places of the channels whose replies are polled for, in order.
    pub fn reply_enabled(&self) -> (r: Vec<usize>)
        ensures
            forall|k: int|
                0 <= k < r@.len() ==> (#[trigger] r@[k]) < self.channels@.len() && polls_replies(
                    self.channels@[r@[k] as int]@,
                ),
            forall|a: int, b: int| 0 <= a < b < r@.len() ==> (#[trigger] r@[a]) < (#[trigger] r@[b]),
            forall|i: int|
                0 <= i < self.channels@.len() && polls_replies((#[trigger] self.channels@[i])@)
                    ==> r@.contains(i as usize),
    {
        let mut out: Vec<usize> = Vec::new();
        let mut i: usize = 0;
        while i < self.channels.len()
            invariant
                i <= self.channels@.len(),
                forall|k: int|
                    0 <= k < out@.len() ==> (#[trigger] out@[k]) < i && polls_replies(
                        self.channels@[out@[k] as int]@,
                    ),
                forall|a: int, b: int|
                    0 <= a < b < out@.len() ==> (#[trigger] out@[a]) < (#[trigger] out@[b]),
                forall|j: int|
                    0 <= j < i && polls_replies((#[trigger] self.channels@[j])@) ==> out@.contains(
                        j as usize,
                    ),
            decreases self.channels@.len() - i,
        {
            if self.channels[i].is_reply_enabled() {
                let ghost was = out@;
                out.push(i);
                proof {
                    assert(out@[was.len() as int] == i);
                    assert forall|j: int|
                        0 <= j <= i && polls_replies(
                            (#[trigger] self.channels@[j])@,
                        ) implies out@.contains(j as usize) by {
                        if j < i {
                            let k = was.index_of(j as usize);
                            assert(out@[k] == j as usize);
                        }
                    }
                }
            }
            i = i + 1;
        }
        out
    }
}

/// No channel is set up twice, so that a name leads to one channel.
pub proof fn names_are_distinct(config: SafetyConfig, sources: TokenSources)
    ensures
        forall|i: int, j: int|
            0 <= i < j < configured(config, sources).len() ==> name_of(
                #[trigger] configured(config, sources)[i],
            ) != name_of(#[trigger] configured(config, sources)[j]),
{
    reveal_strlit("telegram");
    reveal_strlit("discord");
    reveal_strlit("github");
    reveal_strlit("jade_relay");
    assert("telegram"@.len() == 8 && "discord"@.len() == 7);
    assert("github"@.len() == 6 && "jade_relay"@.len() == 10);
}

/// A channel is set up exactly when it is switched on and complete, with what the
/// configuration says of it.
pub proof fn complete_channels_are_set_up(config: SafetyConfig, sources: TokenSources, c: ChannelView)
    ensures
        configured(config, sources).contains(c) <==> match c {
            ChannelView::Telegram { token, chat_id, reply_enabled } => {
                &&& config.telegram_enabled
                &&& opt_view(config.telegram_bot_token) == Some(token)
                &&& opt_view(config.telegram_chat_id) == Some(chat_id)
                &&& reply_enabled == config.telegram_reply_enabled
            },
            ChannelView::Discord { token, channel_id, reply_enabled, bot_user_id } => {
                &&& config.discord_enabled
                &&& opt_view(config.discord_bot_token) == Some(token)
                &&& opt_view(config.discord_channel_id) == Some(channel_id)
                &&& reply_enabled == config.discord_reply_enabled
                &&& bot_user_id == opt_view(config.discord_bot_user_id)
            },
            ChannelView::GitHub {
                repo,
                label,
                token,
                allowed_logins,
                reply_enabled,
                poll_seconds,
            } => {
                &&& config.github_enabled
                &&& opt_view(config.github_repo) == Some(repo)
                &&& label == config.github_label@
                &&& token_of(opt_view(config.github_token), sources) == Some(token)
                &&& allowed_logins == views(config.github_allowed_logins@)
                &&& reply_enabled == config.github_reply_enabled
                &&& poll_seconds == (if config.github_poll_seconds >= 5 {
                    config.github_poll_seconds
                } else {
                    5
                })
            },
            ChannelView::JadeRelay {
                api_base,
                token,
                token_id,
                user_id,
                session_id,
                reply_enabled,
            } => {
                &&& config.jade_relay_enabled
                &&& config.jade_relay_api_base matches Some(base) && api_base == with_slash(base@)
                &&& opt_view(config.jade_relay_token) == Some(token)
                &&& opt_view(config.jade_relay_session_id) == Some(session_id)
                &&& token_id == opt_view(config.jade_relay_token_id)
                &&& reply_enabled == config.jade_relay_reply_enabled
                &&& user_id == (match config.jade_relay_user_id {
                    Some(u) => u@,
                    None => match config.jade_relay_token_id {
                        Some(t) => t@,
                        None => "default"@,
                    },
                })
            },
        },
{
    let t = telegram_of(config);
    let d = discord_of(config);
    let g = github_of(config, sources);
    let j = jade_of(config);
    parts_contain(t + d + g, j, c);
    parts_contain(t + d, g, c);
    parts_contain(t, d, c);
    if t.len() > 0 {
        assert(t[0] == t[0]);
        assert(t.contains(t[0]));
    }
    if d.len() > 0 {
        assert(d.contains(d[0]));
    }
    if g.len() > 0 {
        assert(g.contains(g[0]));
    }
    if j.len() > 0 {
        assert(j.contains(j[0]));
    }
}

proof fn parts_contain(a: Seq<ChannelView>, b: Seq<ChannelView>, c: ChannelView)
    ensures
        (a + b).contains(c) <==> a.contains(c) || b.contains(c),
{
    if a.contains(c) {
        let i = a.index_of(c);
        assert((a + b)[i] == c);
    }
    if b.contains(c) {
        let i = b.index_of(c);
        assert((a + b)[a.len() + i] == c);
    }
}

} // verus!
