//! The GitHub channel: one issue per topic, whose comments are read back.

use crate::ambient::projects::{final_segment, last_segment};
use crate::channel::encoding::{
    drop_leading, dropped, leading_leaves_the_end, url_encoded, urlencoding_encode,
    without_leading, Leading,
};
use crate::clock;
use crate::clock::{rfc3339, rfc3339_of};
use crate::numerals::{dec, parse_u64, push_dec, spelled_up_to};
use crate::text::{
    ascii_lower, before_first, before_first_unique, chars_of, eq_ignore_case, opt_str_view, opt_view, owned, slice_chars,
    split_once, str_lt, text_lt, text_lt_total, text_lt_transitive, trim, trimmed, views,
};
use crate::time::Timestamp;
use vstd::prelude::*;

verus! {

/// The shortest time between polls, in seconds.
pub const MIN_POLL_SECS: u64 = 5;

/// The longest title of a topic, in characters.
pub const MAX_TITLE_CHARS: usize = 120;

/// The title of a topic whose message has none.
pub const DEFAULT_TITLE: &'static str = "Ambient update";

/// A repository whose issues carry the topics.
#[derive(Debug)]
pub struct GitHubChannel {
    pub repo: String,
    pub label: String,
    pub token: String,
    /// Logins that may give directives. When there are none, anyone may but the
    /// account that posts.
    pub allowed_logins: Vec<String>,
    pub reply_enabled: bool,
    pub poll_seconds: u64,
}

#[derive(Debug, Clone)]
pub struct GitHubComment {
    pub body: String,
    pub created_at: String,
    pub issue_url: String,
    pub user: Option<GitHubCommentUser>,
}

#[derive(Debug, Clone)]
pub struct GitHubCommentUser {
    pub login: String,
}

/// A comment meant for the agent.
#[derive(Debug)]
pub struct TopicMessage {
    pub issue: u64,
    pub login: String,
    pub text: String,
}

pub struct TopicMessageView {
    pub issue: u64,
    pub login: Seq<char>,
    pub text: Seq<char>,
}

// ---------------------------------------------------------------------------
// Text
// ---------------------------------------------------------------------------

/// The first line of a text.
pub open spec fn first_line(s: Seq<char>) -> Seq<char> {
    s.take(before_first(s, '\n') as int)
}

/// What a message is cut down to for its title.
pub open spec fn title_text(s: Seq<char>) -> Seq<char> {
    let line = without_leading(trimmed(first_line(trimmed(s))), dropped(Leading::Marks));
    trimmed(
        if line.len() <= MAX_TITLE_CHARS {
            line
        } else {
            line.take(MAX_TITLE_CHARS as int)
        },
    )
}

/// The title of the topic that a message opens: its first line, without the
/// marks of a heading or a list, and not too long.
pub open spec fn title_of(s: Seq<char>) -> Seq<char> {
    if title_text(s).len() == 0 {
        DEFAULT_TITLE@
    } else {
        title_text(s)
    }
}

/// Splits a message into the title and the body of a topic. The body keeps the
/// whole message.
pub fn split_title_body(text: &str) -> (r: (String, String))
    ensures
        r.0@ == title_of(text@),
        r.1@ == trimmed(text@),
{
    let whole = trim(text);
    let line: &str = match split_once(whole, '\n') {
        Some((first, _)) => first,
        None => whole,
    };
    proof {
        crate::text::before_first_is_first(whole@, '\n');
        assert(line@ =~= first_line(whole@));
    }
    let bare = drop_leading(trim(line), Leading::Marks);
    let v = chars_of(bare.as_str());
    let cut = if v.len() <= MAX_TITLE_CHARS {
        bare
    } else {
        let c = slice_chars(v.as_slice(), 0, MAX_TITLE_CHARS);
        assert(c@ =~= bare@.take(MAX_TITLE_CHARS as int));
        c
    };
    let title = trim(cut.as_str());
    if title.unicode_len() == 0 {
        (owned(DEFAULT_TITLE), owned(whole))
    } else {
        (owned(title), owned(whole))
    }
}

/// A topic always has a title, which is not too long, is one line and has no
/// white space around it.
pub proof fn titles_are_acceptable(s: Seq<char>)
    ensures
        0 < title_of(s).len() <= MAX_TITLE_CHARS,
        trimmed(title_of(s)) == title_of(s),
        forall|i: int| 0 <= i < title_of(s).len() ==> title_of(s)[i] != '\n',
{
    reveal_strlit("Ambient update");
    let first = first_line(trimmed(s));
    let line = without_leading(trimmed(first), dropped(Leading::Marks));
    let cut = if line.len() <= MAX_TITLE_CHARS {
        line
    } else {
        line.take(MAX_TITLE_CHARS as int)
    };
    crate::text::before_first_is_first(trimmed(s), '\n');
    crate::text::trimmed_has_no_outer_space(first);
    leading_leaves_the_end(trimmed(first), dropped(Leading::Marks));
    crate::text::trimmed_has_no_outer_space(cut);
    crate::text::trimming_is_done_once(cut);
    let (i, j) = choose|i: int, j: int|
        0 <= i <= j <= first.len() && trimmed(first) == #[trigger] first.subrange(i, j);
    let k: int = trimmed(first).len() - line.len();
    let (m, n) = choose|m: int, n: int|
        0 <= m <= n <= cut.len() && trimmed(cut) == #[trigger] cut.subrange(m, n);
    assert forall|x: int| 0 <= x < title_of(s).len() implies title_of(s)[x] != '\n' by {
        if title_text(s).len() > 0 {
            assert(title_of(s)[x] == cut[m + x]);
            assert(cut[m + x] == line[m + x]);
            assert(line[m + x] == trimmed(first)[k + m + x]);
            assert(trimmed(first)[k + m + x] == first[i + k + m + x]);
        }
    }
}

/// The body of a topic opens the same topic: splitting it again gives the same
/// title and the same body.
pub proof fn a_body_splits_like_its_message(s: Seq<char>)
    ensures
        title_of(trimmed(s)) == title_of(s),
        trimmed(trimmed(s)) == trimmed(s),
{
    crate::text::trimming_is_done_once(s);
}

/// The number of the issue that a URL leads to.
pub open spec fn issue_in_url(url: Seq<char>) -> Option<nat> {
    spelled_up_to(last_segment(url), u64::MAX as nat)
}

/// Reads the number of the issue out of a comment's `issue_url`.
pub fn issue_number_from_url(url: &str) -> (r: Option<u64>)
    ensures
        match r {
            Some(n) => issue_in_url(url@) == Some(n as nat),
            None => issue_in_url(url@) is None,
        },
{
    parse_u64(final_segment(url).as_str())
}

/// The issue that a thread names, with or without hash marks before the number.
pub open spec fn issue_in_thread(thread: Seq<char>) -> Option<nat> {
    spelled_up_to(without_leading(trimmed(thread), dropped(Leading::Hashes)), u64::MAX as nat)
}

/// The issue that a thread names, or why it names none.
pub fn thread_issue(thread: &str) -> (r: Result<u64, String>)
    ensures
        match r {
            Ok(n) => issue_in_thread(thread@) == Some(n as nat),
            Err(e) => issue_in_thread(thread@) is None && e@ == "invalid GitHub issue number: "@
                + thread@,
        },
{
    let bare = drop_leading(trim(thread), Leading::Hashes);
    match parse_u64(bare.as_str()) {
        Some(n) => Ok(n),
        None => {
            let mut e = owned("invalid GitHub issue number: ");
            e.append(thread);
            Err(e)
        },
    }
}

// ---------------------------------------------------------------------------
// Credentials
// ---------------------------------------------------------------------------

/// A token that is not blank, without the white space around it.
pub open spec fn usable(token: Option<Seq<char>>) -> Option<Seq<char>> {
    match token {
        Some(t) => if trimmed(t).len() > 0 {
            Some(trimmed(t))
        } else {
            None
        },
        None => None,
    }
}

pub open spec fn first_usable(a: Option<Seq<char>>, b: Option<Seq<char>>) -> Option<Seq<char>> {
    if usable(a) is Some {
        usable(a)
    } else {
        usable(b)
    }
}

/// Where a token may come from besides the configuration.
#[derive(Debug)]
pub struct TokenSources {
    /// The environment's `GITHUB_TOKEN`.
    pub github_token: Option<String>,
    /// The environment's `GH_TOKEN`.
    pub gh_token: Option<String>,
    /// What the `gh` command line tool prints, when it succeeds.
    pub gh_cli: Option<String>,
}

/// The token to use: the configured one, or else that of the environment, or
/// else that of the command line tool.
pub open spec fn token_of(configured: Option<Seq<char>>, sources: TokenSources) -> Option<Seq<char>> {
    match usable(configured) {
        Some(t) => Some(t),
        None => match first_usable(opt_view(sources.github_token), opt_view(sources.gh_token)) {
            Some(t) => Some(t),
            None => usable(opt_view(sources.gh_cli)),
        },
    }
}

fn usable_token(token: Option<&str>) -> (r: Option<String>)
    ensures
        opt_view(r) == usable(opt_str_view(token)),
{
    match token {
        Some(t) => {
            let bare = trim(t);
            if bare.unicode_len() > 0 {
                Some(owned(bare))
            } else {
                None
            }
        },
        None => None,
    }
}

fn as_str_opt(s: &Option<String>) -> (r: Option<&str>)
    ensures
        opt_str_view(r) == opt_view(*s),
{
    match s {
        Some(t) => Some(t.as_str()),
        None => None,
    }
}

/// The login of a comment's author; empty when it is not known.
pub open spec fn author_of(c: GitHubComment) -> Seq<char> {
    match c.user {
        Some(u) => u.login@,
        None => Seq::empty(),
    }
}

/// The login may give directives.
pub open spec fn may_direct(
    allowed: Seq<Seq<char>>,
    login: Seq<char>,
    viewer: Option<Seq<char>>,
) -> bool {
    if allowed.len() > 0 {
        exists|i: int|
            0 <= i < allowed.len() && ascii_lower(#[trigger] allowed[i]) == ascii_lower(login)
    } else {
        match viewer {
            Some(v) => ascii_lower(v) != ascii_lower(login),
            None => true,
        }
    }
}

/// What a comment says to the agent, if anything: one on an open topic, by
/// someone who may give directives.
pub open spec fn said(
    c: GitHubComment,
    topics: Seq<u64>,
    allowed: Seq<Seq<char>>,
    viewer: Option<Seq<char>>,
) -> Option<TopicMessageView> {
    match issue_in_url(c.issue_url@) {
        Some(n) => if topics.contains(n as u64) && may_direct(allowed, author_of(c), viewer)
            && trimmed(c.body@).len() > 0 {
            Some(
                TopicMessageView { issue: n as u64, login: author_of(c), text: trimmed(c.body@) },
            )
        } else {
            None
        },
        None => None,
    }
}

/// What the comments say to the agent, in order.
pub open spec fn all_said(
    cs: Seq<GitHubComment>,
    topics: Seq<u64>,
    allowed: Seq<Seq<char>>,
    viewer: Option<Seq<char>>,
) -> Seq<TopicMessageView>
    decreases cs.len(),
{
    if cs.len() == 0 {
        Seq::empty()
    } else {
        let rest = all_said(cs.drop_last(), topics, allowed, viewer);
        match said(cs.last(), topics, allowed, viewer) {
            Some(m) => rest.push(m),
            None => rest,
        }
    }
}

/// The latest creation time among the comments and what was seen before.
pub open spec fn latest_seen(since: Seq<char>, cs: Seq<GitHubComment>) -> Seq<char>
    decreases cs.len(),
{
    if cs.len() == 0 {
        since
    } else {
        let rest = latest_seen(since, cs.drop_last());
        if text_lt(rest, cs.last().created_at@) {
            cs.last().created_at@
        } else {
            rest
        }
    }
}

pub open spec fn topic_views(ms: Seq<TopicMessage>) -> Seq<TopicMessageView> {
    ms.map_values(
        |m: TopicMessage|
            TopicMessageView { issue: m.issue, login: m.login@, text: m.text@ },
    )
}

pub open spec fn repo_url(repo: Seq<char>) -> Seq<char> {
    "https://api.github.com/repos/"@ + repo + "/issues"@
}

impl GitHubChannel {
    pub fn new(
        repo: String,
        label: String,
        token: String,
        allowed_logins: Vec<String>,
        reply_enabled: bool,
        poll_seconds: u64,
    ) -> (r: GitHubChannel)
        ensures
            r.repo == repo && r.label == label && r.token == token,
            r.allowed_logins == allowed_logins && r.reply_enabled == reply_enabled,
            r.poll_seconds == (if poll_seconds < MIN_POLL_SECS {
                MIN_POLL_SECS
            } else {
                poll_seconds
            }),
    {
        GitHubChannel {
            repo,
            label,
            token,
            allowed_logins,
            reply_enabled,
            poll_seconds: if poll_seconds < MIN_POLL_SECS {
                MIN_POLL_SECS
            } else {
                poll_seconds
            },
        }
    }

    /// The token to use.
    pub fn resolve_token(configured: Option<&str>, sources: &TokenSources) -> (r: Option<String>)
        ensures
            opt_view(r) == token_of(opt_str_view(configured), *sources),
    {
        if let Some(t) = usable_token(configured) {
            return Some(t);
        }
        if let Some(t) = usable_token(as_str_opt(&sources.github_token)) {
            return Some(t);
        }
        if let Some(t) = usable_token(as_str_opt(&sources.gh_token)) {
            return Some(t);
        }
        usable_token(as_str_opt(&sources.gh_cli))
    }

    /// The authorization of a request.
    pub fn authorization(&self) -> (r: String)
        ensures
            r@ == "Bearer "@ + self.token@,
    {
        let mut out = owned("Bearer ");
        out.append(self.token.as_str());
        out
    }

    /// Where topics are opened.
    pub fn issues_url(&self) -> (r: String)
        ensures
            r@ == repo_url(self.repo@),
    {
        let mut url = owned("https://api.github.com/repos/");
        url.append(self.repo.as_str());
        url.append("/issues");
        url
    }

    /// Where a topic stands.
    pub fn issue_url(&self, issue: u64) -> (r: String)
        ensures
            r@ == repo_url(self.repo@) + "/"@ + dec(issue as nat),
    {
        let mut url = self.issues_url();
        url.append("/");
        push_dec(&mut url, issue);
        url
    }

    /// Where a topic is commented on.
    pub fn comments_url(&self, issue: u64) -> (r: String)
        ensures
            r@ == repo_url(self.repo@) + "/"@ + dec(issue as nat) + "/comments"@,
    {
        let mut url = self.issue_url(issue);
        url.append("/comments");
        url
    }

    /// Where the open topics are listed.
    pub fn topics_url(&self) -> (r: String)
        ensures
            r@ == repo_url(self.repo@) + "?state=open&labels="@ + url_encoded(self.label@)
                + "&per_page=100"@,
    {
        let mut url = self.issues_url();
        url.append("?state=open&labels=");
        let label = urlencoding_encode(self.label.as_str());
        url.append(label.as_str());
        url.append("&per_page=100");
        url
    }

    /// Where comments since a time are read.
    pub fn poll_url(&self, since: &str) -> (r: String)
        ensures
            r@ == repo_url(self.repo@) + "/comments?since="@ + url_encoded(since@)
                + "&per_page=100&sort=created&direction=asc"@,
    {
        let mut url = self.issues_url();
        url.append("/comments?since=");
        let from = urlencoding_encode(since);
        url.append(from.as_str());
        url.append("&per_page=100&sort=created&direction=asc");
        url
    }

    /// Whether a login may give directives.
    pub fn is_allowed(&self, login: &str, viewer: Option<&str>) -> (r: bool)
        ensures
            r == may_direct(views(self.allowed_logins@), login@, opt_str_view(viewer)),
    {
        let ghost all = views(self.allowed_logins@);
        if self.allowed_logins.len() > 0 {
            let mut i: usize = 0;
            while i < self.allowed_logins.len()
                invariant
                    i <= self.allowed_logins@.len(),
                    all == views(self.allowed_logins@),
                    forall|j: int|
                        0 <= j < i ==> ascii_lower(#[trigger] all[j]) != ascii_lower(login@),
                decreases self.allowed_logins@.len() - i,
            {
                assert(all[i as int] == self.allowed_logins@[i as int]@);
                if eq_ignore_case(self.allowed_logins[i].as_str(), login) {
                    assert(all.len() > 0);
                    return true;
                }
                i = i + 1;
            }
            assert(all.len() > 0);
            return false;
        }
        match viewer {
            Some(v) => !eq_ignore_case(v, login),
            None => true,
        }
    }

    /// What a comment says to the agent, if anything.
    fn message_of(&self, c: &GitHubComment, topics: &Vec<u64>, viewer: Option<&str>) -> (r: Option<
        TopicMessage,
    >)
        ensures
            match r {
                Some(m) => said(*c, topics@, views(self.allowed_logins@), opt_str_view(viewer))
                    == Some(TopicMessageView { issue: m.issue, login: m.login@, text: m.text@ }),
                None => said(*c, topics@, views(self.allowed_logins@), opt_str_view(viewer)) is None,
            },
    {
        let issue = match issue_number_from_url(c.issue_url.as_str()) {
            Some(n) => n,
            None => {
                return None;
            },
        };
        if !lists_topic(topics, issue) {
            return None;
        }
        let login = match &c.user {
            Some(u) => u.login.clone(),
            None => String::new(),
        };
        assert(login@ =~= author_of(*c));
        if !self.is_allowed(login.as_str(), viewer) {
            return None;
        }
        let text = trim(c.body.as_str());
        if text.unicode_len() == 0 {
            return None;
        }
        Some(TopicMessage { issue, login, text: owned(text) })
    }

    /// Takes in a poll's comments: returns what they say to the agent, in order.
    /// `since` moves to the latest of them.
    pub fn take_comments(
        &self,
        since: &mut String,
        comments: &Vec<GitHubComment>,
        topics: &Vec<u64>,
        viewer: Option<&str>,
    ) -> (r: Vec<TopicMessage>)
        ensures
            final(since)@ == latest_seen(old(since)@, comments@),
            topic_views(r@) == all_said(
                comments@,
                topics@,
                views(self.allowed_logins@),
                opt_str_view(viewer),
            ),
    {
        let mut out: Vec<TopicMessage> = Vec::new();
        let mut i: usize = 0;
        assert(comments@.take(0) =~= Seq::<GitHubComment>::empty());
        assert(topic_views(out@) =~= Seq::<TopicMessageView>::empty());
        while i < comments.len()
            invariant
                i <= comments@.len(),
                since@ == latest_seen(old(since)@, comments@.take(i as int)),
                topic_views(out@) == all_said(
                    comments@.take(i as int),
                    topics@,
                    views(self.allowed_logins@),
                    opt_str_view(viewer),
                ),
            decreases comments@.len() - i,
        {
            assert(comments@.take(i + 1).drop_last() =~= comments@.take(i as int));
            assert(comments@.take(i + 1).last() == comments@[i as int]);
            let c = &comments[i];
            if str_lt(since.as_str(), c.created_at.as_str()) {
                *since = c.created_at.clone();
            }
            if let Some(m) = self.message_of(c, topics, viewer) {
                let ghost was = out@;
                let ghost v = TopicMessageView { issue: m.issue, login: m.login@, text: m.text@ };
                out.push(m);
                assert(topic_views(out@) =~= topic_views(was).push(v));
            }
            i = i + 1;
        }
        assert(comments@.take(comments@.len() as int) =~= comments@);
        out
    }

    /// Since when comments are read: since now, so that an old backlog is not
    /// taken for news.
    pub fn starting_point() -> (r: String)
        ensures
            exists|now: Timestamp| #[trigger] now.valid() && r@ == rfc3339_of(now),
    {
        let now = clock::now();
        rfc3339(&now)
    }
}

fn lists_topic(topics: &Vec<u64>, issue: u64) -> (r: bool)
    ensures
        r == topics@.contains(issue),
{
    let mut i: usize = 0;
    while i < topics.len()
        invariant
            i <= topics@.len(),
            forall|j: int| 0 <= j < i ==> topics@[j] != issue,
        decreases topics@.len() - i,
    {
        if topics[i] == issue {
            return true;
        }
        i = i + 1;
    }
    false
}

/// The agent never answers itself: without a list of logins, a comment of the
/// account that posts says nothing to it, however its name is spelled.
pub proof fn own_comments_are_ignored(c: GitHubComment, topics: Seq<u64>, viewer: Seq<char>)
    requires
        ascii_lower(viewer) == ascii_lower(author_of(c)),
    ensures
        said(c, topics, Seq::empty(), Some(viewer)) is None,
{
}

/// Comments on other issues than the open topics say nothing to the agent.
pub proof fn other_issues_are_ignored(
    c: GitHubComment,
    topics: Seq<u64>,
    allowed: Seq<Seq<char>>,
    viewer: Option<Seq<char>>,
)
    requires
        issue_in_url(c.issue_url@) matches Some(n) ==> !topics.contains(n as u64),
    ensures
        said(c, topics, allowed, viewer) is None,
{
}

/// A comment says something to the agent exactly when it stands on an open topic,
/// is not blank, and is by someone who may direct the agent: one of the listed
/// logins, in any letter case, or, when none is listed, anyone but the account
/// that posts. What it says is its text without the white space around it, with
/// its topic and its author.
pub proof fn directives_are_heard(
    cs: Seq<GitHubComment>,
    c: GitHubComment,
    topics: Seq<u64>,
    allowed: Seq<Seq<char>>,
    viewer: Option<Seq<char>>,
)
    ensures
        all_said(Seq::empty(), topics, allowed, viewer).len() == 0,
        ({
            let login = match c.user {
                Some(u) => u.login@,
                None => Seq::<char>::empty(),
            };
            let listed = exists|i: int|
                0 <= i < allowed.len() && ascii_lower(#[trigger] allowed[i]) == ascii_lower(login);
            let directs = if allowed.len() > 0 {
                listed
            } else {
                viewer matches Some(v) ==> ascii_lower(v) != ascii_lower(login)
            };
            let issue = issue_in_url(c.issue_url@);
            all_said(cs.push(c), topics, allowed, viewer) == (if issue is Some && topics.contains(
                issue->0 as u64,
            ) && directs && trimmed(c.body@).len() > 0 {
                all_said(cs, topics, allowed, viewer).push(
                    TopicMessageView { issue: issue->0 as u64, login, text: trimmed(c.body@) },
                )
            } else {
                all_said(cs, topics, allowed, viewer)
            })
        }),
{
    assert(cs.push(c).drop_last() =~= cs);
}

/// Reading goes on from the latest comment seen: it is where reading was or the
/// time of one of the comments, and nothing seen is later.
pub proof fn reading_goes_on_from_the_latest(since: Seq<char>, cs: Seq<GitHubComment>)
    ensures
        !text_lt(latest_seen(since, cs), since),
        forall|i: int|
            0 <= i < cs.len() ==> !text_lt(
                latest_seen(since, cs),
                (#[trigger] cs[i]).created_at@,
            ),
        latest_seen(since, cs) == since || exists|i: int|
            0 <= i < cs.len() && latest_seen(since, cs) == (#[trigger] cs[i]).created_at@,
    decreases cs.len(),
{
    text_lt_total(since, since);
    if cs.len() > 0 {
        let head = cs.drop_last();
        let rest = latest_seen(since, head);
        let last = cs.last().created_at@;
        reading_goes_on_from_the_latest(since, head);
        text_lt_total(rest, last);
        text_lt_total(last, last);
        text_lt_total(last, since);
        if text_lt(rest, last) {
            if text_lt(last, since) {
                text_lt_transitive(rest, last, since);
            }
            assert(cs[cs.len() - 1].created_at@ == latest_seen(since, cs));
        } else if rest != since {
            let i = choose|i: int|
                0 <= i < head.len() && rest == (#[trigger] head[i]).created_at@;
            assert(cs[i] == head[i]);
        }
        assert forall|i: int| 0 <= i < cs.len() implies !text_lt(
            latest_seen(since, cs),
            (#[trigger] cs[i]).created_at@,
        ) by {
            if i < head.len() {
                assert(head[i] == cs[i]);
                if text_lt(rest, last) && text_lt(last, cs[i].created_at@) {
                    text_lt_transitive(rest, last, cs[i].created_at@);
                }
            }
        }
    }
}

/// Whether someone may direct the agent does not depend on the case of a login. A
/// list of logins decides alone; without one, everyone but the agent's own account
/// may.
pub proof fn logins_are_compared_without_case(
    allowed: Seq<Seq<char>>,
    login: Seq<char>,
    other: Seq<char>,
    viewer: Option<Seq<char>>,
)
    ensures
        ascii_lower(login) == ascii_lower(other) ==> may_direct(allowed, login, viewer)
            == may_direct(allowed, other, viewer),
        allowed.contains(login) ==> may_direct(allowed, login, viewer),
        allowed.len() > 0 ==> may_direct(allowed, login, viewer) == may_direct(allowed, login, None),
        allowed.len() > 0 && may_direct(allowed, login, viewer) ==> exists|i: int|
            0 <= i < allowed.len() && ascii_lower(#[trigger] allowed[i]) == ascii_lower(login),
        may_direct(Seq::empty(), login, None),
        may_direct(Seq::empty(), login, Some(other)) <==> ascii_lower(login) != ascii_lower(other),
{
    if allowed.contains(login) {
        let i = allowed.index_of(login);
        assert(ascii_lower(allowed[i]) == ascii_lower(login));
    }
}

/// A token that the configuration holds goes before those of the environment, and
/// those before the command line tool's. A blank one is passed over, and padding is
/// no part of a token.
pub proof fn tokens_are_taken_in_turn(
    configured: Option<Seq<char>>,
    t: Seq<char>,
    sources: TokenSources,
)
    ensures
        trimmed(t).len() > 0 ==> token_of(Some(t), sources) == Some(trimmed(t)),
        trimmed(t).len() == 0 ==> token_of(Some(t), sources) == token_of(None, sources),
        opt_view(sources.github_token) matches Some(e) ==> trimmed(e).len() > 0 ==> token_of(
            None,
            sources,
        ) == Some(trimmed(e)),
        (opt_view(sources.github_token) matches Some(e) ==> trimmed(e).len() == 0) ==> (opt_view(
            sources.gh_token,
        ) matches Some(e) ==> trimmed(e).len() > 0 ==> token_of(None, sources) == Some(trimmed(e))),
        (opt_view(sources.github_token) matches Some(e) ==> trimmed(e).len() == 0) && (opt_view(
            sources.gh_token,
        ) matches Some(e) ==> trimmed(e).len() == 0) ==> token_of(None, sources) == (match opt_view(
            sources.gh_cli,
        ) {
            Some(e) => if trimmed(e).len() > 0 {
                Some(trimmed(e))
            } else {
                None
            },
            None => None,
        }),
        token_of(configured, sources) matches Some(u) ==> u.len() > 0,
{
}

/// A plain first line of moderate length is the title, whatever follows it.
pub proof fn a_plain_first_line_is_the_title(line: Seq<char>, rest: Seq<char>)
    requires
        0 < line.len() <= 120,
        forall|i: int| 0 <= i < line.len() ==> (#[trigger] line[i]) != '\n',
        trimmed(line) == line,
        without_leading(line, dropped(Leading::Marks)) == line,
    ensures
        title_of(line) == line,
        rest.len() > 0 && trimmed(rest) == rest ==> title_of(line + "\n"@ + rest) == line,
{
    before_first_unique(line, '\n', line.len() as int);
    assert(line.take(line.len() as int) =~= line);
    if rest.len() > 0 && trimmed(rest) == rest {
        lines_end_at_the_break(line, rest);
    }
}

proof fn lines_end_at_the_break(line: Seq<char>, rest: Seq<char>)
    requires
        line.len() > 0,
        forall|i: int| 0 <= i < line.len() ==> (#[trigger] line[i]) != '\n',
        trimmed(line) == line,
        rest.len() > 0 && trimmed(rest) == rest,
    ensures
        first_line(trimmed(line + "\n"@ + rest)) == line,
{
    reveal_strlit("\n");
    let all = line + "\n"@ + rest;
    assert(all[line.len() as int] == '\n');
    assert(forall|i: int| 0 <= i < line.len() ==> #[trigger] all[i] == line[i]);
    before_first_unique(all, '\n', line.len() as int);
    assert(all.take(line.len() as int) =~= line);
    assert(trimmed(all) == all) by {
        crate::text::trimmed_has_no_outer_space(line);
        crate::text::trimmed_has_no_outer_space(rest);
        assert(all[0] == line[0]);
        assert(all.last() == rest.last());
    }
}

/// A thread names its issue by number, with or without a hash.
pub proof fn threads_name_their_issues(n: u64)
    ensures
        issue_in_thread(dec(n as nat)) == Some(n as nat),
        issue_in_thread("#"@ + dec(n as nat)) == Some(n as nat),
{
    reveal_strlit("#");
    let d = dec(n as nat);
    crate::numerals::dec_digits(n as nat);
    crate::numerals::reading_undoes_rendering(n as nat);
    crate::numerals::numeral_is_trimmed(n as nat);
    assert('0' <= d[0] <= '9');
    assert('0' <= d.last() <= '9');
    let h = "#"@ + d;
    assert(h[0] == '#');
    assert(h.last() == d.last());
    assert(trimmed(h) == h);
    assert(h.drop_first() =~= d);
    reveal_with_fuel(without_leading, 2);
}

} // verus!
