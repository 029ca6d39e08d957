//! Message channels: addresses, cursors, allow lists and answers.

use jcode_ambient::channel::discord::{DiscordAuthor, DiscordChannel, DiscordMessage};
use jcode_ambient::channel::encoding::{drop_leading, failure_text, urlencoding_encode, Leading};
use jcode_ambient::channel::github::{
    issue_number_from_url, split_title_body, thread_issue, GitHubChannel, GitHubComment,
    GitHubCommentUser, TokenSources,
};
use jcode_ambient::channel::jade::{JadeRelayChannel, RelayEvent};
use jcode_ambient::channel::registry::{ChannelRegistry, SafetyConfig};
use jcode_ambient::channel::replies::{
    delivery_ack, permission_ack, reply_action, PermissionReply, ReplyAction, ReplyStyle,
};
use jcode_ambient::channel::telegram::{TelegramChannel, TelegramMessage, TelegramUpdate};

#[test]
fn test_relay_url_encoding() {
    assert_eq!(urlencoding_encode("sess-relay-test"), "sess-relay-test");
    assert_eq!(urlencoding_encode("a/b c"), "a%2Fb%20c");
    assert_eq!(urlencoding_encode("user.name~1_2"), "user.name~1_2");
}

#[test]
fn encoded_text_covers_every_byte() {
    assert_eq!(urlencoding_encode("é"), "%C3%A9");
    assert_eq!(urlencoding_encode("💬"), "%F0%9F%92%AC");
    assert_eq!(urlencoding_encode("+%"), "%2B%25");
}

fn relay() -> JadeRelayChannel {
    JadeRelayChannel::new(
        "https://example.com/api".to_string(),
        "tok".to_string(),
        Some("jeremy".to_string()),
        "jeremy".to_string(),
        "sess-1".to_string(),
        true,
    )
}

#[test]
fn test_relay_url_join() {
    let ch = relay();
    assert_eq!(ch.url("v1/devices"), "https://example.com/api/v1/devices");
    assert_eq!(ch.url("/v1/devices"), "https://example.com/api/v1/devices");
}

#[test]
fn the_relay_is_polled_from_a_cursor() {
    let ch = relay();
    assert_eq!(ch.post_path(), "v1/sessions/sess-1/events");
    assert_eq!(
        ch.poll_path(-1, 20),
        "v1/sessions/sess-1/events?user_id=jeremy&after=-1&types=prompt&wait=20"
    );
    let mut after: i64 = 4;
    let prompts = JadeRelayChannel::take_events(
        &mut after,
        &vec![
            RelayEvent { seq: 5, text: Some(" run the tests ".to_string()) },
            RelayEvent { seq: 6, text: Some("  ".to_string()) },
            RelayEvent { seq: 7, text: None },
        ],
        7,
    );
    assert_eq!(after, 7);
    assert_eq!(prompts.len(), 1);
    assert_eq!((prompts[0].seq, prompts[0].text.as_str()), (5, "run the tests"));
    assert_eq!(JadeRelayChannel::device_id(None, Some("box")), "jcode-box");
    assert_eq!(JadeRelayChannel::device_id(None, None), "jcode-laptop");
}

fn quiet_config() -> SafetyConfig {
    SafetyConfig {
        telegram_enabled: false,
        telegram_bot_token: None,
        telegram_chat_id: None,
        telegram_reply_enabled: false,
        discord_enabled: false,
        discord_bot_token: None,
        discord_channel_id: None,
        discord_reply_enabled: false,
        discord_bot_user_id: None,
        github_enabled: false,
        github_repo: None,
        github_label: "ambient".to_string(),
        github_token: None,
        github_allowed_logins: Vec::new(),
        github_reply_enabled: false,
        github_poll_seconds: 60,
        jade_relay_enabled: false,
        jade_relay_api_base: None,
        jade_relay_token: None,
        jade_relay_token_id: None,
        jade_relay_user_id: None,
        jade_relay_session_id: None,
        jade_relay_reply_enabled: false,
    }
}

fn no_sources() -> TokenSources {
    TokenSources { github_token: None, gh_token: None, gh_cli: None }
}

#[test]
fn test_relay_registry_wiring() {
    // Disabled: not registered.
    let reg = ChannelRegistry::from_config(&quiet_config(), &no_sources());
    assert!(!reg.channel_names().iter().any(|n| n == "jade_relay"));

    // Enabled but incomplete: skipped with a warning.
    let mut cfg = SafetyConfig { jade_relay_enabled: true, ..quiet_config() };
    let reg = ChannelRegistry::from_config(&cfg, &no_sources());
    assert!(!reg.channel_names().iter().any(|n| n == "jade_relay"));

    // Enabled and complete: registered.
    cfg.jade_relay_api_base = Some("https://example.com/".to_string());
    cfg.jade_relay_token = Some("tok".to_string());
    cfg.jade_relay_session_id = Some("sess-1".to_string());
    let reg = ChannelRegistry::from_config(&cfg, &no_sources());
    assert!(reg.channel_names().iter().any(|n| n == "jade_relay"));
}

#[test]
fn test_github_registry_wiring() {
    let mut cfg = SafetyConfig {
        github_enabled: true,
        github_token: Some("tok".to_string()),
        ..quiet_config()
    };
    // Incomplete: skipped rather than half-registered.
    let reg = ChannelRegistry::from_config(&cfg, &no_sources());
    assert!(!reg.channel_names().iter().any(|n| n == "github"));

    cfg.github_repo = Some("owner/repo".to_string());
    let reg = ChannelRegistry::from_config(&cfg, &no_sources());
    assert!(reg.channel_names().iter().any(|n| n == "github"));
}

#[test]
fn every_configured_channel_is_registered_once() {
    let cfg = SafetyConfig {
        telegram_enabled: true,
        telegram_bot_token: Some("t".to_string()),
        telegram_chat_id: Some("7".to_string()),
        telegram_reply_enabled: true,
        discord_enabled: true,
        discord_bot_token: Some("d".to_string()),
        discord_channel_id: Some("9".to_string()),
        ..quiet_config()
    };
    let reg = ChannelRegistry::from_config(&cfg, &no_sources());
    assert_eq!(reg.channel_names(), vec!["telegram", "discord"]);
    assert_eq!(reg.send_enabled(), vec![0, 1]);
    assert_eq!(reg.reply_enabled(), vec![0]);
    assert_eq!(reg.find_by_name("discord").unwrap().name(), "discord");
    assert!(reg.find_by_name("github").is_none());
}

#[test]
fn test_github_split_title_body() {
    // First line becomes the title so the issue list reads as topics.
    let (t, b) = split_title_body("## Flaky test in bg_panel\nDetails here.");
    assert_eq!(t, "Flaky test in bg_panel");
    assert!(b.contains("Details here."));

    // An overlong first line is truncated for the title but kept in full
    // in the body, since GitHub rejects very long titles.
    let long = "x".repeat(400);
    let (t, b) = split_title_body(&long);
    assert_eq!(t.chars().count(), 120);
    assert_eq!(b.chars().count(), 400);

    // Leading blank lines are skipped rather than producing a blank title.
    let (t, _) = split_title_body("   \n\nbody only");
    assert_eq!(t, "body only");

    // Content with no usable first line still yields a title, because
    // GitHub rejects an empty one.
    let (t, _) = split_title_body("### \nrest");
    assert_eq!(t, "Ambient update");
}

#[test]
fn test_github_issue_number_from_url() {
    assert_eq!(issue_number_from_url("https://api.github.com/repos/o/r/issues/42"), Some(42));
    assert_eq!(issue_number_from_url("nonsense"), None);
}

#[test]
fn a_thread_names_its_issue() {
    assert_eq!(thread_issue(" #42 "), Ok(42));
    assert_eq!(thread_issue("7"), Ok(7));
    assert_eq!(
        thread_issue("topic"),
        Err("invalid GitHub issue number: topic".to_string())
    );
}

fn github(allowed: Vec<String>) -> GitHubChannel {
    GitHubChannel::new(
        "owner/repo".to_string(),
        "ambient".to_string(),
        "tok".to_string(),
        allowed,
        true,
        60,
    )
}

#[test]
fn test_github_allowed_logins() {
    // Empty allowlist: anyone except the account we post as, so the agent
    // never answers its own comment and loops.
    let ch = github(Vec::new());
    assert!(ch.is_allowed("potb", Some("jcode-bot")));
    assert!(!ch.is_allowed("jcode-bot", Some("jcode-bot")));
    assert!(!ch.is_allowed("JCODE-BOT", Some("jcode-bot")));

    // Explicit allowlist wins and is case-insensitive.
    let ch = github(vec!["PotB".to_string()]);
    assert!(ch.is_allowed("potb", Some("jcode-bot")));
    assert!(!ch.is_allowed("stranger", Some("jcode-bot")));
}

#[test]
fn test_github_poll_interval_floor() {
    // A zero or tiny interval would hammer the API into rate limiting.
    let ch = GitHubChannel::new(
        "o/r".to_string(),
        "ambient".to_string(),
        "t".to_string(),
        Vec::new(),
        true,
        0,
    );
    assert_eq!(ch.poll_seconds, 5);
}

#[test]
fn github_addresses_name_the_repository() {
    let ch = github(Vec::new());
    assert_eq!(ch.issues_url(), "https://api.github.com/repos/owner/repo/issues");
    assert_eq!(ch.comments_url(3), "https://api.github.com/repos/owner/repo/issues/3/comments");
    assert_eq!(
        ch.topics_url(),
        "https://api.github.com/repos/owner/repo/issues?state=open&labels=ambient&per_page=100"
    );
    assert_eq!(
        ch.poll_url("2026-08-09T15:00:00+00:00"),
        "https://api.github.com/repos/owner/repo/issues/comments?since=2026-08-09T15%3A00%3A00%2B00%3A00&per_page=100&sort=created&direction=asc"
    );
    assert_eq!(ch.authorization(), "Bearer tok");
}

fn comment(issue: u64, login: &str, body: &str, when: &str) -> GitHubComment {
    GitHubComment {
        body: body.to_string(),
        created_at: when.to_string(),
        issue_url: format!("https://api.github.com/repos/owner/repo/issues/{issue}"),
        user: Some(GitHubCommentUser { login: login.to_string() }),
    }
}

#[test]
fn only_new_comments_on_open_topics_are_taken() {
    let ch = github(Vec::new());
    let mut since = "2026-08-09T15:00:00Z".to_string();
    let taken = ch.take_comments(
        &mut since,
        &vec![
            comment(1, "potb", " ship it ", "2026-08-09T15:00:05Z"),
            comment(1, "jcode-bot", "done", "2026-08-09T15:00:06Z"),
            comment(2, "potb", "elsewhere", "2026-08-09T15:00:07Z"),
        ],
        &vec![1],
        Some("jcode-bot"),
    );
    assert_eq!(taken.len(), 1);
    assert_eq!(taken[0].issue, 1);
    assert_eq!(taken[0].login, "potb");
    assert_eq!(taken[0].text, "ship it");
    assert!(since.as_str() >= "2026-08-09T15:00:05Z", "the cursor moves on, got {since}");
}

#[test]
fn github_is_read_from_the_present_on() {
    let start = GitHubChannel::starting_point();
    let read = chrono::DateTime::parse_from_rfc3339(&start).expect("a time");
    let age = chrono::Utc::now().signed_duration_since(read);
    assert!(age.num_seconds().abs() < 20, "got {start}");
}

#[test]
fn a_token_is_looked_for_in_order() {
    let all = TokenSources {
        github_token: Some("first".to_string()),
        gh_token: Some("second".to_string()),
        gh_cli: Some(" third\n".to_string()),
    };
    assert_eq!(
        GitHubChannel::resolve_token(Some("configured"), &all).as_deref(),
        Some("configured")
    );
    assert_eq!(GitHubChannel::resolve_token(Some("  "), &all).as_deref(), Some("first"));
    let cli = TokenSources { github_token: None, gh_token: None, ..all };
    assert_eq!(GitHubChannel::resolve_token(None, &cli).as_deref(), Some("third"));
    assert_eq!(GitHubChannel::resolve_token(None, &no_sources()), None);
}

#[test]
fn telegram_listens_to_its_own_chat() {
    let ch = TelegramChannel::new("t".to_string(), "7".to_string(), true);
    let message = |chat_id: i64, text: &str| {
        Some(TelegramMessage { chat_id, text: Some(text.to_string()) })
    };
    let mut offset = None;
    let said = ch.take_updates(
        &mut offset,
        &vec![
            TelegramUpdate { update_id: 10, message: message(7, "hello") },
            TelegramUpdate { update_id: 11, message: message(8, "not mine") },
            TelegramUpdate { update_id: 12, message: None },
        ],
    );
    assert_eq!(said, vec!["hello"]);
    assert_eq!(offset, Some(13));
}

fn discord_message(id: &str, author: &str, bot: Option<bool>, content: &str) -> DiscordMessage {
    DiscordMessage {
        id: id.to_string(),
        content: content.to_string(),
        author: DiscordAuthor { id: author.to_string(), bot },
    }
}

#[test]
fn discord_ignores_itself_and_other_bots() {
    let ch = DiscordChannel::new(
        "t".to_string(),
        "9".to_string(),
        true,
        Some("self".to_string()),
    );
    assert_eq!(ch.send_url(), "https://discord.com/api/v10/channels/9/messages");
    assert_eq!(
        ch.poll_url(Some("3")),
        "https://discord.com/api/v10/channels/9/messages?limit=10&after=3"
    );
    // The newest message comes first.
    let newest_first = vec![
        discord_message("6", "self", None, "mine"),
        discord_message("5", "789", Some(true), "bot response"),
        discord_message("4", "789", Some(false), "hello agent"),
    ];
    assert_eq!(DiscordChannel::starting_point(&newest_first).as_deref(), Some("6"));
    let mut last_seen = Some("3".to_string());
    let said = ch.take_messages(&mut last_seen, &newest_first);
    assert_eq!(said, vec!["hello agent"]);
    assert_eq!(last_seen.as_deref(), Some("6"));
}

#[test]
fn a_permission_reply_is_recorded_and_anything_else_reaches_the_agent() {
    let reply = PermissionReply {
        request_id: "req_1".to_string(),
        approved: true,
        message: None,
    };
    match reply_action(ReplyStyle::Telegram, 0, Some(reply)) {
        ReplyAction::Record { reply, via } => {
            assert_eq!(reply.request_id, "req_1");
            assert_eq!(via, "telegram_reply");
        }
        other => panic!("expected a record, got {other:?}"),
    }
    match reply_action(ReplyStyle::GitHub, 42, None) {
        ReplyAction::Inject { source } => assert_eq!(source, "github#42"),
        other => panic!("expected an injection, got {other:?}"),
    }
    assert_eq!(
        permission_ack(ReplyStyle::GitHub, true, false, "req_1").as_deref(),
        Some("Permission denied for `req_1`.")
    );
    assert_eq!(permission_ack(ReplyStyle::GitHub, false, true, "req_1"), None);
    assert_eq!(
        delivery_ack(ReplyStyle::Discord, false, "hi"),
        "📋 Message queued, waking agent: *hi*"
    );
    assert_eq!(
        delivery_ack(ReplyStyle::Telegram, true, "hi"),
        "💬 Message sent to active session: _hi_"
    );
}

#[test]
fn leading_marks_are_dropped() {
    assert_eq!(drop_leading("##x #", Leading::Hashes), "x #");
    assert_eq!(drop_leading("//a/b", Leading::Slashes), "a/b");
    assert_eq!(failure_text("Discord poll error", "500", "oops"), "Discord poll error (500): oops");
}

#[test]
fn encoding_goes_piece_by_piece() {
    for (a, b) in [("a b", "c/d"), ("", "é"), ("100%", "25")] {
        let whole = urlencoding_encode(&format!("{a}{b}"));
        assert_eq!(whole, urlencoding_encode(a) + &urlencoding_encode(b));
    }
}

#[test]
fn encoded_texts_differ_where_the_texts_do() {
    assert_eq!(urlencoding_encode("%41"), "%2541");
    assert_ne!(urlencoding_encode("%41"), urlencoding_encode("A"));
    assert_ne!(urlencoding_encode("a b"), urlencoding_encode("a%20b"));
    // One character for what is kept, three for each byte that is not.
    assert_eq!(urlencoding_encode("a-é/").len(), 2 + 3 * 3);
}

#[test]
fn a_body_opens_the_same_topic_again() {
    let long = format!("- {}\nmore", "x".repeat(200));
    for text in ["  ## Title  \n\nbody ", "* one line", "\n\n", long.as_str()] {
        let (title, body) = split_title_body(text);
        assert_eq!(body, text.trim());
        assert_eq!(title, title.trim());
        assert!(!title.is_empty() && title.chars().count() <= 120);
        assert!(!title.contains('\n'));
        assert_eq!(split_title_body(&body), (title.clone(), body.clone()));
    }
}
