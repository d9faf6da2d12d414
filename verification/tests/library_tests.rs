use misskey_client::client::Client;
use misskey_client::parser::{is_line_break_char, parse_mfm, Node};
use misskey_client::sending_ws_msg::SendingWsMsg;
use misskey_client::ws_connection::{stream_url, MiChannel};

#[test]
fn empty_input_is_empty() {
    assert_eq!(parse_mfm(""), Node::Empty);
}

#[test]
fn plain_text_run() {
    assert_eq!(parse_mfm("hoge"), Node::Plain("hoge".to_owned()));
}

#[test]
fn local_mention_alone() {
    assert_eq!(parse_mfm("@alice"), Node::LocalUser("alice".to_owned()));
}

#[test]
fn global_mention_alone() {
    assert_eq!(
        parse_mfm("@alice@example.com"),
        Node::GlobalUser(
            "alice".to_owned(),
            vec!["example".to_owned(), "com".to_owned()]
        )
    );
}

#[test]
fn global_mention_with_root_dot() {
    assert_eq!(
        parse_mfm("@alice@example.com."),
        Node::GlobalUser(
            "alice".to_owned(),
            vec!["example".to_owned(), "com".to_owned(), "".to_owned()]
        )
    );
}

#[test]
fn emoji_after_text() {
    assert_eq!(
        parse_mfm("hoge:smile:"),
        Node::Span(vec![
            Node::Plain("hoge".to_owned()),
            Node::LocalCustomEmoji("smile".to_owned()),
        ])
    );
}

#[test]
fn emoji_with_zero_width_spaces() {
    assert_eq!(
        parse_mfm("\u{200B}:smile:\u{200B}"),
        Node::LocalCustomEmoji("smile".to_owned())
    );
}

#[test]
fn emoji_rejected_before_alphanumeric() {
    assert_eq!(parse_mfm(":smile:x"), Node::Plain(":smile:x".to_owned()));
}

#[test]
fn emoji_accepted_before_underscore() {
    assert_eq!(
        parse_mfm(":smile:_"),
        Node::Span(vec![
            Node::LocalCustomEmoji("smile".to_owned()),
            Node::Plain("_".to_owned()),
        ])
    );
}

#[test]
fn label_ending_in_hyphen_breaks_the_domain() {
    assert_eq!(
        parse_mfm("@a@b-.c"),
        Node::Span(vec![
            Node::LocalUser("a".to_owned()),
            Node::LocalUser("b".to_owned()),
            Node::Plain("-.c".to_owned()),
        ])
    );
}

#[test]
fn label_starting_with_hyphen_breaks_the_domain() {
    assert_eq!(
        parse_mfm("@a@-b"),
        Node::Span(vec![
            Node::LocalUser("a".to_owned()),
            Node::Plain("@-b".to_owned()),
        ])
    );
}

#[test]
fn quote_mark_with_full_width_space() {
    assert_eq!(
        parse_mfm(">\u{3000}x"),
        Node::Quote(1, Box::new(Node::Plain("x".to_owned())))
    );
}

#[test]
fn empty_label_becomes_root_marker() {
    assert_eq!(
        parse_mfm("@a@b..c"),
        Node::Span(vec![
            Node::GlobalUser("a".to_owned(), vec!["b".to_owned(), "".to_owned()]),
            Node::Plain(".c".to_owned()),
        ])
    );
}

#[test]
fn plain_tag_keeps_content_verbatim() {
    assert_eq!(
        parse_mfm("<plain>@alice #tag</plain>"),
        Node::PlainTag("@alice #tag".to_owned())
    );
}

#[test]
fn plain_tag_with_empty_content_degrades() {
    assert_eq!(
        parse_mfm("<plain></plain>"),
        Node::Plain("<plain></plain>".to_owned())
    );
}

#[test]
fn small_without_close_degrades() {
    assert_eq!(
        parse_mfm("<small>abc"),
        Node::Plain("<small>abc".to_owned())
    );
}

#[test]
fn quote_of_one_line() {
    assert_eq!(
        parse_mfm("> hello"),
        Node::Quote(1, Box::new(Node::Plain("hello".to_owned())))
    );
}

#[test]
fn quote_depth_two() {
    assert_eq!(
        parse_mfm(">> x"),
        Node::Quote(2, Box::new(Node::Plain("x".to_owned())))
    );
}

#[test]
fn quote_per_line() {
    assert_eq!(
        parse_mfm("> a\n> b"),
        Node::Span(vec![
            Node::Quote(1, Box::new(Node::Plain("a".to_owned()))),
            Node::Quote(1, Box::new(Node::Plain("b".to_owned()))),
        ])
    );
}

#[test]
fn quote_not_at_line_head_degrades() {
    assert_eq!(parse_mfm("a > b"), Node::Plain("a > b".to_owned()));
}

#[test]
fn hashtag_full_width_brackets() {
    assert_eq!(
        parse_mfm("#ta（g「u」）"),
        Node::HashTag("ta（g「u」）".to_owned())
    );
}

#[test]
fn deep_hashtag_brackets_within_limit() {
    let tag = format!("{}x{}", "(".repeat(128), ")".repeat(128));
    let input = format!("#{}", tag);
    assert_eq!(parse_mfm(&input), Node::HashTag(tag));
}

#[test]
fn too_deep_hashtag_brackets_degrade_to_text() {
    let input = format!("#{}x{}", "(".repeat(129), ")".repeat(129));
    assert_eq!(parse_mfm(&input), Node::Plain(input.clone()));
}

#[test]
fn to_global_rewrites_local_mention() {
    let host = vec!["example".to_owned(), "com".to_owned()];
    let rewritten = parse_mfm("@alice").into_global(host.clone());
    assert_eq!(
        rewritten,
        Node::GlobalUser("alice".to_owned(), host.clone())
    );

    let twice = rewritten.into_global(host.clone());
    assert_eq!(twice, Node::GlobalUser("alice".to_owned(), host));
}

#[test]
fn to_global_reaches_into_wrappers() {
    let host = vec!["example".to_owned(), "com".to_owned()];
    let rewritten = parse_mfm("<small>@alice</small>").into_global(host.clone());
    assert_eq!(
        rewritten,
        Node::Small(Box::new(Node::GlobalUser("alice".to_owned(), host)))
    );
}

#[test]
fn line_break_characters() {
    assert!(is_line_break_char('\n'));
    assert!(is_line_break_char('\r'));
    assert!(is_line_break_char('\u{000B}'));
    assert!(is_line_break_char('\u{000C}'));
    assert!(is_line_break_char('\u{0085}'));
    assert!(is_line_break_char('\u{2028}'));
    assert!(is_line_break_char('\u{2029}'));
    assert!(!is_line_break_char(' '));
    assert!(!is_line_break_char('a'));
}

#[test]
fn client_api_url() {
    let client = Client::new("example.com".to_owned(), None);
    assert_eq!(
        client.api_url("/api/notes/conversation"),
        "https://example.com/api/notes/conversation"
    );
    assert_eq!(client.host(), "example.com");
    assert_eq!(client.token(), None);
}

#[test]
fn stream_urls() {
    assert_eq!(stream_url("example.com", None), "wss://example.com/stream");
    assert_eq!(
        stream_url("example.com", Some("KEY")),
        "wss://example.com/stream?i=KEY"
    );
}

#[test]
fn channel_connect_messages() {
    assert_eq!(MiChannel::Global.channel_name(), "globalTimeline");
    assert_eq!(MiChannel::Home.channel_name(), "homeTimeline");
    assert_eq!(MiChannel::Hybrid.channel_name(), "hybridTimeline");
    assert_eq!(MiChannel::Local.channel_name(), "localTimeline");
    assert_eq!(MiChannel::Main.channel_name(), "main");
    assert_eq!(
        MiChannel::Local.connect_message("abc-123"),
        "{\"type\":\"connect\",\"body\":{\"id\":\"abc-123\",\"channel\":\"localTimeline\",\"params\":{}}}"
    );
}

#[test]
fn sub_note_wire_text() {
    let msg = SendingWsMsg::sub_note("note1".to_owned());
    assert_eq!(
        msg.wire_text(),
        "{\"type\":\"subNote\",\"body\":{\"id\":\"note1\"}}"
    );
}
