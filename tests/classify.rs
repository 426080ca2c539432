use shut::classify::{contains_link, exempt_given, is_exempt, IncomingMessage};

fn message(content: &str, attachment_count: usize) -> IncomingMessage {
    IncomingMessage {
        author_is_bot: false,
        channel_id: 1,
        content: content.to_string(),
        attachment_count,
    }
}

#[test]
fn attachment_makes_message_exempt() {
    for text in ["", "hello", "no link here http:/broken"] {
        assert!(is_exempt(&message(text, 1)));
        assert!(is_exempt(&message(text, 3)));
    }
}

#[test]
fn example_link_makes_message_exempt() {
    for text in [
        "https://example.com/a?b=1",
        "look: https://example.com/a?b=1 nice",
        "prefixhttps://example.com/a?b=1",
    ] {
        assert!(is_exempt(&message(text, 0)));
    }
}

#[test]
fn empty_text_without_attachment_is_moderated() {
    assert!(!is_exempt(&message("", 0)));
}

#[test]
fn plain_text_is_moderated() {
    assert!(!is_exempt(&message("just chatting", 0)));
}

#[test]
fn partial_urls_are_not_links() {
    assert!(!contains_link("example.com"));
    assert!(!contains_link("http://"));
    assert!(!contains_link("ftp://example.com/file"));
    assert!(!contains_link("https://localhost"));
}

#[test]
fn recognised_links() {
    assert!(contains_link("http://www.rust-lang.org"));
    assert!(contains_link("see https://docs.rs/regex/latest/regex/ and http://a.io"));
    assert!(!contains_link(""));
}

#[test]
fn exempt_given_combines_inputs() {
    assert!(exempt_given(1, false));
    assert!(exempt_given(0, true));
    assert!(!exempt_given(0, false));
}
