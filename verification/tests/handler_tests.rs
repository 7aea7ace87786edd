use vrclipboard_ime::config::{Config, OnCopyMode};
use vrclipboard_ime::handler::{
    chatbox_packet, contains_url, should_retry_clipboard, ClipboardAction, ConversionHandler,
    Delivery,
};

fn action_text(a: &ClipboardAction) -> (&'static str, String) {
    match a {
        ClipboardAction::Ignore => ("ignore", String::new()),
        ClipboardAction::Convert(s) => ("convert", s.clone()),
        ClipboardAction::Reconvert(s) => ("reconvert", s.clone()),
    }
}

#[test]
fn url_detection() {
    assert!(contains_url("see https://example.com/a?b=c"));
    assert!(contains_url("http://x"));
    assert!(!contains_url("http://"));
    assert!(!contains_url("konnichiha"));
}

#[test]
fn chatbox_packet_bytes() {
    let bytes = chatbox_packet("hi", false);
    let mut expected: Vec<u8> = b"/chatbox/input\0\0".to_vec();
    expected.extend_from_slice(b",sFT\0\0\0\0");
    expected.extend_from_slice(b"hi\0\0");
    assert_eq!(bytes, expected);
    let direct = chatbox_packet("abcd", true);
    let mut expected: Vec<u8> = b"/chatbox/input\0\0".to_vec();
    expected.extend_from_slice(b",sTT\0\0\0\0");
    expected.extend_from_slice(b"abcd\0\0\0\0");
    assert_eq!(direct, expected);
    assert_eq!(chatbox_packet("あ", false).len() % 4, 0);
}

#[test]
fn clipboard_retries_at_most_six_attempts() {
    let mut attempts = 0u32;
    loop {
        attempts += 1;
        // every attempt fails
        if !should_retry_clipboard(attempts) {
            break;
        }
    }
    assert_eq!(attempts, 6);
}

#[test]
fn text_is_converted_once() {
    let mut h = ConversionHandler::new(Config::default());
    let a = h.on_clipboard_change(false, Some("konnichiha".to_string()));
    assert_eq!(action_text(&a), ("convert", "konnichiha".to_string()));
    let shown = h.finish_conversion(Ok("こんにちは".to_string()));
    assert_eq!(shown, "こんにちは");
    let again = h.on_clipboard_change(false, Some("こんにちは".to_string()));
    assert_eq!(action_text(&again), ("ignore", String::new()));
}

#[test]
fn conversion_error_is_shown() {
    let mut h = ConversionHandler::new(Config::default());
    assert_eq!(h.finish_conversion(Err("boom".to_string())), "Error: boom");
    assert_eq!(h.last_text, "Error: boom");
}

#[test]
fn prefix_required_unless_ignored() {
    let mut config = Config::default();
    config.ignore_prefix = false;
    let mut h = ConversionHandler::new(config);
    let a = h.on_clipboard_change(false, Some("abc".to_string()));
    assert_eq!(action_text(&a), ("ignore", String::new()));
    assert_eq!(h.last_text, "abc");
    let b = h.on_clipboard_change(false, Some(";abc".to_string()));
    assert_eq!(action_text(&b), ("convert", "abc".to_string()));
}

#[test]
fn urls_and_outside_copies_are_skipped() {
    let mut h = ConversionHandler::new(Config::default());
    let a = h.on_clipboard_change(false, Some("https://example.com".to_string()));
    assert_eq!(action_text(&a), ("ignore", String::new()));
    let b = h.on_clipboard_change(true, Some("abc".to_string()));
    assert_eq!(action_text(&b), ("ignore", String::new()));
    let c = h.on_clipboard_change(false, None);
    assert_eq!(action_text(&c), ("ignore", String::new()));
}

#[test]
fn reconversion_mode() {
    let mut config = Config::default();
    config.use_tsf_reconvert = true;
    let mut h = ConversionHandler::new(config);
    let a = h.on_clipboard_change(false, Some("kanji".to_string()));
    assert_eq!(action_text(&a), ("reconvert", "kanji".to_string()));
    assert!(h.tsf_conversion.is_some());
    let long: String = "a".repeat(141);
    let b = h.on_clipboard_change(false, Some(long));
    assert_eq!(action_text(&b), ("ignore", String::new()));
    assert_eq!(h.finish_reconversion("kanji", Ok("漢字".to_string())), Ok("漢字".to_string()));
    assert_eq!(h.last_text, "kanji");
}

#[test]
fn try_on_clipboard_change_refuses_non_ascii_prefix_removal() {
    let mut config = Config::default();
    config.ignore_prefix = false;
    config.prefix = "あ".to_string();
    let mut h = ConversionHandler::new(config);
    assert!(h.try_on_clipboard_change(false, Some("あいう".to_string())).is_none());
    let ok = h.try_on_clipboard_change(false, Some("いう".to_string())).unwrap();
    assert_eq!(action_text(&ok), ("ignore", String::new()));
}

#[test]
fn delivery_modes() {
    let mut config = Config::default();
    config.on_copy_mode = OnCopyMode::ReturnToClipboard;
    let h = ConversionHandler::new(config);
    match h.delivery("x") {
        Delivery::Clipboard(s) => assert_eq!(s, "x"),
        _ => panic!("expected the clipboard"),
    }
    let h2 = ConversionHandler::new(Config::default());
    match h2.delivery("x") {
        Delivery::Chatbox(b) => assert_eq!(b, chatbox_packet("x", false)),
        _ => panic!("expected the chatbox"),
    }
    let mut config3 = Config::default();
    config3.on_copy_mode = OnCopyMode::SendDirectly;
    let h3 = ConversionHandler::new(config3);
    match h3.delivery("x") {
        Delivery::Chatbox(b) => assert_eq!(b, chatbox_packet("x", true)),
        _ => panic!("expected the chatbox"),
    }
}
