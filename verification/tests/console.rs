use hello_http::console::{Channel, Notice};

#[test]
fn a_notice_is_its_label_followed_by_the_detail() {
    let notice = Notice::labelled(Channel::Stderr, "Connection failed: ", "reset by peer");
    assert_eq!(notice.channel, Channel::Stderr);
    assert_eq!(notice.text, "Connection failed: reset by peer");
}

#[test]
fn a_notice_keeps_an_empty_label_or_detail() {
    let bare = Notice::labelled(Channel::Stdout, "", "detail only");
    assert_eq!(bare, Notice { channel: Channel::Stdout, text: String::from("detail only") });
    let label = Notice::labelled(Channel::Stdout, "label only", "");
    assert_eq!(label, Notice { channel: Channel::Stdout, text: String::from("label only") });
}

#[test]
fn a_notice_keeps_line_breaks_and_non_ascii_text() {
    let notice = Notice::labelled(Channel::Stdout, "Received request:\n", "caf\u{e9}\r\n\u{fffd}");
    assert_eq!(notice.text, "Received request:\ncaf\u{e9}\r\n\u{fffd}");
}
