use aeromessage::send::{escape_text, full_chat_id, send_script};

#[test]
fn test_escape_text() {
    let text = r#"Hello "world" \ test"#;
    let escaped = text
        .replace('\\', "\\\\")
        .replace('"', "\\\"");
    assert_eq!(escaped, r#"Hello \"world\" \\ test"#);
}

#[test]
fn test_escape_text_library() {
    assert_eq!(
        escape_text(r#"Hello "world" \ test"#),
        r#"Hello \"world\" \\ test"#
    );
    assert_eq!(escape_text("plain"), "plain");
    assert_eq!(escape_text(""), "");
}

#[test]
fn test_full_chat_id_forms() {
    assert_eq!(full_chat_id("chat123", true), "any;+;chat123");
    assert_eq!(full_chat_id("+15551234567", false), "any;-;+15551234567");
}

#[test]
fn test_send_script_contents() {
    let script = send_script("+15551234567", r#"say "hi""#, false);
    assert_eq!(
        script,
        "tell application \"Messages\"\n    set targetChat to chat id \"any;-;+15551234567\"\n    send \"say \\\"hi\\\"\" to targetChat\nend tell"
    );
}
