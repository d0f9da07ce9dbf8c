use aeromessage::models::{Attachment, Conversation, Message, Reaction, reaction_emoji};

fn empty_message() -> Message {
    Message {
        rowid: 1,
        guid: "test".into(),
        text: String::new(),
        date: 0,
        is_from_me: false,
        sender: None,
        attachments: vec![],
        reactions: vec![],
    }
}

#[test]
fn test_reaction_emoji_lookup() {
    assert_eq!(reaction_emoji(2000), Some("❤️"));
    assert_eq!(reaction_emoji(2001), Some("👍"));
    assert_eq!(reaction_emoji(9999), None);
}

#[test]
fn test_all_reaction_types() {
    assert_eq!(reaction_emoji(2000), Some("❤️"));
    assert_eq!(reaction_emoji(2001), Some("👍"));
    assert_eq!(reaction_emoji(2002), Some("👎"));
    assert_eq!(reaction_emoji(2003), Some("😂"));
    assert_eq!(reaction_emoji(2004), Some("‼️"));
    assert_eq!(reaction_emoji(2005), Some("❓"));
    assert_eq!(reaction_emoji(2006), Some("🫶"));
}

#[test]
fn test_attachment_is_image() {
    let img = Attachment {
        filename: "test.jpg".into(),
        mime_type: "image/jpeg".into(),
        transfer_name: "test.jpg".into(),
    };
    assert!(img.is_image());

    let pdf = Attachment {
        filename: "doc.pdf".into(),
        mime_type: "application/pdf".into(),
        transfer_name: "doc.pdf".into(),
    };
    assert!(!pdf.is_image());
}

#[test]
fn test_attachment_url_path() {
    let att = Attachment {
        filename: "~/Library/Messages/Attachments/ab/cd/file.jpg".into(),
        mime_type: "image/jpeg".into(),
        transfer_name: "file.jpg".into(),
    };
    assert_eq!(att.url_path(), Some("/attachment/ab/cd/file.jpg".into()));

    let other = Attachment {
        filename: "/some/other/path.jpg".into(),
        mime_type: "image/jpeg".into(),
        transfer_name: "path.jpg".into(),
    };
    assert_eq!(other.url_path(), None);
}

#[test]
fn test_message_display_text() {
    let msg = Message {
        text: "Hello \u{FFFC} world".into(),
        ..empty_message()
    };
    assert_eq!(msg.display_text(), "Hello  world");
}

#[test]
fn test_conversation_is_group() {
    let group = Conversation {
        chat_id: 1,
        display_name: None,
        chat_identifier: "chat123".into(),
        style: 43,
        unread_count: 5,
        last_message_date: 0,
        messages: vec![],
        participants: vec![],
        resolved_name: None,
    };
    assert!(group.is_group());

    let direct = Conversation {
        style: 45,
        ..group.clone()
    };
    assert!(!direct.is_group());
}

#[test]
fn test_conversation_name_priority() {
    let conv = Conversation {
        chat_id: 1,
        display_name: Some("Group Chat".into()),
        chat_identifier: "+15551234567".into(),
        style: 45,
        unread_count: 1,
        last_message_date: 0,
        messages: vec![],
        participants: vec![],
        resolved_name: Some("John Doe".into()),
    };
    assert_eq!(conv.name(), "Group Chat");

    let conv2 = Conversation {
        display_name: None,
        ..conv.clone()
    };
    assert_eq!(conv2.name(), "John Doe");

    let conv3 = Conversation {
        display_name: None,
        resolved_name: None,
        ..conv
    };
    assert_eq!(conv3.name(), "+15551234567");
}

#[test]
fn test_conversation_messages_url() {
    let direct = Conversation {
        chat_id: 1,
        display_name: None,
        chat_identifier: "+15551234567".into(),
        style: 45,
        unread_count: 1,
        last_message_date: 0,
        messages: vec![],
        participants: vec![],
        resolved_name: None,
    };
    assert_eq!(direct.messages_url(), "imessage://+15551234567");

    let group = Conversation {
        style: 43,
        chat_identifier: "chat123456".into(),
        ..direct
    };
    assert_eq!(group.messages_url(), "imessage://?groupID=chat123456");
}

#[test]
fn test_message_is_image_only() {
    let img_attachment = Attachment {
        filename: "photo.jpg".into(),
        mime_type: "image/jpeg".into(),
        transfer_name: "photo.jpg".into(),
    };

    let msg = Message {
        text: "\u{FFFC}".into(),
        attachments: vec![img_attachment.clone()],
        ..empty_message()
    };
    assert!(msg.is_image_only());

    let msg_with_text = Message {
        text: "Check this out \u{FFFC}".into(),
        ..msg.clone()
    };
    assert!(!msg_with_text.is_image_only());

    let msg_no_att = Message {
        attachments: vec![],
        ..msg
    };
    assert!(!msg_no_att.is_image_only());
}

#[test]
fn test_message_reaction_summary() {
    let msg = Message {
        text: "Hello".into(),
        reactions: vec![
            Reaction { emoji: "❤️".into(), is_from_me: false, sender: None },
            Reaction { emoji: "👍".into(), is_from_me: true, sender: None },
            Reaction { emoji: "❤️".into(), is_from_me: true, sender: None },
        ],
        ..empty_message()
    };
    assert_eq!(msg.reaction_summary(), "❤️👍");
}

#[test]
fn test_conversation_empty_display_name() {
    let conv = Conversation {
        chat_id: 1,
        display_name: Some("".into()),
        chat_identifier: "+15551234567".into(),
        style: 45,
        unread_count: 1,
        last_message_date: 0,
        messages: vec![],
        participants: vec![],
        resolved_name: Some("John".into()),
    };
    assert_eq!(conv.name(), "John");
}
