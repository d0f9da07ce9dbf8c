//! End-to-end assembly against a real SQLite store file built here: one
//! group conversation with unread messages, an attachment, a binary text
//! blob and an annotation record referencing a message by its GUID.

use aeromessage::db::Database;

fn build_store(path: &str) {
    let conn = rusqlite::Connection::open(path).expect("create store");
    conn.execute_batch(
        "DROP TABLE IF EXISTS chat;
         DROP TABLE IF EXISTS message;
         DROP TABLE IF EXISTS chat_message_join;
         DROP TABLE IF EXISTS handle;
         DROP TABLE IF EXISTS chat_handle_join;
         DROP TABLE IF EXISTS attachment;
         DROP TABLE IF EXISTS message_attachment_join;
         CREATE TABLE chat (ROWID INTEGER PRIMARY KEY, display_name TEXT, chat_identifier TEXT, style INTEGER, is_filtered INTEGER);
         CREATE TABLE message (ROWID INTEGER PRIMARY KEY, guid TEXT, text TEXT, attributedBody BLOB, date INTEGER, is_read INTEGER, is_from_me INTEGER, item_type INTEGER, is_finished INTEGER, associated_message_type INTEGER, associated_message_guid TEXT, cache_has_attachments INTEGER, handle_id INTEGER);
         CREATE TABLE chat_message_join (chat_id INTEGER, message_id INTEGER);
         CREATE TABLE handle (ROWID INTEGER PRIMARY KEY, id TEXT);
         CREATE TABLE chat_handle_join (chat_id INTEGER, handle_id INTEGER);
         CREATE TABLE attachment (ROWID INTEGER PRIMARY KEY, filename TEXT, mime_type TEXT, transfer_name TEXT);
         CREATE TABLE message_attachment_join (message_id INTEGER, attachment_id INTEGER);
         INSERT INTO chat VALUES (1, NULL, 'chat123', 43, 0);
         INSERT INTO handle VALUES (1, '+15550001111');
         INSERT INTO chat_handle_join VALUES (1, 1);
         -- Oldest: no text, one image attachment.
         INSERT INTO message VALUES (13, 'g-3', NULL, NULL, 50, 0, 0, 0, 1, 0, NULL, 1, 1);
         INSERT INTO attachment VALUES (1, '~/Library/Messages/Attachments/aa/bb/pic.jpg', 'image/jpeg', 'pic.jpg');
         INSERT INTO message_attachment_join VALUES (13, 1);
         -- Middle: text only in the binary blob, decoding to 'first'.
         INSERT INTO message VALUES (10, 'g-1', NULL, X'4E53537472696E670000000000056669727374', 100, 0, 0, 0, 1, 0, NULL, 0, 1);
         -- Newest: plain text.
         INSERT INTO message VALUES (11, 'g-2', 'second', NULL, 200, 0, 0, 0, 1, 0, NULL, 0, 1);
         -- A reaction on g-2, already read so it adds nothing to the unread count.
         INSERT INTO message VALUES (12, 'g-r', NULL, NULL, 300, 1, 0, 0, 1, 2000, 'p:0/g-2', 0, 1);
         INSERT INTO chat_message_join VALUES (1, 13);
         INSERT INTO chat_message_join VALUES (1, 10);
         INSERT INTO chat_message_join VALUES (1, 11);
         INSERT INTO chat_message_join VALUES (1, 12);",
    )
    .expect("populate store");
}

#[test]
fn test_store_end_to_end_assembly() {
    let path = "/tmp/aeromessage_store_e2e.db";
    build_store(path);

    let db = Database::open(path).expect("open store");
    let convs = db.unread_conversations().expect("fetch conversations");

    assert_eq!(convs.len(), 1);
    let conv = &convs[0];
    assert!(conv.is_group());
    assert_eq!(conv.chat_identifier, "chat123");
    assert_eq!(conv.unread_count, 3);
    assert_eq!(conv.last_message_date, 200 + 978307200);
    assert_eq!(conv.participants, vec!["+15550001111".to_string()]);

    assert_eq!(conv.messages.len(), 3);
    assert_eq!(conv.messages[0].guid, "g-3");
    assert_eq!(conv.messages[1].guid, "g-1");
    assert_eq!(conv.messages[2].guid, "g-2");

    assert!(conv.messages[0].is_image_only());
    assert_eq!(
        conv.messages[0].attachments[0].url_path(),
        Some("/attachment/aa/bb/pic.jpg".to_string())
    );

    assert_eq!(conv.messages[1].text, "first");
    assert_eq!(conv.messages[1].date, 100 + 978307200);

    assert_eq!(conv.messages[2].text, "second");
    assert_eq!(conv.messages[2].reactions.len(), 1);
    assert_eq!(conv.messages[2].reactions[0].emoji, "❤️");
    assert_eq!(
        conv.messages[2].reactions[0].sender,
        Some("+15550001111".to_string())
    );
    assert_eq!(conv.messages[2].reaction_summary(), "❤️");

    assert_eq!(conv.messages[0].reactions.len(), 0);
    assert_eq!(conv.messages[1].reactions.len(), 0);
}

#[test]
fn test_store_message_limit() {
    let path = "/tmp/aeromessage_store_limit.db";
    let conn = rusqlite::Connection::open(path).expect("create store");
    conn.execute_batch(
        "DROP TABLE IF EXISTS chat;
         DROP TABLE IF EXISTS message;
         DROP TABLE IF EXISTS chat_message_join;
         DROP TABLE IF EXISTS handle;
         DROP TABLE IF EXISTS chat_handle_join;
         DROP TABLE IF EXISTS attachment;
         DROP TABLE IF EXISTS message_attachment_join;
         CREATE TABLE chat (ROWID INTEGER PRIMARY KEY, display_name TEXT, chat_identifier TEXT, style INTEGER, is_filtered INTEGER);
         CREATE TABLE message (ROWID INTEGER PRIMARY KEY, guid TEXT, text TEXT, attributedBody BLOB, date INTEGER, is_read INTEGER, is_from_me INTEGER, item_type INTEGER, is_finished INTEGER, associated_message_type INTEGER, associated_message_guid TEXT, cache_has_attachments INTEGER, handle_id INTEGER);
         CREATE TABLE chat_message_join (chat_id INTEGER, message_id INTEGER);
         CREATE TABLE handle (ROWID INTEGER PRIMARY KEY, id TEXT);
         CREATE TABLE chat_handle_join (chat_id INTEGER, handle_id INTEGER);
         CREATE TABLE attachment (ROWID INTEGER PRIMARY KEY, filename TEXT, mime_type TEXT, transfer_name TEXT);
         CREATE TABLE message_attachment_join (message_id INTEGER, attachment_id INTEGER);
         INSERT INTO chat VALUES (1, NULL, '+15551230000', 45, 0);",
    )
    .expect("populate store");
    for n in 1..=20_i64 {
        conn.execute(
            "INSERT INTO message VALUES (?1, ?2, ?3, NULL, ?4, 0, 0, 0, 1, 0, NULL, 0, NULL)",
            (n, format!("lim-{}", n), format!("msg {}", n), n * 10),
        )
        .expect("insert message");
        conn.execute("INSERT INTO chat_message_join VALUES (1, ?1)", [n])
            .expect("insert join");
    }
    drop(conn);

    let db = Database::open(path).expect("open store");
    let convs = db.unread_conversations().expect("fetch conversations");
    assert_eq!(convs.len(), 1);
    let conv = &convs[0];
    assert_eq!(conv.unread_count, 20);
    // Only the 15 most recent messages, in chronological order.
    assert_eq!(conv.messages.len(), 15);
    assert_eq!(conv.messages[0].guid, "lim-6");
    assert_eq!(conv.messages[14].guid, "lim-20");
    for w in conv.messages.windows(2) {
        assert!(w[0].date <= w[1].date);
    }
}

#[test]
fn test_store_annotation_only_message_not_listed() {
    let path = "/tmp/aeromessage_store_annos.db";
    build_store(path);

    let db = Database::open(path).expect("open store");
    let convs = db.unread_conversations().expect("fetch conversations");

    // The annotation record itself never appears as a message.
    for conv in &convs {
        for m in &conv.messages {
            assert_ne!(m.guid, "g-r");
        }
    }
}
