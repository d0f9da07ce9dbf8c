//! Read-only query surface over the message store, and the assembly of
//! whole conversations: open the store, fetch the conversations with
//! unread messages, and populate each with participants, messages,
//! attachments and reactions. Every query runs behind a trusted wrapper
//! around the SQLite driver; everything computed from the returned rows
//! is verified.

use vstd::prelude::*;
use crate::assemble::{
    AttachmentRow, MessageRow, attach_and_reverse, build_messages, clean_attachments, guids_of,
    lemma_build_messages_len, lemma_build_messages_retention, message_retention_ok,
    spec_attach_reversed, spec_with_reactions,
};
use crate::models::{Conversation, ConversationModel, Message, spec_is_group};
use crate::reactions::{AnnotationRow, prefixed_forms};
use crate::strutil::clone_opt_string;
use crate::spec_apple_to_unix;
use crate::apple_to_unix;

verus! {

/// The SQLite connection handle of the driver crate, opaque to the
/// verifier; values of it only pass through.
#[verifier::external_type_specification]
#[verifier::external_body]
pub struct ExConnection(rusqlite::Connection);

/// Why a store operation failed: the store file is missing, access
/// control refused to open it, or the backing driver reported an error.
#[derive(Debug)]
pub enum DbError {
    NotFound(String),
    PermissionDenied(String),
    Sqlite(String),
}

/// The description [`DbError::message`] renders.
pub open spec fn spec_db_error_message(e: DbError) -> Seq<char> {
    match e {
        DbError::NotFound(p) => "Database not found at "@ + p@,
        DbError::PermissionDenied(p) => "Permission denied: "@ + p@,
        DbError::Sqlite(m) => "SQLite error: "@ + m@,
    }
}

impl DbError {
    /// A human-readable description of the failure.
    pub fn message(&self) -> (r: String)
        ensures
            r@ == spec_db_error_message(*self),
    {
        match self {
            DbError::NotFound(p) => String::from_str("Database not found at ").concat(
                p.as_str(),
            ),
            DbError::PermissionDenied(p) => String::from_str("Permission denied: ").concat(
                p.as_str(),
            ),
            DbError::Sqlite(m) => String::from_str("SQLite error: ").concat(m.as_str()),
        }
    }
}

/// The most recent messages a conversation load returns: the query
/// fetches at most this many rows, and the verified pipeline enforces
/// the same bound on what it builds.
pub const MESSAGE_LIMIT: usize = 15;

/// Handle to the message store, read-only.
pub struct Database {
    conn: rusqlite::Connection,
}

/// A raw conversation row as the store returns it.
pub struct ConversationRow {
    pub chat_id: i64,
    pub display_name: Option<String>,
    pub chat_identifier: String,
    pub style: i32,
    pub unread_count: i64,
    pub date_raw: i64,
}

/// Mathematical view of a [`ConversationRow`].
#[verifier::ext_equal]
pub struct ConversationRowModel {
    pub chat_id: int,
    pub display_name: Option<Seq<char>>,
    pub chat_identifier: Seq<char>,
    pub style: int,
    pub unread_count: int,
    pub date_raw: int,
}

impl View for ConversationRow {
    type V = ConversationRowModel;

    open spec fn view(&self) -> ConversationRowModel {
        ConversationRowModel {
            chat_id: self.chat_id as int,
            display_name: self.display_name.deep_view(),
            chat_identifier: self.chat_identifier@,
            style: self.style as int,
            unread_count: self.unread_count as int,
            date_raw: self.date_raw as int,
        }
    }
}

impl DeepView for ConversationRow {
    type V = ConversationRowModel;

    open spec fn deep_view(&self) -> ConversationRowModel {
        self.view()
    }
}

/// The conversation a raw row yields, before participants, messages and
/// the resolved name are filled in.
pub open spec fn spec_conversation_of(row: ConversationRowModel) -> ConversationModel {
    ConversationModel {
        chat_id: row.chat_id,
        display_name: row.display_name,
        chat_identifier: row.chat_identifier,
        style: row.style,
        unread_count: row.unread_count,
        last_message_date: spec_apple_to_unix(row.date_raw),
        messages: Seq::empty(),
        participants: Seq::empty(),
        resolved_name: None,
    }
}

/// Build the bare conversation a raw row denotes; see
/// [`spec_conversation_of`].
pub fn conversation_of_row(row: &ConversationRow) -> (r: Conversation)
    ensures
        r@ == spec_conversation_of(row@),
{
    let r = Conversation {
        chat_id: row.chat_id,
        display_name: clone_opt_string(&row.display_name),
        chat_identifier: row.chat_identifier.clone(),
        style: row.style,
        unread_count: row.unread_count,
        last_message_date: apple_to_unix(row.date_raw),
        messages: Vec::new(),
        participants: Vec::new(),
        resolved_name: None,
    };
    proof {
        assert(r@.messages =~= Seq::<crate::models::MessageModel>::empty());
        assert(r@.participants =~= Seq::<Seq<char>>::empty());
        assert(r@ =~= spec_conversation_of(row@));
    }
    r
}

/// `n` SQL parameter placeholders joined by commas: the `IN` list for a
/// batched query.
pub open spec fn spec_placeholders(n: int) -> Seq<char>
    decreases n,
{
    if n <= 0 {
        Seq::empty()
    } else if n == 1 {
        "?"@
    } else {
        spec_placeholders(n - 1) + ",?"@
    }
}

fn placeholders(n: usize) -> (r: String)
    ensures
        r@ == spec_placeholders(n as int),
{
    let mut out = String::new();
    let mut i: usize = 0;
    while i < n
        invariant
            0 <= i <= n,
            out@ == spec_placeholders(i as int),
        decreases n - i,
    {
        if i == 0 {
            out.append("?");
        } else {
            out.append(",?");
        }
        i = i + 1;
    }
    out
}

/// Relies on `std::path::Path::exists`: whether the path names an
/// existing file; the result depends on the file system.
#[verifier::external_body]
fn path_exists(path: &str) -> bool {
    std::path::Path::new(path).exists()
}

/// Relies on `dirs::home_dir`: the user's home directory as the
/// platform reports it, if any; the result depends on the environment.
#[verifier::external_body]
fn home_dir_string() -> Option<String> {
    dirs::home_dir().and_then(|p| p.to_str().map(|s| s.to_string()))
}

/// Relies on `rusqlite::Connection::open_with_flags` with the read-only
/// and no-mutex flags; per the driver's error rendering, an open failure
/// whose message contains "unable to open" is access denial.
#[verifier::external_body]
fn open_connection(path: &str) -> (r: Result<Database, DbError>)
    ensures
        r is Err ==> match r->Err_0 {
            DbError::NotFound(p) => false,
            DbError::PermissionDenied(p) => p@ == path@,
            DbError::Sqlite(m) => true,
        },
{
    let flags = rusqlite::OpenFlags::SQLITE_OPEN_READ_ONLY
        | rusqlite::OpenFlags::SQLITE_OPEN_NO_MUTEX;
    match rusqlite::Connection::open_with_flags(path, flags) {
        Ok(conn) => Ok(Database { conn }),
        Err(e) if e.to_string().contains("unable to open") => Err(
            DbError::PermissionDenied(path.to_string()),
        ),
        Err(e) => Err(DbError::Sqlite(e.to_string())),
    }
}

impl Database {
    /// The store's well-known path under the home directory, or `None`
    /// when the platform reports no home directory.
    pub fn default_path() -> (r: Option<String>)
        ensures
            r is Some ==> exists|h: Seq<char>| r->0@ == h + "/Library/Messages/chat.db"@,
    {
        match home_dir_string() {
            Some(h) => {
                let ghost hv = h@;
                let p = h.concat("/Library/Messages/chat.db");
                proof {
                    assert(p@ == hv + "/Library/Messages/chat.db"@);
                }
                Some(p)
            },
            None => None,
        }
    }

    /// Open the store read-only. A missing file is `NotFound`, an open
    /// refused by access control is `PermissionDenied`, any other driver
    /// failure is `Sqlite`; both path-carrying errors name this path.
    pub fn open(path: &str) -> (r: Result<Database, DbError>)
        ensures
            r is Err ==> match r->Err_0 {
                DbError::NotFound(p) => p@ == path@,
                DbError::PermissionDenied(p) => p@ == path@,
                DbError::Sqlite(m) => true,
            },
    {
        if !path_exists(path) {
            return Err(DbError::NotFound(String::from_str(path)));
        }
        open_connection(path)
    }

    /// Relies on `rusqlite::Connection::prepare` and
    /// `rusqlite::Statement::query_map`: the store's conversations with
    /// unread, not-from-self, normal, finished messages, not hidden,
    /// grouped by conversation. The statement's `ORDER BY ... DESC`
    /// clause, executed by the bundled SQLite engine, yields the rows
    /// ordered by raw last-message date descending (newest first); the
    /// rows' contents come from disk and nothing else is promised of
    /// them.
    #[verifier::external_body]
    fn query_conversation_rows(&self) -> (r: Result<Vec<ConversationRow>, DbError>)
        ensures
            r is Ok ==> forall|i: int, j: int|
                0 <= i < j < r->Ok_0.deep_view().len()
                    ==> #[trigger] r->Ok_0.deep_view()[i].date_raw
                    >= #[trigger] r->Ok_0.deep_view()[j].date_raw,
    {
        (|| -> Result<Vec<ConversationRow>, rusqlite::Error> {
            let mut stmt = self.conn.prepare("SELECT c.ROWID as chat_id, c.display_name, c.chat_identifier, c.style, COUNT(*) as unread_count, MAX(m.date) as last_message_date FROM chat c JOIN chat_message_join cmj ON c.ROWID = cmj.chat_id JOIN message m ON cmj.message_id = m.ROWID WHERE m.is_read = 0 AND m.is_from_me = 0 AND m.item_type = 0 AND m.is_finished = 1 AND c.is_filtered != 2 GROUP BY c.ROWID ORDER BY last_message_date DESC")?;
            let rows = stmt.query_map([], |row| Ok(ConversationRow { chat_id: row.get(0)?, display_name: row.get(1)?, chat_identifier: row.get(2)?, style: row.get(3)?, unread_count: row.get(4)?, date_raw: row.get(5)? }))?;
            rows.collect()
        })().map_err(|e| DbError::Sqlite(e.to_string()))
    }

    /// Relies on `rusqlite::Connection::prepare` and
    /// `rusqlite::Statement::query_map`: the participant identifiers of
    /// a conversation. The rows come from disk; nothing is promised of
    /// them.
    #[verifier::external_body]
    fn query_participants(&self, chat_id: i64) -> (r: Result<Vec<String>, DbError>) {
        (|| -> Result<Vec<String>, rusqlite::Error> {
            let mut stmt = self.conn.prepare("SELECT h.id FROM handle h JOIN chat_handle_join chj ON h.ROWID = chj.handle_id WHERE chj.chat_id = ?")?;
            let rows = stmt.query_map([chat_id], |row| row.get(0))?;
            rows.collect()
        })().map_err(|e| DbError::Sqlite(e.to_string()))
    }

    /// Relies on `rusqlite::Connection::prepare` and
    /// `rusqlite::Statement::query_map`: up to the 15 most recent
    /// normal, non-annotation messages of a conversation. The
    /// statement's `ORDER BY m.date DESC` clause, executed by the
    /// bundled SQLite engine, yields the rows ordered by raw date
    /// descending (newest first), the premise of the pipeline's
    /// reversal into chronological order; the rows' contents come from
    /// disk and nothing else is promised of them.
    #[verifier::external_body]
    fn query_message_rows(&self, chat_id: i64) -> (r: Result<Vec<MessageRow>, DbError>)
        ensures
            r is Ok ==> forall|i: int, j: int|
                0 <= i < j < r->Ok_0.deep_view().len()
                    ==> #[trigger] r->Ok_0.deep_view()[i].date_raw
                    >= #[trigger] r->Ok_0.deep_view()[j].date_raw,
    {
        (|| -> Result<Vec<MessageRow>, rusqlite::Error> {
            let mut stmt = self.conn.prepare("SELECT m.ROWID, m.guid, m.text, m.attributedBody, m.date, m.is_from_me, m.cache_has_attachments, h.id as sender FROM message m JOIN chat_message_join cmj ON m.ROWID = cmj.message_id LEFT JOIN handle h ON m.handle_id = h.ROWID WHERE cmj.chat_id = ? AND m.item_type = 0 AND m.associated_message_type = 0 ORDER BY m.date DESC LIMIT 15")?;
            let rows = stmt.query_map([chat_id], |row| Ok(MessageRow { rowid: row.get(0)?, guid: row.get(1)?, text: row.get(2)?, attributed_body: row.get(3)?, date_raw: row.get(4)?, is_from_me: row.get(5)?, has_attachments: row.get(6)?, sender: row.get(7)? }))?;
            rows.collect()
        })().map_err(|e| DbError::Sqlite(e.to_string()))
    }

    /// Relies on `rusqlite::Connection::prepare` and
    /// `rusqlite::Statement::query_map`: the attachment rows of a
    /// message. The rows come from disk; nothing is promised of them.
    #[verifier::external_body]
    fn query_attachment_rows(&self, message_rowid: i64) -> (r: Result<
        Vec<AttachmentRow>,
        DbError,
    >) {
        (|| -> Result<Vec<AttachmentRow>, rusqlite::Error> {
            let mut stmt = self.conn.prepare("SELECT a.filename, a.mime_type, a.transfer_name FROM attachment a JOIN message_attachment_join maj ON a.ROWID = maj.attachment_id WHERE maj.message_id = ?")?;
            let rows = stmt.query_map([message_rowid], |row| Ok(AttachmentRow { filename: row.get(0)?, mime_type: row.get(1)?, transfer_name: row.get(2)? }))?;
            rows.collect()
        })().map_err(|e| DbError::Sqlite(e.to_string()))
    }

    /// Relies on `rusqlite::Connection::prepare`,
    /// `rusqlite::params_from_iter` and
    /// `rusqlite::Statement::query_map`: the annotation rows whose
    /// encoded reference is one of the given forms and whose code is in
    /// the recognized set; the verified resolver re-checks both. The
    /// rows come from disk; nothing is promised of them.
    #[verifier::external_body]
    fn query_annotation_rows(&self, prefixed: &Vec<String>, ph: &str) -> (r: Result<
        Vec<AnnotationRow>,
        DbError,
    >) {
        (|| -> Result<Vec<AnnotationRow>, rusqlite::Error> {
            let sql = format!("SELECT m.associated_message_guid, m.associated_message_type, m.is_from_me, h.id FROM message m LEFT JOIN handle h ON m.handle_id = h.ROWID WHERE m.associated_message_guid IN ({}) AND m.associated_message_type IN (2000, 2001, 2002, 2003, 2004, 2005, 2006)", ph);
            let mut stmt = self.conn.prepare(&sql)?;
            let rows = stmt.query_map(rusqlite::params_from_iter(prefixed.iter()), |row| Ok(AnnotationRow { assoc_guid: row.get(0)?, code: row.get(1)?, is_from_me: row.get(2)?, sender: row.get(3)? }))?;
            rows.collect()
        })().map_err(|e| DbError::Sqlite(e.to_string()))
    }

    /// Load the finished message list of one conversation: rows, their
    /// attachments, the batched annotation query, assembly, reactions,
    /// chronological order. Whatever rows the store returned, the
    /// result holds at most [`MESSAGE_LIMIT`] messages, and every
    /// message in it is retained rightfully: it has non-empty display
    /// text or at least one attachment.
    pub fn load_messages(&self, chat_id: i64) -> (r: Result<Vec<Message>, DbError>)
        ensures
            r is Ok ==> r->Ok_0.deep_view().len() <= MESSAGE_LIMIT,
            r is Ok ==> forall|k: int|
                0 <= k < r->Ok_0.deep_view().len() ==> message_retention_ok(
                    #[trigger] r->Ok_0.deep_view()[k],
                ),
    {
        let mut rows = match self.query_message_rows(chat_id) {
            Ok(rows) => rows,
            Err(e) => {
                return Err(e);
            },
        };
        rows.truncate(MESSAGE_LIMIT);
        let mut atts: Vec<Vec<crate::models::Attachment>> = Vec::new();
        let mut i: usize = 0;
        while i < rows.len()
            invariant
                0 <= i <= rows@.len(),
                atts@.len() == i,
            decreases rows@.len() - i,
        {
            if rows[i].has_attachments {
                let att_rows = match self.query_attachment_rows(rows[i].rowid) {
                    Ok(att_rows) => att_rows,
                    Err(e) => {
                        return Err(e);
                    },
                };
                atts.push(clean_attachments(&att_rows));
            } else {
                atts.push(Vec::new());
            }
            i = i + 1;
        }
        let ghost rows_dv = rows.deep_view();
        let ghost atts_dv = atts.deep_view();
        let messages = build_messages(&rows, atts);
        let ghost ms_dv = messages.deep_view();
        let guids = guids_of(&messages);
        let annos = if guids.len() > 0 {
            let forms = prefixed_forms(&guids);
            let ph = placeholders(forms.len());
            match self.query_annotation_rows(&forms, ph.as_str()) {
                Ok(annos) => annos,
                Err(e) => {
                    return Err(e);
                },
            }
        } else {
            Vec::new()
        };
        let finished = attach_and_reverse(messages, &annos);
        proof {
            lemma_build_messages_len(rows_dv, atts_dv);
            assert(rows_dv.len() == rows@.len());
            lemma_build_messages_retention(rows_dv, atts_dv);
            assert(finished.deep_view() == spec_attach_reversed(ms_dv, annos.deep_view()));
            assert forall|k: int| 0 <= k < finished.deep_view().len() implies message_retention_ok(
                #[trigger] finished.deep_view()[k],
            ) by {
                let n = ms_dv.len();
                assert(finished.deep_view()[k] == spec_with_reactions(
                    ms_dv[n - 1 - k],
                    annos.deep_view(),
                ));
                assert(message_retention_ok(ms_dv[n - 1 - k]));
            }
        }
        Ok(finished)
    }

    /// All conversations with unread messages, newest first as the
    /// store returns them, each populated with participants (groups
    /// only), messages in chronological order, attachments and
    /// reactions. Whatever rows the store returned, every message of
    /// every conversation is retained rightfully: it has non-empty
    /// display text or at least one attachment; each conversation holds
    /// at most [`MESSAGE_LIMIT`] messages; participants are loaded only
    /// for group conversations; and no name resolution has taken place
    /// yet (see `resolve_conversation_name`).
    pub fn unread_conversations(&self) -> (r: Result<Vec<Conversation>, DbError>)
        ensures
            r is Ok ==> forall|ci: int, mi: int|
                0 <= ci < r->Ok_0.deep_view().len() && 0 <= mi
                    < r->Ok_0.deep_view()[ci].messages.len() ==> message_retention_ok(
                    #[trigger] r->Ok_0.deep_view()[ci].messages[mi],
                ),
            r is Ok ==> forall|ci: int|
                0 <= ci < r->Ok_0.deep_view().len() && !spec_is_group(
                    #[trigger] r->Ok_0.deep_view()[ci].style,
                ) ==> r->Ok_0.deep_view()[ci].participants.len() == 0,
            r is Ok ==> forall|ci: int|
                0 <= ci < r->Ok_0.deep_view().len() ==> (#[trigger] r->Ok_0.deep_view()[ci]).resolved_name is None,
            r is Ok ==> forall|ci: int|
                0 <= ci < r->Ok_0.deep_view().len() ==> (#[trigger] r->Ok_0.deep_view()[ci]).messages.len() <= MESSAGE_LIMIT,
    {
        let rows = match self.query_conversation_rows() {
            Ok(rows) => rows,
            Err(e) => {
                return Err(e);
            },
        };
        let mut convs: Vec<Conversation> = Vec::new();
        let mut i: usize = 0;
        while i < rows.len()
            invariant
                0 <= i <= rows@.len(),
                forall|ci: int, mi: int|
                    0 <= ci < convs.deep_view().len() && 0 <= mi
                        < convs.deep_view()[ci].messages.len() ==> message_retention_ok(
                        #[trigger] convs.deep_view()[ci].messages[mi],
                    ),
                forall|ci: int|
                    0 <= ci < convs.deep_view().len() && !spec_is_group(
                        #[trigger] convs.deep_view()[ci].style,
                    ) ==> convs.deep_view()[ci].participants.len() == 0,
                forall|ci: int|
                    0 <= ci < convs.deep_view().len() ==> (#[trigger] convs.deep_view()[ci]).resolved_name is None,
                forall|ci: int|
                    0 <= ci < convs.deep_view().len() ==> (#[trigger] convs.deep_view()[ci]).messages.len() <= MESSAGE_LIMIT,
            decreases rows@.len() - i,
        {
            let mut conv = conversation_of_row(&rows[i]);
            if conv.is_group() {
                match self.query_participants(conv.chat_id) {
                    Ok(parts) => {
                        conv.participants = parts;
                    },
                    Err(e) => {
                        return Err(e);
                    },
                }
            }
            match self.load_messages(conv.chat_id) {
                Ok(messages) => {
                    conv.messages = messages;
                },
                Err(e) => {
                    return Err(e);
                },
            }
            let ghost prev = convs.deep_view();
            let ghost convdv = conv@;
            convs.push(conv);
            proof {
                assert(forall|k: int|
                    0 <= k < prev.len() ==> #[trigger] convs.deep_view()[k] == prev[k]);
                assert(convs.deep_view()[prev.len() as int] == convdv);
            }
            i = i + 1;
        }
        Ok(convs)
    }
}

} // verus!
