//! The pure assembly pipeline: raw store rows in, finished entities out.
//! Display text is derived (stored text first, then the decoded binary
//! blob, then empty), structural messages are dropped, attachments with
//! empty filenames are discarded, reactions are attached to their target
//! messages, and the message list is reversed into chronological order.
//! Conversation display names are resolved through the contact cache.

use vstd::prelude::*;
use crate::contacts::{ContactResolver, spec_resolve};
use crate::decoder::{parse_attributed_body, spec_parse_attributed_body};
use crate::models::{
    Attachment, AttachmentModel, Conversation, ConversationModel, Message, MessageModel,
    display_text_of, spec_display_text, spec_is_group,
};
use crate::reactions::{AnnotationRow, AnnotationRowModel, reactions_for, spec_reactions_for};
use crate::strutil::{clone_opt_string, first_word, spec_first_word};
use crate::spec_apple_to_unix;
use crate::apple_to_unix;

verus! {

/// A raw message row as the store returns it: undecoded text and blob,
/// anchor-relative timestamp.
pub struct MessageRow {
    pub rowid: i64,
    pub guid: String,
    pub text: Option<String>,
    pub attributed_body: Option<Vec<u8>>,
    pub date_raw: i64,
    pub is_from_me: bool,
    pub has_attachments: bool,
    pub sender: Option<String>,
}

/// Mathematical view of a [`MessageRow`].
#[verifier::ext_equal]
pub struct MessageRowModel {
    pub rowid: int,
    pub guid: Seq<char>,
    pub text: Option<Seq<char>>,
    pub attributed_body: Option<Seq<u8>>,
    pub date_raw: int,
    pub is_from_me: bool,
    pub has_attachments: bool,
    pub sender: Option<Seq<char>>,
}

impl View for MessageRow {
    type V = MessageRowModel;

    open spec fn view(&self) -> MessageRowModel {
        MessageRowModel {
            rowid: self.rowid as int,
            guid: self.guid@,
            text: self.text.deep_view(),
            attributed_body: self.attributed_body.deep_view(),
            date_raw: self.date_raw as int,
            is_from_me: self.is_from_me,
            has_attachments: self.has_attachments,
            sender: self.sender.deep_view(),
        }
    }
}

impl DeepView for MessageRow {
    type V = MessageRowModel;

    open spec fn deep_view(&self) -> MessageRowModel {
        self.view()
    }
}

/// A raw attachment row as the store returns it; any column may be null.
pub struct AttachmentRow {
    pub filename: Option<String>,
    pub mime_type: Option<String>,
    pub transfer_name: Option<String>,
}

/// Mathematical view of an [`AttachmentRow`].
#[verifier::ext_equal]
pub struct AttachmentRowModel {
    pub filename: Option<Seq<char>>,
    pub mime_type: Option<Seq<char>>,
    pub transfer_name: Option<Seq<char>>,
}

impl View for AttachmentRow {
    type V = AttachmentRowModel;

    open spec fn view(&self) -> AttachmentRowModel {
        AttachmentRowModel {
            filename: self.filename.deep_view(),
            mime_type: self.mime_type.deep_view(),
            transfer_name: self.transfer_name.deep_view(),
        }
    }
}

impl DeepView for AttachmentRow {
    type V = AttachmentRowModel;

    open spec fn deep_view(&self) -> AttachmentRowModel {
        self.view()
    }
}

/// A nullable text column read as text, null as empty.
pub open spec fn opt_text(o: Option<Seq<char>>) -> Seq<char> {
    match o {
        Some(s) => s,
        None => Seq::empty(),
    }
}

fn opt_string_or_empty(o: &Option<String>) -> (r: String)
    ensures
        r@ == opt_text(o.deep_view()),
{
    match o {
        Some(s) => s.clone(),
        None => String::new(),
    }
}

/// The attachments that raw attachment rows yield: null columns read as
/// empty, rows with an empty filename dropped, order kept.
pub open spec fn spec_clean_attachments(rows: Seq<AttachmentRowModel>) -> Seq<AttachmentModel>
    decreases rows.len(),
{
    if rows.len() == 0 {
        Seq::empty()
    } else {
        spec_clean_attachments(rows.drop_last()) + if opt_text(rows.last().filename).len()
            > 0 {
            seq![
                AttachmentModel {
                    filename: opt_text(rows.last().filename),
                    mime_type: opt_text(rows.last().mime_type),
                    transfer_name: opt_text(rows.last().transfer_name),
                },
            ]
        } else {
            Seq::empty()
        }
    }
}

/// Turn raw attachment rows into attachments, dropping rows with an
/// empty filename.
pub fn clean_attachments(rows: &Vec<AttachmentRow>) -> (r: Vec<Attachment>)
    ensures
        r.deep_view() == spec_clean_attachments(rows.deep_view()),
{
    let mut out: Vec<Attachment> = Vec::new();
    let mut i: usize = 0;
    proof {
        assert(out.deep_view() =~= spec_clean_attachments(rows.deep_view().subrange(0, 0)));
    }
    while i < rows.len()
        invariant
            0 <= i <= rows@.len(),
            rows.deep_view().len() == rows@.len(),
            out.deep_view() == spec_clean_attachments(rows.deep_view().subrange(0, i as int)),
        decreases rows@.len() - i,
    {
        let ghost prefix = rows.deep_view().subrange(0, i as int);
        let filename = opt_string_or_empty(&rows[i].filename);
        if !filename.as_str().is_empty() {
            let att = Attachment {
                filename,
                mime_type: opt_string_or_empty(&rows[i].mime_type),
                transfer_name: opt_string_or_empty(&rows[i].transfer_name),
            };
            out.push(att);
        }
        proof {
            let ext = rows.deep_view().subrange(0, i + 1);
            assert(ext.drop_last() =~= prefix);
            assert(ext.last() == rows.deep_view()[i as int]);
            assert(out.deep_view() =~= spec_clean_attachments(ext));
        }
        i = i + 1;
    }
    proof {
        assert(rows.deep_view().subrange(0, rows.deep_view().len() as int)
            =~= rows.deep_view());
    }
    out
}

/// The display-text source of a message row: the stored text when it is
/// non-empty, else the decoded binary blob when it decodes, else empty.
pub open spec fn spec_raw_text(text: Option<Seq<char>>, blob: Option<Seq<u8>>) -> Seq<char> {
    if text is Some && text->0.len() > 0 {
        text->0
    } else if blob is Some && spec_parse_attributed_body(blob->0) is Some {
        spec_parse_attributed_body(blob->0)->0
    } else {
        Seq::empty()
    }
}

/// Derive the final text of a message row; see [`spec_raw_text`]. A
/// blob that fails to decode degrades to empty text.
pub fn derive_text(text: &Option<String>, blob: &Option<Vec<u8>>) -> (r: String)
    ensures
        r@ == spec_raw_text(text.deep_view(), blob.deep_view()),
{
    match text {
        Some(t) => {
            if !t.as_str().is_empty() {
                return t.clone();
            }
        },
        None => {},
    }
    match blob {
        Some(b) => {
            proof {
                assert(b.deep_view() =~= b@);
            }
            match parse_attributed_body(b.as_slice()) {
                Some(s) => s,
                None => String::new(),
            }
        },
        None => String::new(),
    }
}

/// Whether a message row is kept: non-empty display text after
/// normalization, or at least one attachment.
pub open spec fn spec_retained(row: MessageRowModel, atts: Seq<AttachmentModel>) -> bool {
    spec_display_text(spec_raw_text(row.text, row.attributed_body)).len() > 0 || atts.len() > 0
}

/// The message a retained row yields; reactions are attached later.
pub open spec fn spec_message_of(row: MessageRowModel, atts: Seq<AttachmentModel>) -> MessageModel {
    MessageModel {
        rowid: row.rowid,
        guid: row.guid,
        text: spec_raw_text(row.text, row.attributed_body),
        date: spec_apple_to_unix(row.date_raw),
        is_from_me: row.is_from_me,
        sender: row.sender,
        attachments: atts,
        reactions: Seq::empty(),
    }
}

/// The retained messages of a row list, in row order, each with its
/// attachment list; see [`spec_retained`] and [`spec_message_of`].
pub open spec fn spec_build_messages(
    rows: Seq<MessageRowModel>,
    atts: Seq<Seq<AttachmentModel>>,
) -> Seq<MessageModel>
    decreases rows.len(),
{
    if rows.len() == 0 {
        Seq::empty()
    } else {
        spec_build_messages(rows.drop_last(), atts.drop_last()) + if spec_retained(
            rows.last(),
            atts.last(),
        ) {
            seq![spec_message_of(rows.last(), atts.last())]
        } else {
            Seq::empty()
        }
    }
}

/// Build the retained messages from raw rows and their (already
/// cleaned) attachment lists, keeping row order.
pub fn build_messages(rows: &Vec<MessageRow>, atts: Vec<Vec<Attachment>>) -> (r: Vec<Message>)
    requires
        rows@.len() == atts@.len(),
    ensures
        r.deep_view() == spec_build_messages(rows.deep_view(), atts.deep_view()),
{
    let ghost rows_dv = rows.deep_view();
    let ghost atts_dv = atts.deep_view();
    let mut atts = atts;
    let mut out: Vec<Message> = Vec::new();
    let mut i: usize = 0;
    proof {
        assert(out.deep_view() =~= spec_build_messages(
            rows_dv.subrange(0, 0),
            atts_dv.subrange(0, 0),
        ));
    }
    while i < rows.len()
        invariant
            0 <= i <= rows@.len(),
            rows_dv == rows.deep_view(),
            rows_dv.len() == rows@.len(),
            atts_dv.len() == rows@.len(),
            atts@.len() == rows@.len() - i,
            atts.deep_view() =~= atts_dv.subrange(i as int, atts_dv.len() as int),
            out.deep_view() == spec_build_messages(
                rows_dv.subrange(0, i as int),
                atts_dv.subrange(0, i as int),
            ),
        decreases rows@.len() - i,
    {
        let row = &rows[i];
        proof {
            assert(row.deep_view() == rows_dv[i as int]);
        }
        let ghost atts_before = atts.deep_view();
        let att_list = atts.remove(0);
        proof {
            assert(atts_before[0] == atts_dv[i as int]);
            assert(att_list.deep_view() == atts_before[0]);
            assert(forall|k: int|
                0 <= k < atts.deep_view().len() ==> #[trigger] atts.deep_view()[k]
                    == atts_before[k + 1]);
            assert(atts.deep_view() =~= atts_dv.subrange(i + 1, atts_dv.len() as int));
            assert(att_list@.len() == att_list.deep_view().len());
        }
        let text = derive_text(&row.text, &row.attributed_body);
        let shown = display_text_of(text.as_str());
        if !shown.as_str().is_empty() || att_list.len() > 0 {
            let m = Message {
                rowid: row.rowid,
                guid: row.guid.clone(),
                text,
                date: apple_to_unix(row.date_raw),
                is_from_me: row.is_from_me,
                sender: clone_opt_string(&row.sender),
                attachments: att_list,
                reactions: Vec::new(),
            };
            proof {
                assert(m.deep_view().reactions =~= Seq::<
                    crate::models::ReactionModel,
                >::empty());
                assert(m.deep_view() =~= spec_message_of(rows_dv[i as int], atts_dv[i as int]));
            }
            out.push(m);
            proof {
                assert(spec_retained(rows_dv[i as int], atts_dv[i as int]));
            }
        } else {
            proof {
                assert(!spec_retained(rows_dv[i as int], atts_dv[i as int]));
            }
        }
        proof {
            let rext = rows_dv.subrange(0, i + 1);
            let aext = atts_dv.subrange(0, i + 1);
            assert(rext.drop_last() =~= rows_dv.subrange(0, i as int));
            assert(aext.drop_last() =~= atts_dv.subrange(0, i as int));
            assert(rext.last() == rows_dv[i as int]);
            assert(aext.last() == atts_dv[i as int]);
            assert(out.deep_view() =~= spec_build_messages(rext, aext));
        }
        i = i + 1;
    }
    proof {
        assert(rows_dv.subrange(0, rows_dv.len() as int) =~= rows_dv);
        assert(atts_dv.subrange(0, atts_dv.len() as int) =~= atts_dv);
    }
    out
}

/// Whether a finished message is rightfully retained: it has non-empty
/// display text or at least one attachment.
pub open spec fn message_retention_ok(m: MessageModel) -> bool {
    spec_display_text(m.text).len() > 0 || m.attachments.len() > 0
}

/// Every message the assembly yields is rightfully retained: a message
/// whose display text is empty after normalization and which carries no
/// attachment never appears in the built list.
pub proof fn lemma_build_messages_retention(
    rows: Seq<MessageRowModel>,
    atts: Seq<Seq<AttachmentModel>>,
)
    ensures
        forall|k: int|
            0 <= k < spec_build_messages(rows, atts).len() ==> message_retention_ok(
                #[trigger] spec_build_messages(rows, atts)[k],
            ),
    decreases rows.len(),
{
    if rows.len() > 0 {
        lemma_build_messages_retention(rows.drop_last(), atts.drop_last());
        let built = spec_build_messages(rows, atts);
        let rec = spec_build_messages(rows.drop_last(), atts.drop_last());
        if spec_retained(rows.last(), atts.last()) {
            assert(built.last() == spec_message_of(rows.last(), atts.last()));
            assert(message_retention_ok(built.last()));
        }
        assert(forall|k: int| 0 <= k < rec.len() ==> built[k] == rec[k]);
    }
}

/// The assembly never yields more messages than it was given rows.
pub proof fn lemma_build_messages_len(
    rows: Seq<MessageRowModel>,
    atts: Seq<Seq<AttachmentModel>>,
)
    ensures
        spec_build_messages(rows, atts).len() <= rows.len(),
    decreases rows.len(),
{
    if rows.len() > 0 {
        lemma_build_messages_len(rows.drop_last(), atts.drop_last());
    }
}

/// The GUIDs of a message list, in order.
pub open spec fn spec_guids(ms: Seq<MessageModel>) -> Seq<Seq<char>> {
    Seq::new(ms.len(), |i: int| ms[i].guid)
}

/// Collect the GUIDs of a message list, in order: the join keys for the
/// batched annotation query.
pub fn guids_of(messages: &Vec<Message>) -> (r: Vec<String>)
    ensures
        r.deep_view() == spec_guids(messages.deep_view()),
{
    let mut out: Vec<String> = Vec::new();
    let mut i: usize = 0;
    while i < messages.len()
        invariant
            0 <= i <= messages@.len(),
            messages.deep_view().len() == messages@.len(),
            out.deep_view().len() == i,
            forall|k: int|
                0 <= k < i ==> out.deep_view()[k] == messages.deep_view()[k].guid,
        decreases messages@.len() - i,
    {
        let ghost prev = out.deep_view();
        out.push(messages[i].guid.clone());
        proof {
            assert(forall|k: int|
                0 <= k < prev.len() ==> #[trigger] out.deep_view()[k] == prev[k]);
            assert(out.deep_view()[i as int] == messages.deep_view()[i as int].guid);
        }
        i = i + 1;
    }
    proof {
        assert(out.deep_view() =~= spec_guids(messages.deep_view()));
    }
    out
}

/// A message with the reactions the annotation rows attach to its GUID.
pub open spec fn spec_with_reactions(
    m: MessageModel,
    annos: Seq<AnnotationRowModel>,
) -> MessageModel {
    MessageModel { reactions: spec_reactions_for(annos, m.guid), ..m }
}

/// The finished message list: reversed into chronological order, each
/// message carrying its reactions.
pub open spec fn spec_attach_reversed(
    ms: Seq<MessageModel>,
    annos: Seq<AnnotationRowModel>,
) -> Seq<MessageModel> {
    Seq::new(ms.len(), |i: int| spec_with_reactions(ms[ms.len() - 1 - i], annos))
}

/// Attach reactions to each message and reverse the list from
/// newest-first into chronological order.
pub fn attach_and_reverse(messages: Vec<Message>, annos: &Vec<AnnotationRow>) -> (r: Vec<Message>)
    ensures
        r.deep_view() == spec_attach_reversed(messages.deep_view(), annos.deep_view()),
{
    let ghost orig = messages.deep_view();
    let mut messages = messages;
    let mut out: Vec<Message> = Vec::new();
    while messages.len() > 0
        invariant
            messages.deep_view() =~= orig.subrange(0, messages@.len() as int),
            messages.deep_view().len() == messages@.len(),
            out.deep_view().len() == orig.len() - messages@.len(),
            forall|k: int|
                0 <= k < out.deep_view().len() ==> out.deep_view()[k] == spec_with_reactions(
                    orig[orig.len() - 1 - k],
                    annos.deep_view(),
                ),
        decreases messages@.len(),
    {
        let ghost n_rem = messages@.len() as int;
        let ghost rem_before = messages.deep_view();
        let m = messages.pop().unwrap();
        proof {
            assert(m.deep_view() == rem_before[n_rem - 1]);
            assert(rem_before[n_rem - 1] == orig[n_rem - 1]);
            assert(messages.deep_view() =~= orig.subrange(0, messages@.len() as int));
        }
        let rr = reactions_for(annos, m.guid.as_str());
        let m2 = Message { reactions: rr, ..m };
        proof {
            assert(m2.deep_view() =~= spec_with_reactions(orig[n_rem - 1], annos.deep_view()));
        }
        let ghost out_before = out.deep_view();
        out.push(m2);
        proof {
            assert(forall|k: int|
                0 <= k < out_before.len() ==> #[trigger] out.deep_view()[k]
                    == out_before[k]);
            assert(out.deep_view()[out_before.len() as int] == spec_with_reactions(
                orig[n_rem - 1],
                annos.deep_view(),
            ));
            assert(orig.len() - 1 - out_before.len() == n_rem - 1);
        }
    }
    proof {
        assert(out.deep_view() =~= spec_attach_reversed(orig, annos.deep_view()));
    }
    out
}

/// The first-name form used for group participants: the first
/// whitespace-delimited word of the resolved name, or the whole name if
/// it has no such word.
pub open spec fn spec_first_name(n: Seq<char>) -> Seq<char> {
    if spec_first_word(n).len() > 0 {
        spec_first_word(n)
    } else {
        n
    }
}

/// The resolved first names of a group's participants, in order,
/// skipping participants the cache cannot resolve.
pub open spec fn spec_group_names(
    m: Map<Seq<char>, Seq<char>>,
    parts: Seq<Seq<char>>,
) -> Seq<Seq<char>>
    decreases parts.len(),
{
    if parts.len() == 0 {
        Seq::empty()
    } else {
        spec_group_names(m, parts.drop_last()) + match spec_resolve(m, parts.last()) {
            Some(n) => seq![spec_first_name(n)],
            None => Seq::empty(),
        }
    }
}

/// The names joined with `", "`.
pub open spec fn spec_join_comma(names: Seq<Seq<char>>) -> Seq<char>
    decreases names.len(),
{
    if names.len() == 0 {
        Seq::empty()
    } else if names.len() == 1 {
        names[0]
    } else {
        spec_join_comma(names.drop_last()) + ", "@ + names.last()
    }
}

/// The resolved display name a conversation ends with: unchanged when a
/// non-empty stored display name exists; for groups, the participants'
/// resolved first names joined with `", "` when any resolve; for direct
/// conversations, the resolved name of the chat identifier.
pub open spec fn spec_resolved_name(
    c: ConversationModel,
    m: Map<Seq<char>, Seq<char>>,
) -> Option<Seq<char>> {
    if c.display_name is Some && c.display_name->0.len() > 0 {
        c.resolved_name
    } else if spec_is_group(c.style) {
        let names = spec_group_names(m, c.participants);
        if names.len() > 0 {
            Some(spec_join_comma(names))
        } else {
            c.resolved_name
        }
    } else {
        match spec_resolve(m, c.chat_identifier) {
            Some(n) => Some(n),
            None => c.resolved_name,
        }
    }
}

fn join_comma(names: &Vec<String>) -> (r: String)
    ensures
        r@ == spec_join_comma(names.deep_view()),
{
    let mut out = String::new();
    let mut i: usize = 0;
    while i < names.len()
        invariant
            0 <= i <= names@.len(),
            names.deep_view().len() == names@.len(),
            out@ == spec_join_comma(names.deep_view().subrange(0, i as int)),
        decreases names@.len() - i,
    {
        let ghost prefix = names.deep_view().subrange(0, i as int);
        if i > 0 {
            out.append(", ");
        }
        out.append(names[i].as_str());
        proof {
            let ext = names.deep_view().subrange(0, i + 1);
            assert(ext.drop_last() =~= prefix);
            assert(ext.last() == names.deep_view()[i as int]);
            if i == 0 {
                assert(out@ =~= spec_join_comma(ext));
            } else {
                assert(out@ =~= spec_join_comma(ext));
            }
        }
        i = i + 1;
    }
    proof {
        assert(names.deep_view().subrange(0, names.deep_view().len() as int)
            =~= names.deep_view());
    }
    out
}

/// Resolve a conversation's display name through the contact cache; see
/// [`spec_resolved_name`]. Only the resolved name changes.
pub fn resolve_conversation_name(conv: &mut Conversation, contacts: &ContactResolver)
    ensures
        final(conv)@ == (ConversationModel {
            resolved_name: spec_resolved_name(old(conv)@, contacts@),
            ..old(conv)@
        }),
{
    let has_display = match &conv.display_name {
        Some(n) => !n.as_str().is_empty(),
        None => false,
    };
    if has_display {
        return ;
    }
    if conv.is_group() {
        let ghost parts_dv = conv.participants.deep_view();
        let mut names: Vec<String> = Vec::new();
        let mut i: usize = 0;
        proof {
            assert(names.deep_view() =~= spec_group_names(
                contacts@,
                parts_dv.subrange(0, 0),
            ));
        }
        while i < conv.participants.len()
            invariant
                0 <= i <= conv.participants@.len(),
                parts_dv == conv.participants.deep_view(),
                parts_dv.len() == conv.participants@.len(),
                names.deep_view() == spec_group_names(
                    contacts@,
                    parts_dv.subrange(0, i as int),
                ),
            decreases conv.participants@.len() - i,
        {
            let ghost prefix = parts_dv.subrange(0, i as int);
            match contacts.resolve(conv.participants[i].as_str()) {
                Some(n) => {
                    let fw = first_word(n);
                    let chosen = if fw.is_empty() {
                        n
                    } else {
                        fw
                    };
                    names.push(String::from_str(chosen));
                },
                None => {},
            }
            proof {
                let ext = parts_dv.subrange(0, i + 1);
                assert(ext.drop_last() =~= prefix);
                assert(ext.last() == parts_dv[i as int]);
                assert(names.deep_view() =~= spec_group_names(contacts@, ext));
            }
            i = i + 1;
        }
        proof {
            assert(parts_dv.subrange(0, parts_dv.len() as int) =~= parts_dv);
        }
        if names.len() > 0 {
            conv.resolved_name = Some(join_comma(&names));
        }
    } else {
        match contacts.resolve(conv.chat_identifier.as_str()) {
            Some(n) => {
                conv.resolved_name = Some(String::from_str(n));
            },
            None => {},
        }
    }
}

} // verus!
