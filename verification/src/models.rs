//! The data model: conversations, messages, attachments and reactions,
//! each with a mathematical view, and their derived queries (display
//! text, image tests, reaction summaries, names and links).

use vstd::prelude::*;
use crate::strutil::{spec_starts_with, spec_trim, str_starts_with, str_trim};

verus! {

/// The conversation style discriminator the store uses for group
/// conversations; any other value means a direct (one-to-one) style.
pub const GROUP_STYLE: i32 = 43;

/// A message attachment (image, file, ...).
#[derive(Debug, Clone)]
pub struct Attachment {
    pub filename: String,
    pub mime_type: String,
    pub transfer_name: String,
}

/// Mathematical view of an [`Attachment`].
#[verifier::ext_equal]
pub struct AttachmentModel {
    pub filename: Seq<char>,
    pub mime_type: Seq<char>,
    pub transfer_name: Seq<char>,
}

impl View for Attachment {
    type V = AttachmentModel;

    open spec fn view(&self) -> AttachmentModel {
        AttachmentModel {
            filename: self.filename@,
            mime_type: self.mime_type@,
            transfer_name: self.transfer_name@,
        }
    }
}

impl DeepView for Attachment {
    type V = AttachmentModel;

    open spec fn deep_view(&self) -> AttachmentModel {
        self.view()
    }
}

/// A reaction attached to a message.
#[derive(Debug, Clone)]
pub struct Reaction {
    pub emoji: String,
    pub is_from_me: bool,
    pub sender: Option<String>,
}

/// Mathematical view of a [`Reaction`].
#[verifier::ext_equal]
pub struct ReactionModel {
    pub emoji: Seq<char>,
    pub is_from_me: bool,
    pub sender: Option<Seq<char>>,
}

impl View for Reaction {
    type V = ReactionModel;

    open spec fn view(&self) -> ReactionModel {
        ReactionModel {
            emoji: self.emoji@,
            is_from_me: self.is_from_me,
            sender: self.sender.deep_view(),
        }
    }
}

impl DeepView for Reaction {
    type V = ReactionModel;

    open spec fn deep_view(&self) -> ReactionModel {
        self.view()
    }
}

/// A single message in a conversation. The date is in seconds since the
/// Unix epoch, already normalized from the store's anchor-relative form.
#[derive(Debug, Clone)]
pub struct Message {
    pub rowid: i64,
    pub guid: String,
    pub text: String,
    pub date: i64,
    pub is_from_me: bool,
    pub sender: Option<String>,
    pub attachments: Vec<Attachment>,
    pub reactions: Vec<Reaction>,
}

/// Mathematical view of a [`Message`].
#[verifier::ext_equal]
pub struct MessageModel {
    pub rowid: int,
    pub guid: Seq<char>,
    pub text: Seq<char>,
    pub date: int,
    pub is_from_me: bool,
    pub sender: Option<Seq<char>>,
    pub attachments: Seq<AttachmentModel>,
    pub reactions: Seq<ReactionModel>,
}

impl View for Message {
    type V = MessageModel;

    open spec fn view(&self) -> MessageModel {
        MessageModel {
            rowid: self.rowid as int,
            guid: self.guid@,
            text: self.text@,
            date: self.date as int,
            is_from_me: self.is_from_me,
            sender: self.sender.deep_view(),
            attachments: self.attachments.deep_view(),
            reactions: self.reactions.deep_view(),
        }
    }
}

impl DeepView for Message {
    type V = MessageModel;

    open spec fn deep_view(&self) -> MessageModel {
        self.view()
    }
}

/// A conversation with its messages. The last-message date is in seconds
/// since the Unix epoch.
#[derive(Debug, Clone)]
pub struct Conversation {
    pub chat_id: i64,
    pub display_name: Option<String>,
    pub chat_identifier: String,
    pub style: i32,
    pub unread_count: i64,
    pub last_message_date: i64,
    pub messages: Vec<Message>,
    pub participants: Vec<String>,
    pub resolved_name: Option<String>,
}

/// Mathematical view of a [`Conversation`].
#[verifier::ext_equal]
pub struct ConversationModel {
    pub chat_id: int,
    pub display_name: Option<Seq<char>>,
    pub chat_identifier: Seq<char>,
    pub style: int,
    pub unread_count: int,
    pub last_message_date: int,
    pub messages: Seq<MessageModel>,
    pub participants: Seq<Seq<char>>,
    pub resolved_name: Option<Seq<char>>,
}

impl View for Conversation {
    type V = ConversationModel;

    open spec fn view(&self) -> ConversationModel {
        ConversationModel {
            chat_id: self.chat_id as int,
            display_name: self.display_name.deep_view(),
            chat_identifier: self.chat_identifier@,
            style: self.style as int,
            unread_count: self.unread_count as int,
            last_message_date: self.last_message_date as int,
            messages: self.messages.deep_view(),
            participants: self.participants.deep_view(),
            resolved_name: self.resolved_name.deep_view(),
        }
    }
}

impl DeepView for Conversation {
    type V = ConversationModel;

    open spec fn deep_view(&self) -> ConversationModel {
        self.view()
    }
}

/// The display symbol for a recognized annotation code: the seven codes
/// 2000 through 2006 map to the loved, liked, disliked, laughed,
/// emphasized, questioned and heart-hands symbols; every other code is
/// unrecognized.
pub open spec fn spec_reaction_emoji(code: int) -> Option<Seq<char>> {
    if code == 2000 {
        Some("❤️"@)
    } else if code == 2001 {
        Some("👍"@)
    } else if code == 2002 {
        Some("👎"@)
    } else if code == 2003 {
        Some("😂"@)
    } else if code == 2004 {
        Some("‼️"@)
    } else if code == 2005 {
        Some("❓"@)
    } else if code == 2006 {
        Some("🫶"@)
    } else {
        None
    }
}

/// Get the display symbol for an annotation code, or `None` for a code
/// outside the recognized set.
pub fn reaction_emoji(code: i32) -> (r: Option<&'static str>)
    ensures
        r is Some <==> spec_reaction_emoji(code as int) is Some,
        r is Some ==> r->0@ == spec_reaction_emoji(code as int)->0,
{
    if code == 2000 {
        Some("❤️")
    } else if code == 2001 {
        Some("👍")
    } else if code == 2002 {
        Some("👎")
    } else if code == 2003 {
        Some("😂")
    } else if code == 2004 {
        Some("‼️")
    } else if code == 2005 {
        Some("❓")
    } else if code == 2006 {
        Some("🫶")
    } else {
        None
    }
}

/// Whether an attachment's MIME type marks it as an image.
pub open spec fn spec_is_image(a: AttachmentModel) -> bool {
    spec_starts_with(a.mime_type, "image/"@)
}

/// The serving path of an attachment: defined when the stored filename
/// lies under the store's attachment directory, as `/attachment/`
/// followed by the path below that directory.
pub open spec fn spec_url_path(filename: Seq<char>) -> Option<Seq<char>> {
    let prefix = "~/Library/Messages/Attachments/"@;
    if spec_starts_with(filename, prefix) {
        Some("/attachment/"@ + filename.subrange(prefix.len() as int, filename.len() as int))
    } else {
        None
    }
}

impl Attachment {
    /// Whether this attachment is an image.
    pub fn is_image(&self) -> (r: bool)
        ensures
            r == spec_is_image(self@),
    {
        str_starts_with(self.mime_type.as_str(), "image/")
    }

    /// The URL path for serving this attachment, or `None` if the
    /// filename does not lie under the expected directory.
    pub fn url_path(&self) -> (r: Option<String>)
        ensures
            r is Some <==> spec_url_path(self.filename@) is Some,
            r is Some ==> r->0@ == spec_url_path(self.filename@)->0,
    {
        if str_starts_with(self.filename.as_str(), "~/Library/Messages/Attachments/") {
            proof {
                reveal_strlit("~/Library/Messages/Attachments/");
            }
            let n = self.filename.as_str().unicode_len();
            let rest = self.filename.as_str().substring_char(31, n);
            Some(String::from_str("/attachment/").concat(rest))
        } else {
            None
        }
    }
}

/// The characters of `s` without the object-replacement placeholder
/// U+FFFC that the store leaves where an attachment sat inline.
pub open spec fn strip_placeholders(s: Seq<char>) -> Seq<char> {
    s.filter(|c: char| c != '\u{FFFC}')
}

/// The display text of a message: placeholders removed, then trimmed.
pub open spec fn spec_display_text(s: Seq<char>) -> Seq<char> {
    spec_trim(strip_placeholders(s))
}

proof fn lemma_strip_extend(s: Seq<char>, i: int)
    requires
        0 <= i < s.len(),
    ensures
        strip_placeholders(s.subrange(0, i + 1)) == if s[i] != '\u{FFFC}' {
            strip_placeholders(s.subrange(0, i)).push(s[i])
        } else {
            strip_placeholders(s.subrange(0, i))
        },
{
    reveal(Seq::filter);
    let a = s.subrange(0, i + 1);
    assert(a.drop_last() =~= s.subrange(0, i));
    assert(a.last() == s[i]);
}

/// The sequences of `s` concatenated in order.
pub open spec fn join_seqs(s: Seq<Seq<char>>) -> Seq<char>
    decreases s.len(),
{
    if s.len() == 0 {
        Seq::empty()
    } else {
        s[0] + join_seqs(s.drop_first())
    }
}

proof fn lemma_join_push(s: Seq<Seq<char>>, e: Seq<char>)
    ensures
        join_seqs(s.push(e)) == join_seqs(s) + e,
    decreases s.len(),
{
    if s.len() == 0 {
        assert(s.push(e).drop_first() =~= Seq::<Seq<char>>::empty());
        assert(join_seqs(Seq::<Seq<char>>::empty()) == Seq::<char>::empty());
        assert(join_seqs(s.push(e)) == e + Seq::<char>::empty());
        assert(e + Seq::<char>::empty() =~= Seq::<char>::empty() + e);
    } else {
        assert(s.push(e).drop_first() =~= s.drop_first().push(e));
        lemma_join_push(s.drop_first(), e);
        assert(s[0] + (join_seqs(s.drop_first()) + e) =~= (s[0] + join_seqs(s.drop_first()))
            + e);
    }
}

/// The distinct reaction symbols of `rs` in first-seen order, given the
/// symbols already seen.
pub open spec fn spec_summary_list(rs: Seq<ReactionModel>, seen: Seq<Seq<char>>) -> Seq<
    Seq<char>,
>
    decreases rs.len(),
{
    if rs.len() == 0 {
        Seq::empty()
    } else if seen.contains(rs[0].emoji) {
        spec_summary_list(rs.drop_first(), seen)
    } else {
        seq![rs[0].emoji] + spec_summary_list(rs.drop_first(), seen.push(rs[0].emoji))
    }
}

/// The reaction summary: each distinct symbol once, in first-seen order,
/// concatenated.
pub open spec fn spec_reaction_summary(rs: Seq<ReactionModel>) -> Seq<char> {
    join_seqs(spec_summary_list(rs, Seq::empty()))
}

fn vec_contains_string(v: &Vec<String>, x: &String) -> (r: bool)
    ensures
        r == v.deep_view().contains(x@),
{
    let mut i: usize = 0;
    while i < v.len()
        invariant
            0 <= i <= v@.len(),
            forall|k: int| 0 <= k < i ==> v.deep_view()[k] != x@,
        decreases v@.len() - i,
    {
        if v[i].eq(x) {
            assert(v.deep_view()[i as int] == x@);
            return true;
        }
        i = i + 1;
    }
    proof {
        if v.deep_view().contains(x@) {
            let k = choose|k: int| 0 <= k < v.deep_view().len() && v.deep_view()[k] == x@;
            assert(v.deep_view()[k] != x@);
        }
    }
    false
}

/// Whether a message's display text is empty and it carries at least one
/// image attachment.
pub open spec fn spec_is_image_only(m: MessageModel) -> bool {
    (exists|i: int| 0 <= i < m.attachments.len() && spec_is_image(m.attachments[i]))
        && spec_display_text(m.text).len() == 0
}

/// The display text of `s`: attachment placeholders removed, then
/// whitespace trimmed.
pub fn display_text_of(s: &str) -> (r: String)
    ensures
        r@ == spec_display_text(s@),
{
    let n = s.unicode_len();
    let mut out = String::new();
    let mut i: usize = 0;
    while i < n
        invariant
            0 <= i <= n,
            n == s@.len(),
            out@ == strip_placeholders(s@.subrange(0, i as int)),
        decreases n - i,
    {
        let c = s.get_char(i);
        if c != '\u{FFFC}' {
            out.append(s.substring_char(i, i + 1));
            proof {
                assert(s@.subrange(i as int, i + 1) =~= seq![s@[i as int]]);
            }
        }
        proof {
            lemma_strip_extend(s@, i as int);
        }
        i = i + 1;
    }
    proof {
        assert(s@.subrange(0, n as int) =~= s@);
    }
    let trimmed = str_trim(out.as_str());
    String::from_str(trimmed)
}

impl Message {
    /// The message text with attachment placeholders removed and
    /// whitespace trimmed.
    pub fn display_text(&self) -> (r: String)
        ensures
            r@ == spec_display_text(self.text@),
    {
        display_text_of(self.text.as_str())
    }

    /// Whether this message is image-only: it has an image attachment and
    /// no display text.
    pub fn is_image_only(&self) -> (r: bool)
        ensures
            r == spec_is_image_only(self@),
    {
        let mut has_image = false;
        let mut i: usize = 0;
        while i < self.attachments.len()
            invariant
                0 <= i <= self.attachments@.len(),
                has_image == exists|k: int|
                    0 <= k < i && spec_is_image(self.attachments.deep_view()[k]),
            decreases self.attachments@.len() - i,
        {
            if self.attachments[i].is_image() {
                proof {
                    assert(spec_is_image(self.attachments.deep_view()[i as int]));
                }
                has_image = true;
            }
            i = i + 1;
        }
        proof {
            assert(self.attachments.deep_view().len() == self.attachments@.len());
            if has_image {
                let k = choose|k: int|
                    0 <= k < i && spec_is_image(self.attachments.deep_view()[k]);
                assert(0 <= k < self@.attachments.len() && spec_is_image(self@.attachments[k]));
            }
        }
        let text = self.display_text();
        has_image && text.as_str().is_empty()
    }

    /// The distinct reaction symbols, first-seen order, as one string.
    pub fn reaction_summary(&self) -> (r: String)
        ensures
            r@ == spec_reaction_summary(self@.reactions),
    {
        let ghost rs = self.reactions.deep_view();
        let mut seen: Vec<String> = Vec::new();
        let mut out = String::new();
        let mut i: usize = 0;
        proof {
            assert(seen.deep_view() =~= Seq::<Seq<char>>::empty());
            assert(rs.skip(0) =~= rs);
            assert(Seq::<Seq<char>>::empty() + spec_summary_list(rs, Seq::empty())
                =~= spec_summary_list(rs, Seq::empty()));
        }
        while i < self.reactions.len()
            invariant
                0 <= i <= self.reactions@.len(),
                rs == self.reactions.deep_view(),
                rs.len() == self.reactions@.len(),
                spec_summary_list(rs, Seq::empty()) == seen.deep_view() + spec_summary_list(
                    rs.skip(i as int),
                    seen.deep_view(),
                ),
                out@ == join_seqs(seen.deep_view()),
            decreases self.reactions@.len() - i,
        {
            let ghost seen_dv = seen.deep_view();
            let ghost tail = rs.skip(i as int);
            proof {
                assert(tail[0] == rs[i as int]);
                assert(tail.drop_first() =~= rs.skip(i + 1));
                assert(rs[i as int].emoji == self.reactions@[i as int].emoji@);
            }
            if !vec_contains_string(&seen, &self.reactions[i].emoji) {
                seen.push(self.reactions[i].emoji.clone());
                out.append(self.reactions[i].emoji.as_str());
                proof {
                    assert(seen.deep_view() =~= seen_dv.push(rs[i as int].emoji));
                    lemma_join_push(seen_dv, rs[i as int].emoji);
                    assert(seen_dv + (seq![rs[i as int].emoji] + spec_summary_list(
                        rs.skip(i + 1),
                        seen_dv.push(rs[i as int].emoji),
                    )) =~= seen.deep_view() + spec_summary_list(
                        rs.skip(i + 1),
                        seen.deep_view(),
                    ));
                }
            }
            i = i + 1;
        }
        proof {
            assert(rs.skip(rs.len() as int) =~= Seq::<ReactionModel>::empty());
            assert(seen.deep_view() + Seq::<Seq<char>>::empty() =~= seen.deep_view());
        }
        out
    }
}

/// Whether the style discriminator marks a group conversation.
pub open spec fn spec_is_group(style: int) -> bool {
    style == GROUP_STYLE
}

/// The best display name for a conversation: a non-empty stored display
/// name, else the resolved contact name, else the raw chat identifier.
pub open spec fn spec_name(c: ConversationModel) -> Seq<char> {
    if c.display_name is Some && c.display_name->0.len() > 0 {
        c.display_name->0
    } else if c.resolved_name is Some {
        c.resolved_name->0
    } else {
        c.chat_identifier
    }
}

/// The link that opens a conversation in the messaging application.
pub open spec fn spec_messages_url(c: ConversationModel) -> Seq<char> {
    if spec_is_group(c.style) {
        "imessage://?groupID="@ + c.chat_identifier
    } else {
        "imessage://"@ + c.chat_identifier
    }
}

impl Conversation {
    /// Whether this is a group conversation.
    pub fn is_group(&self) -> (r: bool)
        ensures
            r == spec_is_group(self@.style),
    {
        self.style == GROUP_STYLE
    }

    /// The best display name for this conversation.
    pub fn name(&self) -> (r: &str)
        ensures
            r@ == spec_name(self@),
    {
        match &self.display_name {
            Some(n) => {
                if !n.as_str().is_empty() {
                    return n.as_str();
                }
            },
            None => {},
        }
        match &self.resolved_name {
            Some(n) => n.as_str(),
            None => self.chat_identifier.as_str(),
        }
    }

    /// The link that opens this conversation in the messaging
    /// application.
    pub fn messages_url(&self) -> (r: String)
        ensures
            r@ == spec_messages_url(self@),
    {
        if self.is_group() {
            String::from_str("imessage://?groupID=").concat(self.chat_identifier.as_str())
        } else {
            String::from_str("imessage://").concat(self.chat_identifier.as_str())
        }
    }
}

} // verus!
