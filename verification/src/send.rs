//! The computed part of the outbound send path: escaping message text
//! for the automation script, the full chat-id form the messaging
//! application expects, and the script itself. Running the script is an
//! operating-system concern and stays outside the library.

use vstd::prelude::*;

verus! {

/// The I/O error type of std, opaque to the verifier; values of it only
/// pass through.
#[verifier::external_type_specification]
#[verifier::external_body]
pub struct ExIoError(std::io::Error);

/// Why an outbound send failed: the automation script reported an
/// error, the command could not be executed, or the send timed out.
pub enum SendError {
    ScriptError(String),
    CommandError(std::io::Error),
    Timeout,
}

/// How one character is escaped for a double-quoted automation-script
/// string: backslashes and double quotes get a leading backslash.
pub open spec fn spec_escape_char(c: char) -> Seq<char> {
    if c == '\\' {
        seq!['\\', '\\']
    } else if c == '"' {
        seq!['\\', '"']
    } else {
        seq![c]
    }
}

/// The text with every backslash and double quote escaped.
pub open spec fn spec_escape_text(s: Seq<char>) -> Seq<char>
    decreases s.len(),
{
    if s.len() == 0 {
        Seq::empty()
    } else {
        spec_escape_text(s.drop_last()) + spec_escape_char(s.last())
    }
}

/// Escape message text for embedding in a double-quoted
/// automation-script string.
pub fn escape_text(text: &str) -> (r: String)
    ensures
        r@ == spec_escape_text(text@),
{
    let n = text.unicode_len();
    let mut out = String::new();
    let mut i: usize = 0;
    proof {
        assert(out@ =~= spec_escape_text(text@.subrange(0, 0)));
    }
    while i < n
        invariant
            0 <= i <= n,
            n == text@.len(),
            out@ == spec_escape_text(text@.subrange(0, i as int)),
        decreases n - i,
    {
        let ghost prefix = text@.subrange(0, i as int);
        let c = text.get_char(i);
        if c == '\\' {
            out.append("\\\\");
            proof {
                reveal_strlit("\\\\");
            }
        } else if c == '"' {
            out.append("\\\"");
            proof {
                reveal_strlit("\\\"");
            }
        } else {
            out.append(text.substring_char(i, i + 1));
            proof {
                assert(text@.subrange(i as int, i + 1) =~= seq![text@[i as int]]);
            }
        }
        proof {
            let ext = text@.subrange(0, i + 1);
            assert(ext.drop_last() =~= prefix);
            assert(ext.last() == text@[i as int]);
            assert(out@ =~= spec_escape_text(ext));
        }
        i = i + 1;
    }
    proof {
        assert(text@.subrange(0, n as int) =~= text@);
    }
    out
}

/// The full chat-id form the messaging application expects: a group
/// marker or a direct marker, then the raw chat identifier.
pub open spec fn spec_full_chat_id(chat_identifier: Seq<char>, is_group: bool) -> Seq<char> {
    if is_group {
        "any;+;"@ + chat_identifier
    } else {
        "any;-;"@ + chat_identifier
    }
}

/// Build the full chat id for a conversation; see
/// [`spec_full_chat_id`].
pub fn full_chat_id(chat_identifier: &str, is_group: bool) -> (r: String)
    ensures
        r@ == spec_full_chat_id(chat_identifier@, is_group),
{
    if is_group {
        String::from_str("any;+;").concat(chat_identifier)
    } else {
        String::from_str("any;-;").concat(chat_identifier)
    }
}

/// The automation script that sends `text` to the chat: the chat id and
/// the escaped text embedded in the fixed script template.
pub open spec fn spec_send_script(
    chat_identifier: Seq<char>,
    text: Seq<char>,
    is_group: bool,
) -> Seq<char> {
    "tell application \"Messages\"\n    set targetChat to chat id \""@ + spec_full_chat_id(
        chat_identifier,
        is_group,
    ) + "\"\n    send \""@ + spec_escape_text(text) + "\" to targetChat\nend tell"@
}

/// Build the automation script that sends `text` to the chat; see
/// [`spec_send_script`]. The caller only has to run it.
pub fn send_script(chat_identifier: &str, text: &str, is_group: bool) -> (r: String)
    ensures
        r@ == spec_send_script(chat_identifier@, text@, is_group),
{
    let mut out = String::from_str(
        "tell application \"Messages\"\n    set targetChat to chat id \"",
    );
    let chat_id = full_chat_id(chat_identifier, is_group);
    out.append(chat_id.as_str());
    out.append("\"\n    send \"");
    let escaped = escape_text(text);
    out.append(escaped.as_str());
    out.append("\" to targetChat\nend tell");
    out
}

} // verus!
