//! Reaction resolution: annotation rows reference their target message
//! through a string-encoded indirect key in one of three forms. This
//! module decodes those references, builds the candidate encoded forms
//! for a set of message GUIDs, and extracts the reactions belonging to
//! one message, in row-arrival order.

use vstd::prelude::*;
use crate::models::{Reaction, ReactionModel, spec_reaction_emoji, reaction_emoji};
use crate::strutil::{clone_opt_string, spec_starts_with, str_eq, str_starts_with};

verus! {

/// A raw annotation row as the store returns it.
pub struct AnnotationRow {
    pub assoc_guid: String,
    pub code: i32,
    pub is_from_me: bool,
    pub sender: Option<String>,
}

/// Mathematical view of an [`AnnotationRow`].
#[verifier::ext_equal]
pub struct AnnotationRowModel {
    pub assoc_guid: Seq<char>,
    pub code: int,
    pub is_from_me: bool,
    pub sender: Option<Seq<char>>,
}

impl View for AnnotationRow {
    type V = AnnotationRowModel;

    open spec fn view(&self) -> AnnotationRowModel {
        AnnotationRowModel {
            assoc_guid: self.assoc_guid@,
            code: self.code as int,
            is_from_me: self.is_from_me,
            sender: self.sender.deep_view(),
        }
    }
}

impl DeepView for AnnotationRow {
    type V = AnnotationRowModel;

    open spec fn deep_view(&self) -> AnnotationRowModel {
        self.view()
    }
}

/// Position of the first occurrence of `c` at or after `from`, if any.
pub open spec fn spec_find_char(s: Seq<char>, c: char, from: int) -> Option<int>
    decreases s.len() - from,
{
    if from < 0 || from >= s.len() {
        None
    } else if s[from] == c {
        Some(from)
    } else {
        spec_find_char(s, c, from + 1)
    }
}

/// The target GUID encoded in an annotation's associated-GUID string:
/// for a participant-indexed reference `p:<index>/<guid>` the segment
/// between the first two slashes (absent if there is no slash), for a
/// bare-participant reference `bp:<guid>` the rest after the prefix,
/// and otherwise the string itself.
pub open spec fn spec_decode_target(s: Seq<char>) -> Option<Seq<char>> {
    if spec_starts_with(s, "p:"@) {
        match spec_find_char(s, '/', 0) {
            None => None,
            Some(i) => match spec_find_char(s, '/', i + 1) {
                None => Some(s.subrange(i + 1, s.len() as int)),
                Some(j) => Some(s.subrange(i + 1, j)),
            },
        }
    } else if spec_starts_with(s, "bp:"@) {
        Some(s.subrange(3, s.len() as int))
    } else {
        Some(s)
    }
}

fn find_char_from(s: &str, c: char, from: usize) -> (r: Option<usize>)
    ensures
        match r {
            Some(i) => spec_find_char(s@, c, from as int) == Some(i as int) && from <= i
                && i < s@.len(),
            None => spec_find_char(s@, c, from as int) is None,
        },
{
    let n = s.unicode_len();
    let mut i: usize = from;
    while i < n
        invariant
            from <= i,
            n == s@.len(),
            spec_find_char(s@, c, from as int) == spec_find_char(s@, c, i as int),
        decreases n - i,
    {
        if s.get_char(i) == c {
            return Some(i);
        }
        i = i + 1;
    }
    None
}

/// Decode an annotation's associated-GUID string into the target GUID
/// it references; see [`spec_decode_target`].
pub fn decode_target(assoc: &str) -> (r: Option<String>)
    ensures
        r is Some <==> spec_decode_target(assoc@) is Some,
        r is Some ==> r->0@ == spec_decode_target(assoc@)->0,
{
    let n = assoc.unicode_len();
    if str_starts_with(assoc, "p:") {
        match find_char_from(assoc, '/', 0) {
            None => None,
            Some(i) => {
                match find_char_from(assoc, '/', i + 1) {
                    None => Some(String::from_str(assoc.substring_char(i + 1, n))),
                    Some(j) => Some(String::from_str(assoc.substring_char(i + 1, j))),
                }
            },
        }
    } else if str_starts_with(assoc, "bp:") {
        proof {
            reveal_strlit("bp:");
        }
        Some(String::from_str(assoc.substring_char(3, n)))
    } else {
        Some(String::from_str(assoc))
    }
}

/// The candidate encoded reference forms for a set of target GUIDs:
/// for each GUID, in order, `p:0/<guid>`, `p:1/<guid>` and `bp:<guid>`.
pub open spec fn spec_prefixed_forms(guids: Seq<Seq<char>>) -> Seq<Seq<char>>
    decreases guids.len(),
{
    if guids.len() == 0 {
        Seq::empty()
    } else {
        spec_prefixed_forms(guids.drop_last()) + seq![
            "p:0/"@ + guids.last(),
            "p:1/"@ + guids.last(),
            "bp:"@ + guids.last(),
        ]
    }
}

/// Build the candidate encoded reference forms for the given GUIDs, the
/// server-side restriction for the annotation query.
pub fn prefixed_forms(guids: &Vec<String>) -> (r: Vec<String>)
    ensures
        r.deep_view() == spec_prefixed_forms(guids.deep_view()),
{
    let mut out: Vec<String> = Vec::new();
    let mut i: usize = 0;
    proof {
        assert(out.deep_view() =~= spec_prefixed_forms(guids.deep_view().subrange(0, 0)));
    }
    while i < guids.len()
        invariant
            0 <= i <= guids@.len(),
            guids.deep_view().len() == guids@.len(),
            out.deep_view() == spec_prefixed_forms(guids.deep_view().subrange(0, i as int)),
        decreases guids@.len() - i,
    {
        let ghost prefix = guids.deep_view().subrange(0, i as int);
        let g = &guids[i];
        out.push(String::from_str("p:0/").concat(g.as_str()));
        out.push(String::from_str("p:1/").concat(g.as_str()));
        out.push(String::from_str("bp:").concat(g.as_str()));
        proof {
            let ext = guids.deep_view().subrange(0, i + 1);
            assert(ext.drop_last() =~= prefix);
            assert(ext.last() == guids.deep_view()[i as int]);
            assert(out.deep_view() =~= spec_prefixed_forms(ext));
        }
        i = i + 1;
    }
    proof {
        assert(guids.deep_view().subrange(0, guids.deep_view().len() as int) =~= guids.deep_view());
    }
    out
}

/// Whether an annotation row references the message with GUID `guid`
/// and carries a recognized annotation code.
pub open spec fn annotation_matches(a: AnnotationRowModel, guid: Seq<char>) -> bool {
    spec_decode_target(a.assoc_guid) == Some(guid) && spec_reaction_emoji(a.code) is Some
}

/// The reaction an annotation row denotes; defined for recognized codes.
pub open spec fn spec_reaction_of(a: AnnotationRowModel) -> ReactionModel {
    ReactionModel {
        emoji: spec_reaction_emoji(a.code)->0,
        is_from_me: a.is_from_me,
        sender: a.sender,
    }
}

/// The reactions of the message with GUID `guid`, taken from the
/// annotation rows in row-arrival order: one reaction per row that
/// references the GUID with a recognized code; malformed or unrecognized
/// rows are skipped.
pub open spec fn spec_reactions_for(annos: Seq<AnnotationRowModel>, guid: Seq<char>) -> Seq<
    ReactionModel,
>
    decreases annos.len(),
{
    if annos.len() == 0 {
        Seq::empty()
    } else {
        spec_reactions_for(annos.drop_last(), guid) + if annotation_matches(
            annos.last(),
            guid,
        ) {
            seq![spec_reaction_of(annos.last())]
        } else {
            Seq::empty()
        }
    }
}

/// Collect the reactions that the annotation rows attach to the message
/// with GUID `guid`, in row-arrival order.
pub fn reactions_for(annos: &Vec<AnnotationRow>, guid: &str) -> (r: Vec<Reaction>)
    ensures
        r.deep_view() == spec_reactions_for(annos.deep_view(), guid@),
{
    let mut out: Vec<Reaction> = Vec::new();
    let mut i: usize = 0;
    proof {
        assert(out.deep_view() =~= spec_reactions_for(
            annos.deep_view().subrange(0, 0),
            guid@,
        ));
    }
    while i < annos.len()
        invariant
            0 <= i <= annos@.len(),
            annos.deep_view().len() == annos@.len(),
            out.deep_view() == spec_reactions_for(
                annos.deep_view().subrange(0, i as int),
                guid@,
            ),
        decreases annos@.len() - i,
    {
        let ghost prefix = annos.deep_view().subrange(0, i as int);
        let row = &annos[i];
        let mut matched = false;
        match decode_target(row.assoc_guid.as_str()) {
            None => {},
            Some(target) => {
                if str_eq(target.as_str(), guid) {
                    match reaction_emoji(row.code) {
                        None => {},
                        Some(emoji) => {
                            matched = true;
                            out.push(
                                Reaction {
                                    emoji: String::from_str(emoji),
                                    is_from_me: row.is_from_me,
                                    sender: clone_opt_string(&row.sender),
                                },
                            );
                        },
                    }
                }
            },
        }
        proof {
            let ext = annos.deep_view().subrange(0, i + 1);
            assert(ext.drop_last() =~= prefix);
            assert(ext.last() == annos.deep_view()[i as int]);
            assert(matched == annotation_matches(annos.deep_view()[i as int], guid@));
            assert(out.deep_view() =~= spec_reactions_for(ext, guid@));
        }
        i = i + 1;
    }
    proof {
        assert(annos.deep_view().subrange(0, annos.deep_view().len() as int)
            =~= annos.deep_view());
    }
    out
}

} // verus!
