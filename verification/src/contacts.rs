//! Contact name resolution: a process-lifetime cache from raw identifiers
//! (phone numbers or e-mail addresses) to display names, looked up through
//! an ordered set of normalization strategies.

use vstd::prelude::*;
use crate::strutil::{spec_starts_with, str_eq, str_starts_with};

verus! {

/// One stored mapping from a raw identifier to a display name.
struct ContactEntry {
    key: String,
    name: String,
}

/// Resolves phone numbers and e-mail addresses to contact names.
///
/// Modelled as a map from identifier to name; an entry added later for
/// the same identifier overwrites the earlier one.
pub struct ContactResolver {
    entries: Vec<ContactEntry>,
}

/// The map that a sequence of additions denotes: later entries overwrite
/// earlier ones.
spec fn entries_map(s: Seq<ContactEntry>) -> Map<Seq<char>, Seq<char>>
    decreases s.len(),
{
    if s.len() == 0 {
        Map::empty()
    } else {
        entries_map(s.drop_last()).insert(s.last().key@, s.last().name@)
    }
}

impl View for ContactResolver {
    type V = Map<Seq<char>, Seq<char>>;

    closed spec fn view(&self) -> Map<Seq<char>, Seq<char>> {
        entries_map(self.entries@)
    }
}

/// Whether a character survives phone-number normalization: an ASCII
/// digit or `+`.
pub open spec fn is_phone_char(c: char) -> bool {
    (48 <= c as u32 && c as u32 <= 57) || c == '+'
}

/// A phone number reduced to its digits and `+` signs, order kept.
pub open spec fn spec_normalize_phone(s: Seq<char>) -> Seq<char> {
    s.filter(|c: char| is_phone_char(c))
}

proof fn lemma_normalize_extend(s: Seq<char>, i: int)
    requires
        0 <= i < s.len(),
    ensures
        spec_normalize_phone(s.subrange(0, i + 1)) == if is_phone_char(s[i]) {
            spec_normalize_phone(s.subrange(0, i)).push(s[i])
        } else {
            spec_normalize_phone(s.subrange(0, i))
        },
{
    reveal(Seq::filter);
    let a = s.subrange(0, i + 1);
    assert(a.drop_last() =~= s.subrange(0, i));
    assert(a.last() == s[i]);
}

/// Normalize a phone number: keep only ASCII digits and `+`.
pub fn normalize_phone(phone: &str) -> (r: String)
    ensures
        r@ == spec_normalize_phone(phone@),
{
    let n = phone.unicode_len();
    let mut out = String::new();
    let mut i: usize = 0;
    while i < n
        invariant
            0 <= i <= n,
            n == phone@.len(),
            out@ == spec_normalize_phone(phone@.subrange(0, i as int)),
        decreases n - i,
    {
        let c = phone.get_char(i);
        if (48 <= c as u32 && c as u32 <= 57) || c == '+' {
            out.append(phone.substring_char(i, i + 1));
            proof {
                assert(phone@.subrange(i as int, i + 1) =~= seq![phone@[i as int]]);
            }
        }
        proof {
            lemma_normalize_extend(phone@, i as int);
        }
        i = i + 1;
    }
    proof {
        assert(phone@.subrange(0, n as int) =~= phone@);
    }
    out
}

proof fn lemma_map_no_key(s: Seq<ContactEntry>, k: Seq<char>)
    requires
        forall|j: int| 0 <= j < s.len() ==> s[j].key@ != k,
    ensures
        !entries_map(s).contains_key(k),
    decreases s.len(),
{
    if s.len() > 0 {
        lemma_map_no_key(s.drop_last(), k);
    }
}

proof fn lemma_map_last_key(s: Seq<ContactEntry>, k: Seq<char>, i: int)
    requires
        0 <= i < s.len(),
        s[i].key@ == k,
        forall|j: int| i < j < s.len() ==> s[j].key@ != k,
    ensures
        entries_map(s).contains_key(k),
        entries_map(s)[k] == s[i].name@,
    decreases s.len(),
{
    if i == s.len() - 1 {
    } else {
        lemma_map_last_key(s.drop_last(), k, i);
    }
}

/// Index of the last entry whose key equals `key`, if any.
fn find_last(entries: &Vec<ContactEntry>, key: &str) -> (r: Option<usize>)
    ensures
        match r {
            Some(i) => i < entries@.len() && entries@[i as int].key@ == key@ && forall|j: int|
                i < j < entries@.len() ==> entries@[j].key@ != key@,
            None => forall|j: int| 0 <= j < entries@.len() ==> entries@[j].key@ != key@,
        },
{
    let mut i: usize = entries.len();
    while i > 0
        invariant
            0 <= i <= entries@.len(),
            forall|j: int| i <= j < entries@.len() ==> entries@[j].key@ != key@,
        decreases i,
    {
        let k = i - 1;
        if str_eq(entries[k].key.as_str(), key) {
            return Some(k);
        }
        i = k;
    }
    None
}

/// The three-tier lookup that [`ContactResolver::resolve`] performs:
/// the raw identifier, then its normalized form, then the normalized
/// form with a leading `+1` country code stripped.
pub open spec fn spec_resolve(m: Map<Seq<char>, Seq<char>>, id: Seq<char>) -> Option<Seq<char>> {
    if m.contains_key(id) {
        Some(m[id])
    } else {
        let n = spec_normalize_phone(id);
        if m.contains_key(n) {
            Some(m[n])
        } else if spec_starts_with(n, "+1"@) && m.contains_key(
            n.subrange(2, n.len() as int),
        ) {
            Some(m[n.subrange(2, n.len() as int)])
        } else {
            None
        }
    }
}

impl ContactResolver {
    /// An empty cache.
    pub fn new() -> (r: Self)
        ensures
            r@ == Map::<Seq<char>, Seq<char>>::empty(),
    {
        Self { entries: Vec::new() }
    }

    /// Look up the display name for an identifier (phone or e-mail):
    /// first the raw identifier, then its normalized form, then the
    /// normalized form without a `+1` prefix.
    pub fn resolve<'a>(&'a self, identifier: &str) -> (r: Option<&'a str>)
        ensures
            r is Some <==> spec_resolve(self@, identifier@) is Some,
            r is Some ==> r->0@ == spec_resolve(self@, identifier@)->0,
    {
        if let Some(i) = find_last(&self.entries, identifier) {
            proof {
                lemma_map_last_key(self.entries@, identifier@, i as int);
            }
            return Some(self.entries[i].name.as_str());
        }
        proof {
            lemma_map_no_key(self.entries@, identifier@);
        }
        let normalized = normalize_phone(identifier);
        if let Some(i) = find_last(&self.entries, normalized.as_str()) {
            proof {
                lemma_map_last_key(self.entries@, normalized@, i as int);
            }
            return Some(self.entries[i].name.as_str());
        }
        proof {
            lemma_map_no_key(self.entries@, normalized@);
        }
        if str_starts_with(normalized.as_str(), "+1") {
            proof {
                reveal_strlit("+1");
            }
            let stripped = normalized.as_str().substring_char(
                2,
                normalized.as_str().unicode_len(),
            );
            if let Some(i) = find_last(&self.entries, stripped) {
                proof {
                    lemma_map_last_key(self.entries@, stripped@, i as int);
                }
                return Some(self.entries[i].name.as_str());
            }
            proof {
                lemma_map_no_key(self.entries@, stripped@);
            }
        }
        None
    }

    /// Record a mapping from identifier to name, overwriting any prior
    /// mapping for that identifier; a no-op if either is empty.
    pub fn add(&mut self, identifier: &str, name: &str)
        ensures
            identifier@.len() == 0 || name@.len() == 0 ==> final(self)@ == old(self)@,
            identifier@.len() > 0 && name@.len() > 0 ==> final(self)@ == old(self)@.insert(
                identifier@,
                name@,
            ),
    {
        if !identifier.is_empty() && !name.is_empty() {
            let entry = ContactEntry {
                key: String::from_str(identifier),
                name: String::from_str(name),
            };
            self.entries.push(entry);
            proof {
                assert(self.entries@.drop_last() =~= old(self).entries@);
            }
        }
    }
}

impl Default for ContactResolver {
    /// Same as [`ContactResolver::new`].
    fn default() -> (r: Self)
        ensures
            r@ == Map::<Seq<char>, Seq<char>>::empty(),
    {
        Self::new()
    }
}

} // verus!
