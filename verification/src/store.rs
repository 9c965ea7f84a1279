//! The settings store the pipeline reads frame metadata from: a flat list of
//! (section, key, value) entries with first-match lookup. The backing format
//! (typically an ini file) is converted to and from this snapshot outside the
//! library, so the store itself stays a plain value the contracts can speak
//! of.

use crate::text::str_eq;
use vstd::prelude::*;

verus! {

/// One entry of the settings store.
pub struct SettingsEntry {
    pub section: String,
    pub key: String,
    pub value: String,
}

/// Whether `e` carries the given section and key.
pub open spec fn entry_matches(e: SettingsEntry, section: Seq<char>, key: Seq<char>) -> bool {
    e.section@ == section && e.key@ == key
}

/// First-match lookup: the value of the first entry under the given section
/// and key, if any.
pub open spec fn lookup(entries: Seq<SettingsEntry>, section: Seq<char>, key: Seq<char>) -> Option<
    Seq<char>,
>
    decreases entries.len(),
{
    if entries.len() == 0 {
        None
    } else if entry_matches(entries[0], section, key) {
        Some(entries[0].value@)
    } else {
        lookup(entries.drop_first(), section, key)
    }
}

/// A lookup misses exactly when no entry matches.
pub proof fn lemma_lookup_none_iff(entries: Seq<SettingsEntry>, section: Seq<char>, key: Seq<char>)
    ensures
        lookup(entries, section, key) is None <==> (forall|i: int|
            0 <= i < entries.len() ==> !entry_matches(entries[i], section, key)),
    decreases entries.len(),
{
    if entries.len() > 0 {
        let tail = entries.drop_first();
        lemma_lookup_none_iff(tail, section, key);
        if !entry_matches(entries[0], section, key) {
            if lookup(entries, section, key) is None {
                assert forall|i: int|
                    0 <= i < entries.len() implies !entry_matches(
                    entries[i],
                    section,
                    key,
                ) by {
                    if i > 0 {
                        assert(tail[i - 1] == entries[i]);
                        assert(!entry_matches(tail[i - 1], section, key));
                    }
                }
            }
            if forall|i: int| 0 <= i < entries.len() ==> !entry_matches(entries[i], section, key) {
                assert forall|i: int|
                    0 <= i < tail.len() implies !entry_matches(tail[i], section, key) by {
                    assert(tail[i] == entries[i + 1]);
                }
                assert(lookup(tail, section, key) is None);
            }
        }
    }
}

/// Lookup over a concatenation: the left part wins when it has a match.
pub proof fn lemma_lookup_append(
    a: Seq<SettingsEntry>,
    b: Seq<SettingsEntry>,
    section: Seq<char>,
    key: Seq<char>,
)
    ensures
        lookup(a + b, section, key) == (if lookup(a, section, key) is Some {
            lookup(a, section, key)
        } else {
            lookup(b, section, key)
        }),
    decreases a.len(),
{
    if a.len() == 0 {
        assert(a + b =~= b);
    } else {
        lemma_lookup_append(a.drop_first(), b, section, key);
        assert((a + b).len() > 0);
        assert((a + b)[0] == a[0]);
        assert((a + b).drop_first() =~= a.drop_first() + b);
    }
}

/// A snapshot of the settings store.
pub struct SettingsStore {
    pub entries: Vec<SettingsEntry>,
}

impl SettingsStore {
    /// An empty store: every lookup misses.
    pub fn new() -> (r: SettingsStore)
        ensures
            r.entries@.len() == 0,
    {
        SettingsStore { entries: Vec::new() }
    }

    /// Appends an entry as read from the backing file, without touching the
    /// rest; an earlier entry under the same section and key keeps priority.
    pub fn push_entry(&mut self, section: String, key: String, value: String)
        ensures
            final(self).entries@ == old(self).entries@.push(
                SettingsEntry { section, key, value },
            ),
    {
        self.entries.push(SettingsEntry { section, key, value });
    }

    /// The value under `section`/`key`, if any entry carries that pair.
    pub fn get(&self, section: &str, key: &str) -> (r: Option<String>)
        ensures
            match r {
                Some(v) => lookup(self.entries@, section@, key@) == Some(v@),
                None => lookup(self.entries@, section@, key@) is None,
            },
    {
        let n = self.entries.len();
        let mut i: usize = 0;
        proof {
            assert(self.entries@.skip(0) =~= self.entries@);
        }
        while i < n
            invariant
                n == self.entries@.len(),
                i <= n,
                lookup(self.entries@, section@, key@) == lookup(
                    self.entries@.skip(i as int),
                    section@,
                    key@,
                ),
            decreases n - i,
        {
            let e = &self.entries[i];
            proof {
                assert(self.entries@.skip(i as int)[0] == self.entries@[i as int]);
            }
            if str_eq(e.section.as_str(), section) && str_eq(e.key.as_str(), key) {
                return Some(e.value.clone());
            }
            proof {
                assert(self.entries@.skip(i as int).drop_first() =~= self.entries@.skip(
                    i as int + 1,
                ));
            }
            i = i + 1;
        }
        None
    }

    /// Sets `section`/`key` to `value`: overwrites the value of the first
    /// matching entry, or appends a fresh entry when none matches. Every
    /// other section/key pair keeps its value.
    pub fn set(&mut self, section: &str, key: &str, value: String)
        ensures
            lookup(final(self).entries@, section@, key@) == Some(value@),
            forall|s2: Seq<char>, k2: Seq<char>|
                !(s2 == section@ && k2 == key@) ==> lookup(final(self).entries@, s2, k2) == lookup(
                    old(self).entries@,
                    s2,
                    k2,
                ),
    {
        let ghost old_seq = self.entries@;
        let n = self.entries.len();
        let mut found: bool = false;
        let mut idx: usize = 0;
        let mut i: usize = 0;
        while i < n
            invariant
                n == self.entries@.len(),
                self.entries@ == old_seq,
                i <= n,
                !found ==> forall|j: int|
                    0 <= j < i ==> !entry_matches(old_seq[j], section@, key@),
                found ==> idx < i && entry_matches(old_seq[idx as int], section@, key@) && (forall|
                    j: int,
                |
                    0 <= j < idx ==> !entry_matches(old_seq[j], section@, key@)),
            decreases n - i,
        {
            if !found {
                let e = &self.entries[i];
                if str_eq(e.section.as_str(), section) && str_eq(e.key.as_str(), key) {
                    found = true;
                    idx = i;
                }
            }
            i = i + 1;
        }
        if found {
            let mut out: Vec<SettingsEntry> = Vec::new();
            let mut k: usize = 0;
            while k < n
                invariant
                    n == self.entries@.len(),
                    self.entries@ == old_seq,
                    idx < n,
                    entry_matches(old_seq[idx as int], section@, key@),
                    k <= n,
                    out@.len() == k as int,
                    forall|j: int| 0 <= j < k && j != idx ==> out@[j] == old_seq[j],
                    k > idx ==> out@[idx as int].section@ == section@ && out@[idx as int].key@
                        == key@ && out@[idx as int].value@ == value@,
                decreases n - k,
            {
                let e = &self.entries[k];
                if k == idx {
                    out.push(
                        SettingsEntry {
                            section: e.section.clone(),
                            key: e.key.clone(),
                            value: value.clone(),
                        },
                    );
                } else {
                    out.push(
                        SettingsEntry {
                            section: e.section.clone(),
                            key: e.key.clone(),
                            value: e.value.clone(),
                        },
                    );
                }
                k = k + 1;
            }
            self.entries = out;
            proof {
                let new_seq = self.entries@;
                let a = new_seq.subrange(0, idx as int);
                let b = new_seq.subrange(idx as int, n as int);
                let b_old = old_seq.subrange(idx as int, n as int);
                assert(a =~= old_seq.subrange(0, idx as int));
                assert(new_seq =~= a + b);
                assert(old_seq =~= a + b_old);
                lemma_lookup_none_iff(a, section@, key@);
                lemma_lookup_append(a, b, section@, key@);
                assert(b[0] == new_seq[idx as int]);
                assert(lookup(b, section@, key@) == Some(value@));
                assert(lookup(new_seq, section@, key@) == Some(value@));
                assert forall|s2: Seq<char>, k2: Seq<char>|
                    !(s2 == section@ && k2 == key@) implies lookup(new_seq, s2, k2) == lookup(
                    old_seq,
                    s2,
                    k2,
                ) by {
                    lemma_lookup_append(a, b, s2, k2);
                    lemma_lookup_append(a, b_old, s2, k2);
                    if lookup(a, s2, k2) is None {
                        assert(b[0].section@ == section@ && b[0].key@ == key@);
                        assert(b_old[0] == old_seq[idx as int]);
                        assert(!entry_matches(b[0], s2, k2));
                        assert(!entry_matches(b_old[0], s2, k2));
                        assert(b.drop_first() =~= b_old.drop_first());
                        assert(lookup(b, s2, k2) == lookup(b.drop_first(), s2, k2));
                        assert(lookup(b_old, s2, k2) == lookup(b_old.drop_first(), s2, k2));
                    }
                }
            }
        } else {
            let e = SettingsEntry {
                section: String::from_str(section),
                key: String::from_str(key),
                value,
            };
            self.entries.push(e);
            proof {
                let new_seq = self.entries@;
                let ghost tail = new_seq.subrange(n as int, n as int + 1);
                assert(new_seq =~= old_seq + tail);
                lemma_lookup_none_iff(old_seq, section@, key@);
                lemma_lookup_append(old_seq, tail, section@, key@);
                assert(tail[0] == new_seq[n as int]);
                assert(entry_matches(tail[0], section@, key@));
                assert(lookup(tail, section@, key@) == Some(value@));
                assert forall|s2: Seq<char>, k2: Seq<char>|
                    !(s2 == section@ && k2 == key@) implies lookup(new_seq, s2, k2) == lookup(
                    old_seq,
                    s2,
                    k2,
                ) by {
                    lemma_lookup_append(old_seq, tail, s2, k2);
                    if lookup(old_seq, s2, k2) is None {
                        assert(!entry_matches(tail[0], s2, k2));
                        assert(tail.drop_first() =~= Seq::<SettingsEntry>::empty());
                        assert(lookup(Seq::<SettingsEntry>::empty(), s2, k2) is None);
                        assert(lookup(tail, s2, k2) is None);
                    }
                }
            }
        }
    }
}

} // verus!
