//! Recent searches: a bounded, case-insensitively deduplicated list of past
//! queries, newest first.

use vstd::prelude::*;
use vstd::hash_set::StringHashSet;
use crate::text::{
    is_trimmed, lemma_trim_is_trimmed, lemma_trim_of_trimmed, lowercase, owned, to_chars,
    to_lowercase, trim, trim_spec,
};

verus! {

/// The case-insensitive keys of a sequence of queries.
pub open spec fn keys(s: Seq<Seq<char>>) -> Seq<Seq<char>> {
    s.map_values(|e: Seq<char>| lowercase(e))
}

/// The stored queries cleaned up: each trimmed, empty ones dropped, and
/// later duplicates (ignoring case) of an earlier query dropped.
pub open spec fn clean_all(s: Seq<Seq<char>>) -> Seq<Seq<char>>
    decreases s.len(),
{
    if s.len() == 0 {
        seq![]
    } else {
        let prev = clean_all(s.drop_last());
        let t = trim_spec(s.last());
        if t.len() > 0 && !keys(prev).contains(lowercase(t)) {
            prev.push(t)
        } else {
            prev
        }
    }
}

/// The first `n` elements of `s` (all of them when there are fewer).
pub open spec fn take_at_most<A>(s: Seq<A>, n: nat) -> Seq<A> {
    if n <= s.len() {
        s.take(n as int)
    } else {
        s
    }
}

/// The stored queries cleaned up and limited to `limit`.
pub open spec fn clean_spec(s: Seq<Seq<char>>, limit: nat) -> Seq<Seq<char>> {
    take_at_most(clean_all(s), limit)
}

/// `s` without the queries whose key is `key`.
pub open spec fn without_key(s: Seq<Seq<char>>, key: Seq<char>) -> Seq<Seq<char>>
    decreases s.len(),
{
    if s.len() == 0 {
        seq![]
    } else {
        let prev = without_key(s.drop_last(), key);
        if lowercase(s.last()) == key {
            prev
        } else {
            prev.push(s.last())
        }
    }
}

/// Whether `s` is a well-formed history for `limit`: at most `limit`
/// queries, each trimmed and non-empty, no two equal ignoring case.
pub open spec fn well_formed(s: Seq<Seq<char>>, limit: nat) -> bool {
    &&& s.len() <= limit
    &&& forall|i: int| 0 <= i < s.len() ==> (#[trigger] s[i]).len() > 0 && is_trimmed(s[i])
    &&& forall|i: int, j: int|
        0 <= i < j < s.len() ==> lowercase(#[trigger] s[i]) != lowercase(#[trigger] s[j])
}

/// The history after searching for `query`: the trimmed query first,
/// earlier entries equal to it (ignoring case) removed, cut to `limit`.
/// Empty queries and a zero limit leave it unchanged.
pub open spec fn record_spec(s: Seq<Seq<char>>, query: Seq<char>, limit: nat) -> Seq<Seq<char>> {
    let q = trim_spec(query);
    if q.len() == 0 || limit == 0 {
        s
    } else {
        take_at_most(seq![q] + without_key(s, lowercase(q)), limit)
    }
}

proof fn lemma_without_key_shape(s: Seq<Seq<char>>, key: Seq<char>)
    ensures
        without_key(s, key).len() <= s.len(),
        forall|i: int|
            0 <= i < without_key(s, key).len() ==> lowercase(#[trigger] without_key(s, key)[i])
                != key && s.contains(without_key(s, key)[i]),
        forall|i: int, j: int|
            0 <= i < j < without_key(s, key).len() ==> exists|a: int, b: int|
                0 <= a < b < s.len() && s[a] == #[trigger] without_key(s, key)[i] && s[b]
                    == #[trigger] without_key(s, key)[j],
    decreases s.len(),
{
    if s.len() > 0 {
        let p = s.drop_last();
        lemma_without_key_shape(p, key);
        let w = without_key(p, key);
        assert forall|i: int| 0 <= i < w.len() implies s.contains(#[trigger] w[i]) by {
            let a = choose|a: int| 0 <= a < p.len() && p[a] == w[i];
            assert(s[a] == w[i]);
        }
        if lowercase(s.last()) != key {
            let w2 = w.push(s.last());
            assert(s[s.len() - 1] == s.last());
            assert forall|i: int, j: int| 0 <= i < j < w2.len() implies exists|a: int, b: int|
                0 <= a < b < s.len() && s[a] == #[trigger] w2[i] && s[b] == #[trigger] w2[j] by {
                if j == w2.len() - 1 {
                    let a = choose|a: int| 0 <= a < p.len() && p[a] == w[i];
                    assert(s[a] == w2[i] && s[s.len() - 1] == w2[j]);
                } else {
                    let (a, b) = choose|a: int, b: int|
                        0 <= a < b < p.len() && p[a] == w[i] && p[b] == w[j];
                    assert(s[a] == w2[i] && s[b] == w2[j]);
                }
            }
        } else {
            assert forall|i: int, j: int| 0 <= i < j < w.len() implies exists|a: int, b: int|
                0 <= a < b < s.len() && s[a] == #[trigger] w[i] && s[b] == #[trigger] w[j] by {
                let (a, b) = choose|a: int, b: int|
                    0 <= a < b < p.len() && p[a] == w[i] && p[b] == w[j];
                assert(s[a] == w[i] && s[b] == w[j]);
            }
        }
    }
}

/// Recording a search keeps the history well formed.
pub proof fn record_keeps_history_well_formed(s: Seq<Seq<char>>, query: Seq<char>, limit: nat)
    requires
        well_formed(s, limit),
    ensures
        well_formed(record_spec(s, query, limit), limit),
{
    let q = trim_spec(query);
    if q.len() > 0 && limit > 0 {
        lemma_trim_is_trimmed(query);
        let key = lowercase(q);
        lemma_without_key_shape(s, key);
        let w = without_key(s, key);
        let full = seq![q] + w;
        assert forall|i: int| 0 <= i < full.len() implies (#[trigger] full[i]).len() > 0
            && is_trimmed(full[i]) by {
            if i > 0 {
                assert(full[i] == w[i - 1]);
                let a = choose|a: int| 0 <= a < s.len() && s[a] == w[i - 1];
            }
        }
        assert forall|i: int, j: int| 0 <= i < j < full.len() implies lowercase(#[trigger] full[i])
            != lowercase(#[trigger] full[j]) by {
            if i == 0 {
                assert(full[j] == w[j - 1]);
            } else {
                assert(full[i] == w[i - 1] && full[j] == w[j - 1]);
                let (a, b) = choose|a: int, b: int|
                    0 <= a < b < s.len() && s[a] == #[trigger] w[i - 1] && s[b] == #[trigger] w[j
                        - 1];
            }
        }
        let r = take_at_most(full, limit);
        assert forall|i: int| 0 <= i < r.len() implies (#[trigger] r[i]).len() > 0 && is_trimmed(
            r[i],
        ) by {
            assert(r[i] == full[i]);
        }
        assert forall|i: int, j: int| 0 <= i < j < r.len() implies lowercase(#[trigger] r[i])
            != lowercase(#[trigger] r[j]) by {
            assert(r[i] == full[i] && r[j] == full[j]);
        }
    }
}

/// After a non-empty search is recorded (with a non-zero limit), the
/// trimmed query is the newest entry and no other entry equals it ignoring
/// case.
pub proof fn recorded_query_comes_first_once(s: Seq<Seq<char>>, query: Seq<char>, limit: nat)
    requires
        trim_spec(query).len() > 0,
        limit > 0,
    ensures
        ({
            let r = record_spec(s, query, limit);
            &&& r.len() > 0
            &&& r[0] == trim_spec(query)
            &&& forall|i: int| 0 < i < r.len() ==> lowercase(#[trigger] r[i]) != lowercase(trim_spec(query))
        }),
{
    let q = trim_spec(query);
    lemma_without_key_shape(s, lowercase(q));
    let w = without_key(s, lowercase(q));
    let full = seq![q] + w;
    let r = take_at_most(full, limit);
    assert forall|i: int| 0 < i < r.len() implies lowercase(#[trigger] r[i]) != lowercase(q) by {
        assert(r[i] == full[i] && full[i] == w[i - 1]);
    }
}

/// Cleaning up a well-formed history gives it back unchanged: what is
/// saved and loaded again is what was recorded.
pub proof fn reload_gives_back_history(s: Seq<Seq<char>>, limit: nat)
    requires
        well_formed(s, limit),
    ensures
        clean_spec(s, limit) == s,
{
    lemma_clean_all_of_well_formed(s);
    assert(s.take(s.len() as int) =~= s);
}

proof fn lemma_clean_all_of_well_formed(s: Seq<Seq<char>>)
    requires
        forall|i: int| 0 <= i < s.len() ==> (#[trigger] s[i]).len() > 0 && is_trimmed(s[i]),
        forall|i: int, j: int|
            0 <= i < j < s.len() ==> lowercase(#[trigger] s[i]) != lowercase(#[trigger] s[j]),
    ensures
        clean_all(s) == s,
    decreases s.len(),
{
    if s.len() > 0 {
        let p = s.drop_last();
        assert forall|i: int| 0 <= i < p.len() implies (#[trigger] p[i]).len() > 0 && is_trimmed(
            p[i],
        ) by {
            assert(p[i] == s[i]);
        }
        assert forall|i: int, j: int| 0 <= i < j < p.len() implies lowercase(#[trigger] p[i])
            != lowercase(#[trigger] p[j]) by {
            assert(p[i] == s[i] && p[j] == s[j]);
        }
        lemma_clean_all_of_well_formed(p);
        lemma_trim_of_trimmed(s.last());
        assert(s[s.len() - 1] == s.last());
        if keys(p).contains(lowercase(s.last())) {
            let j = choose|j: int| 0 <= j < keys(p).len() && keys(p)[j] == lowercase(s.last());
            assert(lowercase(s[j]) == lowercase(s[s.len() - 1]));
        }
        assert(p.push(s.last()) =~= s);
    }
}


/// The views of a sequence of strings.
pub open spec fn strings_view(s: Seq<String>) -> Seq<Seq<char>> {
    s.map_values(|e: String| e@)
}

/// Cleans up stored queries: trims each, drops empty ones and later
/// duplicates (ignoring case), and keeps at most `limit`.
pub fn clean_entries(entries: Vec<String>, limit: usize) -> (r: Vec<String>)
    ensures
        strings_view(r@) == clean_spec(strings_view(entries@), limit as nat),
{
    let ghost all = strings_view(entries@);
    let mut out: Vec<String> = Vec::new();
    let mut seen = StringHashSet::new();
    let mut i: usize = 0;
    while i < entries.len()
        invariant
            i <= entries@.len(),
            all == strings_view(entries@),
            strings_view(out@) == clean_all(all.take(i as int)),
            seen@ == keys(strings_view(out@)).to_set(),
        decreases entries@.len() - i,
    {
        let ghost prev = strings_view(out@);
        assert(all.take(i + 1).drop_last() =~= all.take(i as int));
        assert(all.take(i + 1).last() == entries@[i as int]@);
        let entry = trim(entries[i].as_str());
        if to_chars(entry.as_str()).len() > 0 {
            let key = to_lowercase(entry.as_str());
            let ghost k = key@;
            let fresh = seen.insert(key);
            proof {
                assert(keys(prev).to_set().contains(k) == keys(prev).contains(k));
            }
            if fresh {
                out.push(entry);
                proof {
                    assert(strings_view(out@) =~= prev.push(trim_spec(all[i as int])));
                    assert(keys(strings_view(out@)) =~= keys(prev).push(k));
                    assert forall|x: Seq<char>| seen@.contains(x) <==> keys(strings_view(out@)).to_set().contains(x) by {
                        if x == k {
                            assert(keys(strings_view(out@))[prev.len() as int] == k);
                        } else if keys(prev).contains(x) {
                            let j = choose|j: int| 0 <= j < keys(prev).len() && keys(prev)[j] == x;
                            assert(keys(strings_view(out@))[j] == x);
                        } else if keys(strings_view(out@)).contains(x) {
                            let j = choose|j: int| 0 <= j < keys(strings_view(out@)).len() && keys(strings_view(out@))[j] == x;
                            assert(keys(prev)[j] == x);
                        }
                    }
                    assert(seen@ =~= keys(strings_view(out@)).to_set());
                }
            }
        }
        i = i + 1;
    }
    assert(all.take(entries@.len() as int) =~= all);
    let ghost full = strings_view(out@);
    out.truncate(limit);
    proof {
        if limit as nat <= full.len() {
            assert(strings_view(out@) =~= full.take(limit as int));
        }
    }
    out
}

proof fn lemma_clean_all_well_formed(s: Seq<Seq<char>>)
    ensures
        forall|i: int| 0 <= i < clean_all(s).len() ==> (#[trigger] clean_all(s)[i]).len() > 0
            && is_trimmed(clean_all(s)[i]),
        forall|i: int, j: int|
            0 <= i < j < clean_all(s).len() ==> lowercase(#[trigger] clean_all(s)[i]) != lowercase(
                #[trigger] clean_all(s)[j],
            ),
    decreases s.len(),
{
    if s.len() > 0 {
        lemma_clean_all_well_formed(s.drop_last());
        lemma_trim_is_trimmed(s.last());
        let prev = clean_all(s.drop_last());
        let t = trim_spec(s.last());
        if t.len() > 0 && !keys(prev).contains(lowercase(t)) {
            let c = prev.push(t);
            assert forall|i: int, j: int| 0 <= i < j < c.len() implies lowercase(#[trigger] c[i])
                != lowercase(#[trigger] c[j]) by {
                if j == c.len() - 1 {
                    assert(keys(prev)[i] == lowercase(prev[i]));
                }
            }
        }
    }
}

/// Cleaned-up stored queries form a well-formed history.
pub proof fn cleaned_entries_are_well_formed(s: Seq<Seq<char>>, limit: nat)
    ensures
        well_formed(clean_spec(s, limit), limit),
{
    lemma_clean_all_well_formed(s);
    let r = clean_spec(s, limit);
    let c = clean_all(s);
    assert forall|i: int| 0 <= i < r.len() implies (#[trigger] r[i]).len() > 0 && is_trimmed(r[i]) by {
        assert(r[i] == c[i]);
    }
    assert forall|i: int, j: int| 0 <= i < j < r.len() implies lowercase(#[trigger] r[i])
        != lowercase(#[trigger] r[j]) by {
        assert(r[i] == c[i] && r[j] == c[j]);
    }
}

#[verifier::external_type_specification]
#[verifier::external_body]
pub struct ExJsonError(serde_json::Error);

/// The strings that `serde_json::from_slice::<Vec<String>>` reads from
/// `bytes`, or `None` when it rejects them.
pub uninterp spec fn json_string_list(bytes: Seq<u8>) -> Option<Seq<Seq<char>>>;

/// Reads a JSON array of strings with `serde_json::from_slice`; what it
/// reads, or that it fails, is named by `json_string_list`.
#[verifier::external_body]
fn read_json_strings(bytes: &[u8]) -> (r: Result<Vec<String>, serde_json::Error>)
    ensures
        match r {
            Ok(v) => json_string_list(bytes@) == Some(strings_view(v@)),
            Err(_) => json_string_list(bytes@) is None,
        },
{
    serde_json::from_slice(bytes)
}

/// The bytes that `serde_json::to_vec_pretty` writes for a list of strings.
pub uninterp spec fn pretty_json_strings(entries: Seq<Seq<char>>) -> Seq<u8>;

/// Writes a list of strings as indented JSON with `serde_json::to_vec_pretty`.
/// Its documentation lists two ways to fail, a `Serialize` impl that fails
/// or a map with non-string keys, and a list of strings has neither, so it
/// succeeds; the bytes are named by `pretty_json_strings`, and
/// `serde_json::from_slice` reads the same strings back from them (strings
/// are written with every quote, backslash and control character escaped,
/// and read with the escapes undone).
#[verifier::external_body]
fn write_json_strings(entries: &[String]) -> (r: Result<Vec<u8>, serde_json::Error>)
    ensures
        r is Ok,
        r matches Ok(b) ==> b@ == pretty_json_strings(strings_view(entries@)),
        r matches Ok(b) ==> json_string_list(b@) == Some(strings_view(entries@)),
{
    serde_json::to_vec_pretty(entries)
}

/// Why stored recent searches could not be read or written.
#[derive(Debug)]
pub enum HistoryError {
    /// The stored bytes are not a JSON array of strings.
    Parse(serde_json::Error),
    /// The searches could not be written as JSON.
    Serialize(serde_json::Error),
}

/// Recent searches, newest first, with the most that are kept.
pub struct RecentSearches {
    entries: Vec<String>,
    limit: usize,
}

impl View for RecentSearches {
    type V = (Seq<Seq<char>>, nat);

    closed spec fn view(&self) -> (Seq<Seq<char>>, nat) {
        (strings_view(self.entries@), self.limit as nat)
    }
}

impl RecentSearches {
    #[verifier::type_invariant]
    spec fn valid(self) -> bool {
        well_formed(strings_view(self.entries@), self.limit as nat)
    }

    /// The history held in the stored queries `stored`, cleaned up and
    /// limited to `limit`.
    pub fn load(stored: Vec<String>, limit: usize) -> (r: Self)
        ensures
            r@ == (clean_spec(strings_view(stored@), limit as nat), limit as nat),
            well_formed(r@.0, r@.1),
    {
        let entries = clean_entries(stored, limit);
        proof {
            cleaned_entries_are_well_formed(strings_view(stored@), limit as nat);
        }
        RecentSearches { entries, limit }
    }

    /// The history stored as the JSON array of strings `bytes`, cleaned up
    /// and limited to `limit`; an error when the bytes are not such an array.
    pub fn from_json(bytes: &[u8], limit: usize) -> (r: Result<Self, HistoryError>)
        ensures
            match r {
                Ok(h) => (json_string_list(bytes@) matches Some(s) && h@ == (
                    clean_spec(s, limit as nat),
                    limit as nat,
                )),
                Err(e) => json_string_list(bytes@) is None && e is Parse,
            },
    {
        match read_json_strings(bytes) {
            Ok(stored) => Ok(Self::load(stored, limit)),
            Err(e) => Err(HistoryError::Parse(e)),
        }
    }

    /// The recent searches as indented JSON, to be stored. Reading the
    /// bytes back with `from_json` and the same limit gives this history.
    pub fn to_json(&self) -> (r: Result<Vec<u8>, HistoryError>)
        ensures
            r matches Ok(b) && b@ == pretty_json_strings(self@.0) && json_string_list(b@) == Some(
                self@.0,
            ) && clean_spec(self@.0, self@.1) == self@.0,
    {
        proof {
            use_type_invariant(self);
            reload_gives_back_history(self@.0, self@.1);
        }
        match write_json_strings(self.entries.as_slice()) {
            Ok(b) => Ok(b),
            Err(e) => Err(HistoryError::Serialize(e)),
        }
    }

    /// An empty history keeping at most `limit` queries.
    pub fn empty(limit: usize) -> (r: Self)
        ensures
            r@ == (Seq::<Seq<char>>::empty(), limit as nat),
    {
        let r = RecentSearches { entries: Vec::new(), limit };
        assert(r@.0 =~= Seq::<Seq<char>>::empty());
        r
    }

    /// The recent searches, newest first.
    pub fn entries(&self) -> (r: &[String])
        ensures
            strings_view(r@) == self@.0,
            well_formed(self@.0, self@.1),
    {
        proof {
            use_type_invariant(self);
        }
        self.entries.as_slice()
    }

    /// The most queries kept.
    pub fn limit(&self) -> (r: usize)
        ensures
            r == self@.1,
    {
        self.limit
    }

    /// Records a search for `query`; answers whether the history changed
    /// (and so should be saved).
    pub fn record(&mut self, query: &str) -> (changed: bool)
        ensures
            final(self)@ == (record_spec(old(self)@.0, query@, old(self)@.1), old(self)@.1),
            changed == (trim_spec(query@).len() > 0 && old(self)@.1 > 0),
            well_formed(final(self)@.0, final(self)@.1),
    {
        proof {
            use_type_invariant(&*self);
        }
        let q = trim(query);
        if to_chars(q.as_str()).len() == 0 || self.limit == 0 {
            proof {
                use_type_invariant(&*self);
            }
            return false;
        }
        let key = to_lowercase(q.as_str());
        let key_chars = to_chars(key.as_str());
        let ghost old_entries = strings_view(self.entries@);
        let mut kept: Vec<String> = Vec::new();
        kept.push(q);
        let mut i: usize = 0;
        while i < self.entries.len()
            invariant
                i <= self.entries@.len(),
                old_entries == strings_view(self.entries@),
                key@ == lowercase(trim_spec(query@)),
                key_chars@ == key@,
                strings_view(kept@) == seq![trim_spec(query@)] + without_key(
                    old_entries.take(i as int),
                    key@,
                ),
            decreases self.entries@.len() - i,
        {
            let ghost prev = strings_view(kept@);
            assert(old_entries.take(i + 1).drop_last() =~= old_entries.take(i as int));
            assert(old_entries.take(i + 1).last() == self.entries@[i as int]@);
            let entry_key = to_lowercase(self.entries[i].as_str());
            if !crate::text::chars_eq(to_chars(entry_key.as_str()).as_slice(), key_chars.as_slice()) {
                kept.push(self.entries[i].clone());
                assert(strings_view(kept@) =~= prev.push(self.entries@[i as int]@));
            }
            i = i + 1;
        }
        assert(old_entries.take(old_entries.len() as int) =~= old_entries);
        let ghost full = strings_view(kept@);
        kept.truncate(self.limit);
        proof {
            if self.limit as nat <= full.len() {
                assert(strings_view(kept@) =~= full.take(self.limit as int));
            }
            record_keeps_history_well_formed(old_entries, query@, self.limit as nat);
        }
        self.entries = kept;
        true
    }
}
} // verus!
