//! The search index and ranked search over it.

use vstd::prelude::*;
use vstd::hash_set::StringHashSet;
use vstd::multiset::Multiset;
use rayon::iter::{IntoParallelRefIterator, ParallelIterator};
use std::cmp::Ordering;
use crate::history::{record_spec, recorded_query_comes_first_once};
use crate::text::{
    alphanumeric, copy_range, find, find_spec, from_chars, is_alphanumeric, lowercase, owned, push_chars,
    push_str, split_whitespace, to_chars, to_lowercase, trim, trim_spec, utf8_len, utf8_width,
    words,
};

verus! {

/// What a search item stands for.
#[derive(Clone, Copy, Debug, PartialEq, Eq, Hash, Structural)]
pub enum ItemKind {
    RecentSearch,
    Application,
    Command,
    File,
    Directory,
    WebSearch,
    AiPrompt,
}

/// An entry that search can return.
#[derive(Clone, Debug)]
pub struct SearchItem {
    pub title: String,
    pub subtitle: String,
    pub target: String,
    pub kind: ItemKind,
    pub tokens: String,
    pub desktop_icon: Option<String>,
}

/// Abstract view of a search item.
pub struct ItemView {
    pub title: Seq<char>,
    pub subtitle: Seq<char>,
    pub target: Seq<char>,
    pub kind: ItemKind,
    pub tokens: Seq<char>,
    pub desktop_icon: Option<Seq<char>>,
}

/// The view of an optional string.
pub open spec fn opt_view(o: Option<String>) -> Option<Seq<char>> {
    match o {
        Some(s) => Some(s@),
        None => None,
    }
}

impl View for SearchItem {
    type V = ItemView;

    open spec fn view(&self) -> ItemView {
        ItemView {
            title: self.title@,
            subtitle: self.subtitle@,
            target: self.target@,
            kind: self.kind,
            tokens: self.tokens@,
            desktop_icon: opt_view(self.desktop_icon),
        }
    }
}

impl SearchItem {
    /// Builds an item from its parts; `tokens` is the lower-case text that
    /// queries are matched against.
    pub fn new(
        title: String,
        subtitle: String,
        target: String,
        kind: ItemKind,
        tokens: String,
        desktop_icon: Option<String>,
    ) -> (r: Self)
        ensures
            r@ == (ItemView {
                title: title@,
                subtitle: subtitle@,
                target: target@,
                kind,
                tokens: tokens@,
                desktop_icon: opt_view(desktop_icon),
            }),
    {
        SearchItem { title, subtitle, target, kind, tokens, desktop_icon }
    }

    /// A copy of this item.
    pub fn duplicate(&self) -> (r: Self)
        ensures
            r@ == self@,
    {
        SearchItem {
            title: self.title.clone(),
            subtitle: self.subtitle.clone(),
            target: self.target.clone(),
            kind: self.kind,
            tokens: self.tokens.clone(),
            desktop_icon: match &self.desktop_icon {
                Some(s) => Some(s.clone()),
                None => None,
            },
        }
    }
}

/// A matched item with its score; higher scores rank first.
#[derive(Clone, Debug)]
pub struct SearchResult {
    pub item: SearchItem,
    pub score: i64,
}

/// Abstract view of a search result.
pub struct ResultView {
    pub item: ItemView,
    pub score: int,
}

impl View for SearchResult {
    type V = ResultView;

    open spec fn view(&self) -> ResultView {
        ResultView { item: self.item@, score: self.score as int }
    }
}

/// The views of a sequence of results.
pub open spec fn results_view(s: Seq<SearchResult>) -> Seq<ResultView> {
    s.map_values(|r: SearchResult| r@)
}

/// The views of a sequence of items.
pub open spec fn items_view(s: Seq<SearchItem>) -> Seq<ItemView> {
    s.map_values(|i: SearchItem| i@)
}

/// The most query words whose score fits in an `i64`: each word earns at
/// most 1500, the whole query at most 1000 more and the kind of item at most
/// 3000, and `1500 * MAX_QUERY_TERMS + 4000 <= i64::MAX`. A query with more
/// words would overflow the score.
pub const MAX_QUERY_TERMS: u64 = 6_148_914_691_236_514;

/// Score that a term found at character index `i` of `tokens` earns: up to
/// 1000 for an early match (less one per byte of offset, at most 900 less),
/// plus 500 when the match begins a word.
pub open spec fn term_score(tokens: Seq<char>, i: int) -> int {
    let offset = utf8_len(tokens.take(i));
    let early = 1000 - if offset < 900 {
        offset as int
    } else {
        900int
    };
    let word_start = i == 0 || !alphanumeric(tokens[i - 1]);
    early + if word_start {
        500int
    } else {
        0int
    }
}

/// Sum of the term scores when every term occurs in `tokens`, else `None`.
pub open spec fn terms_score(tokens: Seq<char>, terms: Seq<Seq<char>>) -> Option<int>
    decreases terms.len(),
{
    if terms.len() == 0 {
        Some(0)
    } else {
        match terms_score(tokens, terms.drop_last()) {
            None => None,
            Some(s) => match find_spec(tokens, terms.last()) {
                None => None,
                Some(i) => Some(s + term_score(tokens, i)),
            },
        }
    }
}

/// How well `tokens` matches a query (lower-cased `query`, split into
/// `terms`): every term must occur as a contiguous substring; several terms
/// that also occur together as the whole query earn 1000 more.
pub open spec fn match_score_spec(tokens: Seq<char>, query: Seq<char>, terms: Seq<Seq<char>>) -> Option<
    int,
> {
    match terms_score(tokens, terms) {
        None => None,
        Some(s) => Some(
            s + if terms.len() > 1 && find_spec(tokens, query) is Some {
                1000int
            } else {
                0
            },
        ),
    }
}

/// Rank bonus of each kind of item.
pub open spec fn kind_boost_spec(kind: ItemKind) -> int {
    match kind {
        ItemKind::Application => 3000,
        ItemKind::Command => 1500,
        ItemKind::Directory => 800,
        _ => 0,
    }
}

/// Rank bonus of each kind of item.
pub fn kind_boost(kind: ItemKind) -> (r: i64)
    ensures
        r == kind_boost_spec(kind),
{
    match kind {
        ItemKind::Application => 3000,
        ItemKind::Command => 1500,
        ItemKind::Directory => 800,
        _ => 0,
    }
}

proof fn lemma_terms_score_bounds(tokens: Seq<char>, terms: Seq<Seq<char>>)
    ensures
        terms_score(tokens, terms) matches Some(s) ==> 0 <= s <= 1500 * terms.len(),
    decreases terms.len(),
{
    if terms.len() > 0 {
        lemma_terms_score_bounds(tokens, terms.drop_last());
    }
}

/// Number of UTF-8 bytes of the first `n` characters of `v`, capped at `cap`.
fn utf8_prefix_len(v: &[char], n: usize) -> (r: u64)
    requires
        n <= v@.len(),
    ensures
        r == if utf8_len(v@.take(n as int)) < 900 {
            utf8_len(v@.take(n as int))
        } else {
            900
        },
{
    let mut total: u64 = 0;
    let mut i: usize = 0;
    while i < n
        invariant
            i <= n <= v@.len(),
            total == if utf8_len(v@.take(i as int)) < 900 {
                utf8_len(v@.take(i as int))
            } else {
                900
            },
        decreases n - i,
    {
        let u = v[i] as u32;
        let w: u64 = if u < 0x80 {
            1
        } else if u < 0x800 {
            2
        } else if u < 0x10000 {
            3
        } else {
            4
        };
        assert(v@.take(i + 1).drop_last() =~= v@.take(i as int));
        assert(w == utf8_width(v@[i as int]));
        total = if total + w < 900 {
            total + w
        } else {
            900
        };
        i = i + 1;
    }
    total
}

/// How well `tokens` matches the lower-cased `query` split into `terms`.
pub fn match_score(tokens: &[char], query: &[char], terms: &[Vec<char>]) -> (r: Option<i64>)
    requires
        terms@.len() <= MAX_QUERY_TERMS,
    ensures
        match r {
            Some(s) => match_score_spec(tokens@, query@, terms@.map_values(|t: Vec<char>| t@))
                == Some(s as int),
            None => match_score_spec(tokens@, query@, terms@.map_values(|t: Vec<char>| t@)) is None,
        },
        r matches Some(s) ==> 0 <= s <= 1500 * terms@.len() + 1000,
{
    let ghost ts = terms@.map_values(|t: Vec<char>| t@);
    let mut score: i64 = 0;
    let mut k: usize = 0;
    while k < terms.len()
        invariant
            k <= terms@.len() <= MAX_QUERY_TERMS,
            ts == terms@.map_values(|t: Vec<char>| t@),
            terms_score(tokens@, ts.take(k as int)) == Some(score as int),
            0 <= score <= 1500 * k,
        decreases terms@.len() - k,
    {
        assert(ts.take(k + 1).drop_last() =~= ts.take(k as int));
        assert(ts.take(k + 1).last() == terms@[k as int]@);
        let idx = match find(tokens, terms[k].as_slice()) {
            None => {
                proof {
                    lemma_none_propagates(tokens@, ts, k as int + 1);
                }
                return None;
            },
            Some(i) => i,
        };
        proof {
            crate::text::lemma_find_in_range(tokens@, terms@[k as int]@);
        }
        let offset = utf8_prefix_len(tokens, idx);
        let early: i64 = 1000 - offset as i64;
        let at_word_start = idx == 0 || !is_alphanumeric(tokens[idx - 1]);
        score = score + early + if at_word_start {
            500
        } else {
            0
        };
        k = k + 1;
    }
    assert(ts.take(terms@.len() as int) =~= ts);
    if terms.len() > 1 && find(tokens, query).is_some() {
        score = score + 1000;
    }
    Some(score)
}

proof fn lemma_none_propagates(tokens: Seq<char>, ts: Seq<Seq<char>>, k: int)
    requires
        0 < k <= ts.len(),
        terms_score(tokens, ts.take(k)) is None,
    ensures
        terms_score(tokens, ts) is None,
    decreases ts.len() - k,
{
    if k < ts.len() {
        assert(ts.take(k + 1).drop_last() =~= ts.take(k));
        lemma_none_propagates(tokens, ts, k + 1);
    } else {
        assert(ts.take(k) =~= ts);
    }
}


/// The views of a sequence of query terms.
pub open spec fn terms_view(terms: Seq<Vec<char>>) -> Seq<Seq<char>> {
    terms.map_values(|t: Vec<char>| t@)
}

/// The result for an item under a query, if the item matches: its match
/// score plus the bonus of its kind.
pub open spec fn scored_view(item: ItemView, query: Seq<char>, terms: Seq<Seq<char>>) -> Option<
    ResultView,
> {
    match match_score_spec(item.tokens, query, terms) {
        Some(s) => Some(ResultView { item, score: s + kind_boost_spec(item.kind) }),
        None => None,
    }
}

/// The result for `item` under the lower-cased `query` split into `terms`.
pub fn score_item(item: &SearchItem, query: &[char], terms: &[Vec<char>]) -> (r: Option<
    SearchResult,
>)
    requires
        terms@.len() <= MAX_QUERY_TERMS,
    ensures
        match r {
            Some(x) => scored_view(item@, query@, terms_view(terms@)) == Some(x@),
            None => scored_view(item@, query@, terms_view(terms@)) is None,
        },
{
    let tokens = to_chars(item.tokens.as_str());
    match match_score(tokens.as_slice(), query, terms) {
        None => None,
        Some(s) => Some(SearchResult { item: item.duplicate(), score: s + kind_boost(item.kind) }),
    }
}

/// Scores all `items` in parallel with rayon (`par_iter().filter_map(..)`
/// collected into a `Vec`); rayon's collection into a vector keeps the
/// order of the source slice, so the results are the matching items in
/// their original order.
#[verifier::external_body]
fn score_all(items: &[SearchItem], query: &[char], terms: &[Vec<char>]) -> (r: Vec<SearchResult>)
    requires
        terms@.len() <= MAX_QUERY_TERMS,
    ensures
        results_view(r@) == items_view(items@).filter_map(
            |iv: ItemView| scored_view(iv, query@, terms_view(terms@)),
        ),
{
    items.par_iter().filter_map(|item| score_item(item, query, terms)).collect()
}

/// Lexicographic order of code points from index `i` on.
pub open spec fn lex_less_from(a: Seq<char>, b: Seq<char>, i: int) -> bool
    decreases a.len() - i,
{
    if i < 0 || i >= b.len() {
        false
    } else if i >= a.len() {
        true
    } else if (a[i] as u32) < (b[i] as u32) {
        true
    } else if a[i] == b[i] {
        lex_less_from(a, b, i + 1)
    } else {
        false
    }
}

/// Lexicographic order of code points (the order of `String`'s `Ord`).
pub open spec fn lex_less(a: Seq<char>, b: Seq<char>) -> bool {
    lex_less_from(a, b, 0)
}

/// Whether result `a` ranks before result `b`: higher score first, then
/// shorter title (in UTF-8 bytes), then title order.
pub open spec fn ranks_before(a: ResultView, b: ResultView) -> bool {
    let la = utf8_len(a.item.title);
    let lb = utf8_len(b.item.title);
    ||| a.score > b.score
    ||| a.score == b.score && la < lb
    ||| a.score == b.score && la == lb && lex_less(a.item.title, b.item.title)
}

/// Whether no result ranks before an earlier one.
pub open spec fn ranked(s: Seq<ResultView>) -> bool {
    forall|i: int, j: int| 0 <= i < j < s.len() ==> !ranks_before(#[trigger] s[j], #[trigger] s[i])
}

proof fn lemma_lex_asym(a: Seq<char>, b: Seq<char>, i: int)
    ensures
        !(lex_less_from(a, b, i) && lex_less_from(b, a, i)),
        a.len() == b.len() && !lex_less_from(a, b, i) && !lex_less_from(b, a, i) && 0 <= i
            <= a.len() ==> a.subrange(i, a.len() as int) == b.subrange(i, b.len() as int),
    decreases a.len() - i,
{
    if 0 <= i < a.len() && i < b.len() && a[i] == b[i] {
        lemma_lex_asym(a, b, i + 1);
        if a.len() == b.len() && !lex_less_from(a, b, i) && !lex_less_from(b, a, i) {
            assert(a.subrange(i, a.len() as int) =~= seq![a[i]] + a.subrange(i + 1, a.len() as int));
            assert(b.subrange(i, b.len() as int) =~= seq![b[i]] + b.subrange(i + 1, b.len() as int));
        }
    } else if a.len() == b.len() && i == a.len() {
        assert(a.subrange(i, a.len() as int) =~= b.subrange(i, b.len() as int));
    } else if 0 <= i < a.len() && i < b.len() {
        let (ua, ub) = (a[i] as u32, b[i] as u32);
        vstd::utf8::char_u32_cast(a[i], ua);
        vstd::utf8::char_u32_cast(b[i], ub);
        assert(ua != ub);
    }
}

/// Lexicographic comparison of two titles.
fn title_less(a: &[char], b: &[char]) -> (r: bool)
    ensures
        r == lex_less(a@, b@),
{
    let mut i: usize = 0;
    while i < a.len() && i < b.len() && a[i] == b[i]
        invariant
            i <= a@.len(),
            i <= b@.len(),
            lex_less(a@, b@) == lex_less_from(a@, b@, i as int),
        decreases a@.len() - i,
    {
        i = i + 1;
    }
    if i >= b.len() {
        false
    } else if i >= a.len() {
        true
    } else {
        (a[i] as u32) < (b[i] as u32)
    }
}

/// Number of UTF-8 bytes that encode `v`.
fn utf8_length(v: &[char]) -> (r: u128)
    ensures
        r == utf8_len(v@),
{
    let mut total: u128 = 0;
    let mut i: usize = 0;
    while i < v.len()
        invariant
            i <= v@.len(),
            total == utf8_len(v@.take(i as int)),
            total <= 4 * i,
        decreases v@.len() - i,
    {
        let u = v[i] as u32;
        let w: u128 = if u < 0x80 {
            1
        } else if u < 0x800 {
            2
        } else if u < 0x10000 {
            3
        } else {
            4
        };
        assert(v@.take(i + 1).drop_last() =~= v@.take(i as int));
        assert(w == utf8_width(v@[i as int]));
        total = total + w;
        i = i + 1;
    }
    assert(v@.take(v@.len() as int) =~= v@);
    total
}

/// Whether result `a` ranks before result `b`.
fn result_before(a: &SearchResult, b: &SearchResult) -> (r: bool)
    ensures
        r == ranks_before(a@, b@),
{
    if a.score != b.score {
        return a.score > b.score;
    }
    let la = utf8_length(to_chars(a.item.title.as_str()).as_slice());
    let lb = utf8_length(to_chars(b.item.title.as_str()).as_slice());
    if la != lb {
        return la < lb;
    }
    title_less(
        to_chars(a.item.title.as_str()).as_slice(),
        to_chars(b.item.title.as_str()).as_slice(),
    )
}

/// Three-way rank comparison: `Less` when `a` ranks before `b`.
fn compare_results(a: &SearchResult, b: &SearchResult) -> (r: Ordering)
    ensures
        r == Ordering::Less <==> ranks_before(a@, b@),
        r == Ordering::Greater <==> ranks_before(b@, a@),
{
    proof {
        lemma_lex_asym(a@.item.title, b@.item.title, 0);
    }
    if result_before(a, b) {
        Ordering::Less
    } else if result_before(b, a) {
        Ordering::Greater
    } else {
        Ordering::Equal
    }
}

/// Sorts `results` with `slice::sort_unstable_by` under `compare_results`,
/// a total order: the results are permuted into rank order (results that
/// compare equal may come in either order).
#[verifier::external_body]
fn sort_by_rank(results: &mut Vec<SearchResult>)
    ensures
        results_view(final(results)@).to_multiset() == results_view(old(results)@).to_multiset(),
        ranked(results_view(final(results)@)),
{
    results.sort_unstable_by(|a, b| compare_results(a, b));
}

/// Whether byte `b` is kept as it is by percent-encoding.
pub open spec fn unreserved(b: u8) -> bool {
    ||| (65 <= b <= 90)
    ||| (97 <= b <= 122)
    ||| (48 <= b <= 57)
    ||| b == 45
    ||| b == 95
    ||| b == 46
    ||| b == 126
}

/// The upper-case hexadecimal digit for `d < 16`.
pub open spec fn hex_digit(d: u8) -> char {
    if d < 10 {
        ((d + 48) as u32) as char
    } else {
        ((d + 55) as u32) as char
    }
}

/// The encoding of one byte in a query string: unreserved bytes as they
/// are, a space as `+`, anything else as `%XX`.
pub open spec fn encode_byte(b: u8) -> Seq<char> {
    if unreserved(b) {
        seq![(b as u32) as char]
    } else if b == 32 {
        seq!['+']
    } else {
        seq!['%', hex_digit(b / 16), hex_digit(b % 16)]
    }
}

/// The query-string encoding of the bytes `bytes`.
pub open spec fn percent_encode_spec(bytes: Seq<u8>) -> Seq<char>
    decreases bytes.len(),
{
    if bytes.len() == 0 {
        seq![]
    } else {
        percent_encode_spec(bytes.drop_last()) + encode_byte(bytes.last())
    }
}

fn hex_char(d: u8) -> (c: char)
    requires
        d < 16,
    ensures
        c == hex_digit(d),
{
    match d {
        0 => '0',
        1 => '1',
        2 => '2',
        3 => '3',
        4 => '4',
        5 => '5',
        6 => '6',
        7 => '7',
        8 => '8',
        9 => '9',
        10 => 'A',
        11 => 'B',
        12 => 'C',
        13 => 'D',
        14 => 'E',
        _ => 'F',
    }
}

/// Percent-encodes the UTF-8 bytes of `value` for a URL query string.
pub fn percent_encode(value: &str) -> (r: String)
    ensures
        r@ == percent_encode_spec(vstd::utf8::encode_utf8(value@)),
{
    let bytes = value.as_bytes();
    let mut out = String::new();
    let mut i: usize = 0;
    while i < bytes.len()
        invariant
            i <= bytes@.len(),
            bytes@ == vstd::utf8::encode_utf8(value@),
            out@ == percent_encode_spec(bytes@.take(i as int)),
        decreases bytes@.len() - i,
    {
        let b = bytes[i];
        assert(bytes@.take(i + 1).drop_last() =~= bytes@.take(i as int));
        if (65 <= b && b <= 90) || (97 <= b && b <= 122) || (48 <= b && b <= 57) || b == 45 || b
            == 95 || b == 46 || b == 126 {
            let c = b as char;
            out.push(c);
            assert(seq![c] =~= encode_byte(b));
        } else if b == 32 {
            out.push('+');
            assert(seq!['+'] =~= encode_byte(b));
        } else {
            out.push('%');
            out.push(hex_char(b / 16));
            out.push(hex_char(b % 16));
        }
        proof {
            assert(out@ =~= percent_encode_spec(bytes@.take(i as int)) + encode_byte(b));
        }
        i = i + 1;
    }
    assert(bytes@.take(bytes@.len() as int) =~= bytes@);
    out
}

/// The value of an upper-case hexadecimal digit (0 for anything else).
pub open spec fn hex_value(c: char) -> int {
    let u = c as u32;
    if 48 <= u <= 57 {
        u - 48
    } else if 65 <= u <= 70 {
        u - 55
    } else {
        0
    }
}

/// The bytes a query string `s` stands for, read as a form-encoded value:
/// `+` is a space, `%XY` the byte with hexadecimal value `XY`, and any
/// other character its own code.
pub open spec fn form_decode(s: Seq<char>) -> Seq<int>
    decreases s.len(),
{
    if s.len() == 0 {
        seq![]
    } else if s[0] == '+' {
        seq![32int] + form_decode(s.drop_first())
    } else if s[0] == '%' && s.len() >= 3 {
        seq![hex_value(s[1]) * 16 + hex_value(s[2])] + form_decode(s.skip(3))
    } else {
        seq![s[0] as int] + form_decode(s.drop_first())
    }
}

proof fn lemma_encode_front(bytes: Seq<u8>)
    requires
        bytes.len() > 0,
    ensures
        percent_encode_spec(bytes) == encode_byte(bytes[0]) + percent_encode_spec(bytes.drop_first()),
    decreases bytes.len(),
{
    if bytes.len() == 1 {
        assert(bytes.drop_last().len() == 0);
        assert(bytes.drop_first().len() == 0);
        assert(percent_encode_spec(bytes.drop_last()) =~= Seq::<char>::empty());
        assert(bytes.last() == bytes[0]);
        assert(percent_encode_spec(bytes) =~= encode_byte(bytes[0]));
        assert(percent_encode_spec(bytes.drop_first()) =~= Seq::<char>::empty());
    } else {
        lemma_encode_front(bytes.drop_last());
        assert(bytes.drop_last().drop_first() =~= bytes.drop_first().drop_last());
        assert(bytes.drop_first().last() == bytes.last());
        assert(bytes.drop_last()[0] == bytes[0]);
        assert(percent_encode_spec(bytes) =~= encode_byte(bytes[0]) + percent_encode_spec(
            bytes.drop_first(),
        ));
    }
}

/// Reading the query-string encoding back (with `+` as a space and `%XY` as
/// a byte) gives exactly the encoded bytes: every byte other than the
/// unreserved ones is escaped, a `+` included, so nothing is lost or
/// changed.
pub proof fn percent_decoding_gives_back_the_bytes(bytes: Seq<u8>)
    ensures
        form_decode(percent_encode_spec(bytes)) == bytes.map_values(|b: u8| b as int),
    decreases bytes.len(),
{
    if bytes.len() == 0 {
        assert(percent_encode_spec(bytes).len() == 0);
        assert(bytes.map_values(|b: u8| b as int) =~= Seq::<int>::empty());
    } else {
        lemma_encode_front(bytes);
        percent_decoding_gives_back_the_bytes(bytes.drop_first());
        let b = bytes[0];
        let e = encode_byte(b);
        let rest = percent_encode_spec(bytes.drop_first());
        let s = e + rest;
        assert(s == percent_encode_spec(bytes));
        if unreserved(b) {
            assert(s[0] == (b as u32) as char);
            assert(((b as u32) as char) as u32 == b);
            assert(s.drop_first() =~= rest);
        } else if b == 32 {
            assert(s.drop_first() =~= rest);
        } else {
            let hi = b / 16;
            let lo = b % 16;
            assert(s[0] == '%' && s[1] == hex_digit(hi) && s[2] == hex_digit(lo));
            assert(s.skip(3) =~= rest);
            if hi < 10 {
                assert((((hi + 48) as u32) as char) as u32 == hi + 48);
            } else {
                assert((((hi + 55) as u32) as char) as u32 == hi + 55);
            }
            if lo < 10 {
                assert((((lo + 48) as u32) as char) as u32 == lo + 48);
            } else {
                assert((((lo + 55) as u32) as char) as u32 == lo + 55);
            }
            assert(hex_value(s[1]) * 16 + hex_value(s[2]) == b);
        }
        assert(form_decode(s) =~= bytes.map_values(|b: u8| b as int));
    }
}

/// ASCII letters and digits are written as they are: a query made of them
/// is its own encoding.
pub proof fn letters_and_digits_are_kept(bytes: Seq<u8>)
    requires
        forall|i: int|
            0 <= i < bytes.len() ==> {
                let b = #[trigger] bytes[i];
                (65 <= b <= 90) || (97 <= b <= 122) || (48 <= b <= 57)
            },
    ensures
        percent_encode_spec(bytes) == bytes.map_values(|b: u8| (b as u32) as char),
    decreases bytes.len(),
{
    if bytes.len() == 0 {
        assert(bytes.map_values(|b: u8| (b as u32) as char) =~= Seq::<char>::empty());
    } else {
        let b = bytes.last();
        assert(bytes[bytes.len() - 1] == b);
        letters_and_digits_are_kept(bytes.drop_last());
        assert(bytes.map_values(|b: u8| (b as u32) as char) =~= bytes.drop_last().map_values(
            |b: u8| (b as u32) as char,
        ).push((b as u32) as char));
        assert(encode_byte(b) =~= seq![(b as u32) as char]);
    }
}

/// The item that opens a web search for `query`.
pub open spec fn web_search_view(query: Seq<char>) -> ItemView {
    ItemView {
        title: "Search Google for \""@ + query + "\""@,
        subtitle: "Open in default browser"@,
        target: "https://www.google.com/search?q="@ + percent_encode_spec(
            vstd::utf8::encode_utf8(query),
        ),
        kind: ItemKind::WebSearch,
        tokens: query,
        desktop_icon: None,
    }
}

/// The target of a web search is the search URL followed by a query
/// string that reads back as exactly the UTF-8 bytes of the typed query.
pub proof fn web_search_target_reads_back_the_query(query: Seq<char>)
    ensures
        ({
            let prefix = "https://www.google.com/search?q="@;
            let t = web_search_view(query).target;
            &&& t.take(prefix.len() as int) == prefix
            &&& form_decode(t.skip(prefix.len() as int)) == vstd::utf8::encode_utf8(query).map_values(
                |b: u8| b as int,
            )
        }),
{
    let prefix = "https://www.google.com/search?q="@;
    let enc = percent_encode_spec(vstd::utf8::encode_utf8(query));
    let t = web_search_view(query).target;
    assert(t.take(prefix.len() as int) =~= prefix);
    assert(t.skip(prefix.len() as int) =~= enc);
    percent_decoding_gives_back_the_bytes(vstd::utf8::encode_utf8(query));
}

/// The item that opens a web search for `query`.
pub fn web_search_item(query: &str) -> (r: SearchItem)
    ensures
        r@ == web_search_view(query@),
{
    let mut title = owned("Search Google for \"");
    push_str(&mut title, query);
    push_str(&mut title, "\"");
    let mut target = owned("https://www.google.com/search?q=");
    let encoded = percent_encode(query);
    push_str(&mut target, encoded.as_str());
    SearchItem {
        title,
        subtitle: owned("Open in default browser"),
        target,
        kind: ItemKind::WebSearch,
        tokens: owned(query),
        desktop_icon: None,
    }
}

/// The item that asks the AI assistant `prompt`.
pub open spec fn ai_prompt_view(prompt: Seq<char>) -> ItemView {
    ItemView {
        title: if prompt.len() == 0 {
            "Ask AI"@
        } else {
            "Ask AI: "@ + prompt
        },
        subtitle: if prompt.len() == 0 {
            "Type a question after /"@
        } else {
            "Press Enter to ask"@
        },
        target: prompt,
        kind: ItemKind::AiPrompt,
        tokens: seq![],
        desktop_icon: None,
    }
}

/// The item that asks the AI assistant `prompt`.
pub fn ai_prompt_item(prompt: &str) -> (r: SearchItem)
    ensures
        r@ == ai_prompt_view(prompt@),
{
    let empty = to_chars(prompt).len() == 0;
    let title = if empty {
        owned("Ask AI")
    } else {
        let mut t = owned("Ask AI: ");
        push_str(&mut t, prompt);
        t
    };
    let subtitle = if empty {
        owned("Type a question after /")
    } else {
        owned("Press Enter to ask")
    };
    SearchItem {
        title,
        subtitle,
        target: owned(prompt),
        kind: ItemKind::AiPrompt,
        tokens: String::new(),
        desktop_icon: None,
    }
}

/// The item that brings back the earlier search `query`.
pub open spec fn recent_search_view(query: Seq<char>) -> ItemView {
    ItemView {
        title: query,
        subtitle: "Recent search"@,
        target: query,
        kind: ItemKind::RecentSearch,
        tokens: query,
        desktop_icon: None,
    }
}

/// The item that brings back the earlier search `query`.
pub fn recent_search_item(query: &str) -> (r: SearchItem)
    ensures
        r@ == recent_search_view(query@),
{
    SearchItem {
        title: owned(query),
        subtitle: owned("Recent search"),
        target: owned(query),
        kind: ItemKind::RecentSearch,
        tokens: owned(query),
        desktop_icon: None,
    }
}

/// The results shown for an empty query: the first `limit` recent searches
/// (newest first), each with score 0.
pub open spec fn recent_results_spec(entries: Seq<Seq<char>>, limit: nat) -> Seq<ResultView> {
    let shown = if limit <= entries.len() {
        entries.take(limit as int)
    } else {
        entries
    };
    shown.map_values(|q: Seq<char>| ResultView { item: recent_search_view(q), score: 0 })
}

/// The results shown for an empty query: the first `limit` of `entries`
/// (the recent searches, newest first).
pub fn recent_search_results(entries: &[String], limit: usize) -> (r: Vec<SearchResult>)
    ensures
        results_view(r@) == recent_results_spec(entries@.map_values(|e: String| e@), limit as nat),
{
    let ghost all = entries@.map_values(|e: String| e@);
    let n = if limit < entries.len() {
        limit
    } else {
        entries.len()
    };
    let mut r: Vec<SearchResult> = Vec::new();
    let mut i: usize = 0;
    while i < n
        invariant
            i <= n <= entries@.len(),
            n == (if limit < entries@.len() { limit as int } else { entries@.len() as int }),
            all == entries@.map_values(|e: String| e@),
            results_view(r@) == all.take(i as int).map_values(
                |q: Seq<char>| ResultView { item: recent_search_view(q), score: 0 },
            ),
        decreases n - i,
    {
        let ghost before = results_view(r@);
        let item = recent_search_item(entries[i].as_str());
        assert(all[i as int] == entries@[i as int]@);
        r.push(SearchResult { item, score: 0 });
        assert(results_view(r@) =~= before.push(
            ResultView { item: recent_search_view(all[i as int]), score: 0 },
        ));
        assert(all.take(i + 1) =~= all.take(i as int).push(all[i as int]));
        assert(results_view(r@) =~= all.take(i + 1).map_values(
            |q: Seq<char>| ResultView { item: recent_search_view(q), score: 0 },
        ));
        i = i + 1;
    }
    assert(all.take(n as int) =~= (if limit as nat <= all.len() {
        all.take(limit as int)
    } else {
        all
    }));
    r
}

/// Whether `r` is what matching `items` (complete or not) against the
/// lower-cased query `q` returns, at most `max_results` ranked matches or a
/// web search for the typed text `raw` when nothing matches a complete index.
pub open spec fn matches_outcome(
    items: Seq<ItemView>,
    complete: bool,
    raw: Seq<char>,
    q: Seq<char>,
    max_results: nat,
    r: Seq<ResultView>,
) -> bool {
    let terms = words(q);
    if terms.len() > MAX_QUERY_TERMS {
        r.len() == 0
    } else {
        let scored = items.filter_map(|iv: ItemView| scored_view(iv, q, terms));
        exists|full: Seq<ResultView>|
            {
                &&& full.to_multiset() == scored.to_multiset()
                &&& ranked(full)
                &&& #[trigger] best_or_web(full, max_results, complete, raw) == r
            }
    }
}

/// Whether `r` is what a search of `items` (complete or not) for `query`
/// returns with at most `max_results` ranked matches.
pub open spec fn search_outcome(
    items: Seq<ItemView>,
    complete: bool,
    query: Seq<char>,
    max_results: nat,
    r: Seq<ResultView>,
) -> bool {
    let raw = trim_spec(query);
    if raw.len() == 0 {
        r.len() == 0
    } else if raw[0] == '/' {
        r == seq![ResultView { item: ai_prompt_view(trim_spec(raw.drop_first())), score: 0 }]
    } else {
        matches_outcome(items, complete, raw, lowercase(raw), max_results, r)
    }
}

/// The first `max_results` of the ranked matches `full`; when nothing
/// matches and the index is complete, a web search for `raw` instead.
pub open spec fn best_or_web(full: Seq<ResultView>, max_results: nat, complete: bool, raw: Seq<
    char,
>) -> Seq<ResultView> {
    if full.len() == 0 && complete {
        seq![ResultView { item: web_search_view(raw), score: 0 }]
    } else if max_results <= full.len() {
        full.take(max_results as int)
    } else {
        full
    }
}


/// Searches `index` for `query`, returning at most `max_results` ranked
/// matches. A query starting with `/` becomes a prompt for the AI
/// assistant; a query with no match in a complete index becomes a web
/// search.
pub fn search(index: &SearchIndex, query: &str, max_results: usize) -> (r: Vec<SearchResult>)
    ensures
        search_outcome(index@.0, index@.1, query@, max_results as nat, results_view(r@)),
{
    let raw = trim(query);
    let raw_chars = to_chars(raw.as_str());
    if raw_chars.len() == 0 {
        return Vec::new();
    }
    if raw_chars[0] == '/' {
        let rest = copy_range(raw_chars.as_slice(), 1, raw_chars.len());
        assert(rest@ =~= raw@.drop_first());
        let prompt = trim(from_chars(rest.as_slice()).as_str());
        let mut r: Vec<SearchResult> = Vec::new();
        r.push(SearchResult { item: ai_prompt_item(prompt.as_str()), score: 0 });
        assert(results_view(r@) =~= seq![
            ResultView { item: ai_prompt_view(trim_spec(trim_spec(query@).drop_first())), score: 0 },
        ]);
        return r;
    }
    let q = to_lowercase(raw.as_str());
    search_matches(index, raw.as_str(), q.as_str(), max_results)
}

/// Matches the items of `index` against `query`, the lower-cased form of
/// the typed text `raw`: at most `max_results` ranked matches, or a web
/// search for `raw` when nothing matches and indexing has finished.
pub fn search_matches(index: &SearchIndex, raw: &str, query: &str, max_results: usize) -> (r: Vec<
    SearchResult,
>)
    ensures
        matches_outcome(index@.0, index@.1, raw@, query@, max_results as nat, results_view(r@)),
{
    let q_chars = to_chars(query);
    let terms = split_whitespace(q_chars.as_slice());
    assert(terms_view(terms@) =~= words(query@));
    if terms.len() as u64 > MAX_QUERY_TERMS {
        return Vec::new();
    }
    let mut results = score_all(index.items.as_slice(), q_chars.as_slice(), terms.as_slice());
    let ghost scored = results_view(results@);
    sort_by_rank(&mut results);
    let ghost full = results_view(results@);
    let matched = results.len() > 0;
    results.truncate(max_results);
    proof {
        if max_results as nat <= full.len() {
            assert(results_view(results@) =~= full.take(max_results as int));
        } else {
            assert(results_view(results@) =~= full);
        }
    }
    if !matched && index.complete {
        results.push(SearchResult { item: web_search_item(raw), score: 0 });
        assert(results_view(results@) =~= seq![
            ResultView { item: web_search_view(raw@), score: 0 },
        ]);
    }
    assert(best_or_web(full, max_results as nat, index.complete, raw@) == results_view(results@));
    results
}

/// The identity of an item in the index: its kind and its target.
pub open spec fn item_key(item: ItemView) -> (ItemKind, Seq<char>) {
    (item.kind, item.target)
}

/// The keys of a sequence of items.
pub open spec fn keys_of(items: Seq<ItemView>) -> Seq<(ItemKind, Seq<char>)> {
    items.map_values(|i: ItemView| item_key(i))
}

/// `items` in order, leaving out every item whose key is in `seen` or
/// belongs to an earlier item.
pub open spec fn dedup_spec(items: Seq<ItemView>, seen: Set<(ItemKind, Seq<char>)>) -> Seq<ItemView>
    decreases items.len(),
{
    if items.len() == 0 {
        seq![]
    } else {
        let prev = dedup_spec(items.drop_last(), seen);
        let k = item_key(items.last());
        if seen.contains(k) || keys_of(prev).contains(k) {
            prev
        } else {
            prev.push(items.last())
        }
    }
}

/// Whether no two items share a key.
pub open spec fn distinct_keys(items: Seq<ItemView>) -> bool {
    forall|i: int, j: int|
        0 <= i < j < items.len() ==> item_key(#[trigger] items[i]) != item_key(#[trigger] items[j])
}

/// The tag character of each kind.
pub open spec fn kind_tag(kind: ItemKind) -> char {
    match kind {
        ItemKind::Application => 'a',
        ItemKind::Command => 'c',
        ItemKind::File => 'f',
        ItemKind::Directory => 'd',
        ItemKind::WebSearch => 'w',
        ItemKind::AiPrompt => 'p',
        ItemKind::RecentSearch => 'r',
    }
}

/// The string that stands for an item key in a hash set.
pub open spec fn key_string(key: (ItemKind, Seq<char>)) -> Seq<char> {
    seq![kind_tag(key.0)] + key.1
}

proof fn lemma_key_string_injective(a: (ItemKind, Seq<char>), b: (ItemKind, Seq<char>))
    ensures
        key_string(a) == key_string(b) ==> a == b,
{
    if key_string(a) == key_string(b) {
        assert(key_string(a)[0] == kind_tag(a.0));
        assert(key_string(b)[0] == kind_tag(b.0));
        assert(a.1 =~= key_string(a).drop_first());
        assert(b.1 =~= key_string(b).drop_first());
    }
}

fn tag_char(kind: ItemKind) -> (c: char)
    ensures
        c == kind_tag(kind),
{
    match kind {
        ItemKind::Application => 'a',
        ItemKind::Command => 'c',
        ItemKind::File => 'f',
        ItemKind::Directory => 'd',
        ItemKind::WebSearch => 'w',
        ItemKind::AiPrompt => 'p',
        ItemKind::RecentSearch => 'r',
    }
}

fn item_key_string(item: &SearchItem) -> (r: String)
    ensures
        r@ == key_string(item_key(item@)),
{
    let mut r = String::new();
    r.push(tag_char(item.kind));
    push_str(&mut r, item.target.as_str());
    assert(r@ =~= key_string(item_key(item@)));
    r
}

proof fn lemma_push_contains<A>(s: Seq<A>, x: A, y: A)
    ensures
        s.push(x).contains(y) <==> (s.contains(y) || x == y),
{
    if s.contains(y) {
        let j = choose|j: int| 0 <= j < s.len() && s[j] == y;
        assert(s.push(x)[j] == y);
    }
    if x == y {
        assert(s.push(x)[s.len() as int] == y);
    }
    if s.push(x).contains(y) {
        let j = choose|j: int| 0 <= j < s.push(x).len() && s.push(x)[j] == y;
        if j < s.len() {
            assert(s[j] == y);
        }
    }
}

/// Whether `set` holds exactly the key strings of the keys in `keys`.
pub open spec fn set_holds(set: Set<Seq<char>>, keys: Set<(ItemKind, Seq<char>)>) -> bool {
    forall|k: (ItemKind, Seq<char>)| set.contains(#[trigger] key_string(k)) <==> keys.contains(k)
}

/// Appends to `out` the items of `items` whose key is not yet in `seen`,
/// adding their keys to `seen`.
fn push_new_items(
    out: &mut Vec<SearchItem>,
    seen: &mut StringHashSet,
    items: Vec<SearchItem>,
    Ghost(base): Ghost<Set<(ItemKind, Seq<char>)>>,
)
    requires
        set_holds(old(seen)@, base + keys_of(items_view(old(out)@)).to_set()),
    ensures
        items_view(final(out)@) == items_view(old(out)@) + dedup_spec(
            items_view(items@),
            base + keys_of(items_view(old(out)@)).to_set(),
        ),
{
    let ghost start = items_view(old(out)@);
    let ghost seen0 = base + keys_of(start).to_set();
    let ghost all = items_view(items@);
    let mut i: usize = 0;
    while i < items.len()
        invariant
            i <= items@.len(),
            all == items_view(items@),
            items_view(out@) == start + dedup_spec(all.take(i as int), seen0),
            set_holds(seen@, seen0 + keys_of(dedup_spec(all.take(i as int), seen0)).to_set()),
        decreases items@.len() - i,
    {
        let ghost prev = dedup_spec(all.take(i as int), seen0);
        assert(all.take(i + 1).drop_last() =~= all.take(i as int));
        assert(all.take(i + 1).last() == items@[i as int]@);
        let key = item_key_string(&items[i]);
        let ghost k = item_key(items@[i as int]@);
        let ghost old_seen = seen@;
        let ghost old_out = out@;
        let fresh = seen.insert(key);
        proof {
            assert(keys_of(prev).to_set().contains(k) == keys_of(prev).contains(k));
        }
        if fresh {
            out.push(items[i].duplicate());
            proof {
                let next = prev.push(all[i as int]);
                assert(keys_of(next) =~= keys_of(prev).push(k));
                assert forall|k2: (ItemKind, Seq<char>)| seen@.contains(#[trigger] key_string(k2))
                    <==> (seen0 + keys_of(next).to_set()).contains(k2) by {
                    lemma_key_string_injective(k, k2);
                    lemma_push_contains(keys_of(prev), k, k2);
                    assert(old_seen.contains(key_string(k2)) <==> (seen0 + keys_of(
                        prev,
                    ).to_set()).contains(k2));
                }
                assert(items_view(out@) =~= items_view(old_out).push(items@[i as int]@));
                assert(items_view(out@) =~= start + next);
            }
        } else {
            proof {
                assert forall|k2: (ItemKind, Seq<char>)| seen@.contains(#[trigger] key_string(k2))
                    <==> (seen0 + keys_of(prev).to_set()).contains(k2) by {
                    lemma_key_string_injective(k, k2);
                    assert(old_seen.contains(key_string(k2)) <==> (seen0 + keys_of(
                        prev,
                    ).to_set()).contains(k2));
                }
            }
        }
        i = i + 1;
    }
    assert(all.take(items@.len() as int) =~= all);
}

/// The searchable items and whether indexing has finished.
pub struct SearchIndex {
    items: Vec<SearchItem>,
    complete: bool,
}

impl View for SearchIndex {
    type V = (Seq<ItemView>, bool);

    closed spec fn view(&self) -> (Seq<ItemView>, bool) {
        (items_view(self.items@), self.complete)
    }
}

impl SearchIndex {
    /// An empty index whose indexing has not finished.
    pub fn new() -> (r: Self)
        ensures
            r@.0.len() == 0,
            !r@.1,
    {
        SearchIndex { items: Vec::new(), complete: false }
    }

    /// Whether indexing has finished.
    pub fn is_complete(&self) -> (r: bool)
        ensures
            r == self@.1,
    {
        self.complete
    }

    /// The indexed items.
    pub fn items(&self) -> (r: &[SearchItem])
        ensures
            items_view(r@) == self@.0,
    {
        self.items.as_slice()
    }

    /// Publishes the applications and commands found first, dropping
    /// repeated kind-and-target pairs; they replace the items held so far.
    pub fn publish_primary(&mut self, items: Vec<SearchItem>)
        ensures
            final(self)@.0 == dedup_spec(items_view(items@), Set::empty()),
            final(self)@.1 == old(self)@.1,
    {
        let mut out: Vec<SearchItem> = Vec::new();
        let mut seen = StringHashSet::new();
        proof {
            assert(keys_of(items_view(out@)).to_set() =~= Set::empty());
            assert(Set::<(ItemKind, Seq<char>)>::empty() + Set::empty() =~= Set::empty());
        }
        push_new_items(&mut out, &mut seen, items, Ghost(Set::empty()));
        assert(items_view(out@) =~= dedup_spec(items_view(items@), Set::empty()));
        self.items = out;
    }

    /// Adds the filesystem entries found by the second indexing stage,
    /// dropping those whose kind and target are already indexed (or
    /// repeated), and marks indexing finished.
    pub fn publish_files(&mut self, files: Vec<SearchItem>)
        ensures
            final(self)@.0 == old(self)@.0 + dedup_spec(
                items_view(files@),
                keys_of(old(self)@.0).to_set(),
            ),
            final(self)@.1,
    {
        let mut seen = StringHashSet::new();
        let mut i: usize = 0;
        while i < self.items.len()
            invariant
                i <= self.items@.len(),
                set_holds(seen@, keys_of(items_view(self.items@.take(i as int))).to_set()),
            decreases self.items@.len() - i,
        {
            let key = item_key_string(&self.items[i]);
            let ghost k = item_key(self.items@[i as int]@);
            let ghost old_seen = seen@;
            seen.insert(key);
            proof {
                let before = keys_of(items_view(self.items@.take(i as int)));
                assert(keys_of(items_view(self.items@.take(i + 1))) =~= before.push(k));
                assert forall|k2: (ItemKind, Seq<char>)| seen@.contains(#[trigger] key_string(k2))
                    <==> keys_of(items_view(self.items@.take(i + 1))).to_set().contains(k2) by {
                    lemma_key_string_injective(k, k2);
                    lemma_push_contains(before, k, k2);
                    assert(old_seen.contains(key_string(k2)) <==> before.to_set().contains(k2));
                }
            }
            i = i + 1;
        }
        assert(self.items@.take(self.items@.len() as int) =~= self.items@);
        let ghost base = keys_of(old(self)@.0).to_set();
        let mut out: Vec<SearchItem> = Vec::new();
        std::mem::swap(&mut out, &mut self.items);
        proof {
            assert(base + keys_of(items_view(out@)).to_set() =~= base);
        }
        push_new_items(&mut out, &mut seen, files, Ghost(base));
        self.items = out;
        self.complete = true;
    }
}

/// The items published by the first indexing stage have pairwise distinct
/// kinds and targets, and adding the filesystem entries keeps them so.
pub proof fn indexed_items_stay_distinct(
    primary: Seq<ItemView>,
    files: Seq<ItemView>,
)
    ensures
        distinct_keys(dedup_spec(primary, Set::empty())),
        ({
            let first = dedup_spec(primary, Set::empty());
            distinct_keys(first + dedup_spec(files, keys_of(first).to_set()))
        }),
{
    lemma_dedup_distinct(primary, Set::empty());
    let first = dedup_spec(primary, Set::empty());
    lemma_dedup_distinct(files, keys_of(first).to_set());
    let second = dedup_spec(files, keys_of(first).to_set());
    let all = first + second;
    assert forall|i: int, j: int| 0 <= i < j < all.len() implies item_key(#[trigger] all[i])
        != item_key(#[trigger] all[j]) by {
        if j >= first.len() && i < first.len() {
            assert(keys_of(first)[i] == item_key(all[i]));
            assert(keys_of(first).to_set().contains(item_key(all[i])));
        }
        if i >= first.len() {
            assert(all[i] == second[i - first.len()]);
            assert(all[j] == second[j - first.len()]);
        }
    }
}

proof fn lemma_dedup_distinct(items: Seq<ItemView>, seen: Set<(ItemKind, Seq<char>)>)
    ensures
        distinct_keys(dedup_spec(items, seen)),
        forall|i: int|
            0 <= i < dedup_spec(items, seen).len() ==> !seen.contains(
                item_key(#[trigger] dedup_spec(items, seen)[i]),
            ),
    decreases items.len(),
{
    if items.len() > 0 {
        lemma_dedup_distinct(items.drop_last(), seen);
        let prev = dedup_spec(items.drop_last(), seen);
        let k = item_key(items.last());
        if !(seen.contains(k) || keys_of(prev).contains(k)) {
            let next = prev.push(items.last());
            assert forall|i: int, j: int| 0 <= i < j < next.len() implies item_key(#[trigger] next[i])
                != item_key(#[trigger] next[j]) by {
                if j == next.len() - 1 {
                    assert(keys_of(prev)[i] == item_key(prev[i]));
                }
            }
        }
    }
}

/// An item matches a query exactly when every query term occurs in its
/// tokens as a contiguous substring, in whatever order.
pub proof fn match_needs_every_term(tokens: Seq<char>, query: Seq<char>, terms: Seq<Seq<char>>)
    ensures
        match_score_spec(tokens, query, terms) is Some <==> forall|k: int|
            0 <= k < terms.len() ==> find_spec(tokens, #[trigger] terms[k]) is Some,
    decreases terms.len(),
{
    if terms.len() > 0 {
        let p = terms.drop_last();
        match_needs_every_term(tokens, query, p);
        assert forall|k: int| 0 <= k < p.len() implies #[trigger] p[k] == terms[k] by {}
        if (forall|k: int| 0 <= k < terms.len() ==> find_spec(tokens, #[trigger] terms[k]) is Some) {
            assert forall|k: int| 0 <= k < p.len() implies find_spec(tokens, #[trigger] p[k]) is Some by {
                assert(p[k] == terms[k]);
            }
            assert(find_spec(tokens, terms[terms.len() - 1]) is Some);
        }
        if terms_score(tokens, terms) is Some {
            assert forall|k: int| 0 <= k < terms.len() implies find_spec(tokens, #[trigger] terms[k]) is Some by {
                if k < p.len() {
                    assert(p[k] == terms[k]);
                }
            }
        }
    }
}

proof fn lemma_take_contained(full: Seq<ResultView>, scored: Seq<ResultView>, n: nat, i: int)
    requires
        full.to_multiset() == scored.to_multiset(),
        0 <= i < take_len(full, n),
    ensures
        scored.contains(full[i]),
{
    vstd::seq_lib::to_multiset_contains(full, full[i]);
    vstd::seq_lib::to_multiset_contains(scored, full[i]);
    assert(full.contains(full[i]));
}

/// How many of the ranked matches `full` are kept under `n`.
pub open spec fn take_len(full: Seq<ResultView>, n: nat) -> int {
    if n <= full.len() {
        n as int
    } else {
        full.len() as int
    }
}

/// A search answers with at most `max_results` results, or with a single
/// AI prompt or web search.
pub proof fn search_results_are_bounded(
    items: Seq<ItemView>,
    complete: bool,
    query: Seq<char>,
    max_results: nat,
    r: Seq<ResultView>,
)
    requires
        search_outcome(items, complete, query, max_results, r),
    ensures
        r.len() <= max_results || r.len() == 1,
{
    let raw = trim_spec(query);
    if raw.len() > 0 && raw[0] != '/' {
        let q = lowercase(raw);
        let terms = words(q);
        if terms.len() <= MAX_QUERY_TERMS {
            let scored = items.filter_map(|iv: ItemView| scored_view(iv, q, terms));
            let full = choose|full: Seq<ResultView>|
                {
                    &&& full.to_multiset() == scored.to_multiset()
                    &&& ranked(full)
                    &&& #[trigger] best_or_web(full, max_results, complete, raw) == r
                };
        }
    }
}

/// While indexing is unfinished, every search result is a match of an
/// indexed item (no web search stands in for missing matches).
pub proof fn incomplete_index_answers_only_matches(
    items: Seq<ItemView>,
    query: Seq<char>,
    max_results: nat,
    r: Seq<ResultView>,
)
    requires
        search_outcome(items, false, query, max_results, r),
        trim_spec(query).len() > 0,
        trim_spec(query)[0] != '/',
    ensures
        ({
            let q = lowercase(trim_spec(query));
            let scored = items.filter_map(|iv: ItemView| scored_view(iv, q, words(q)));
            forall|i: int| 0 <= i < r.len() ==> scored.contains(#[trigger] r[i])
        }),
{
    let raw = trim_spec(query);
    let q = lowercase(raw);
    let terms = words(q);
    let scored = items.filter_map(|iv: ItemView| scored_view(iv, q, terms));
    if terms.len() <= MAX_QUERY_TERMS {
        let full = choose|full: Seq<ResultView>|
            {
                &&& full.to_multiset() == scored.to_multiset()
                &&& ranked(full)
                &&& #[trigger] best_or_web(full, max_results, false, raw) == r
            };
        assert forall|i: int| 0 <= i < r.len() implies scored.contains(#[trigger] r[i]) by {
            assert(r[i] == full[i]);
            lemma_take_contained(full, scored, max_results, i);
        }
    }
}

/// When some indexed item matches, every search result is a match: the web
/// search stands in only when nothing matches (whatever `max_results` is).
pub proof fn matched_query_answers_only_matches(
    items: Seq<ItemView>,
    complete: bool,
    query: Seq<char>,
    max_results: nat,
    r: Seq<ResultView>,
)
    requires
        search_outcome(items, complete, query, max_results, r),
        trim_spec(query).len() > 0,
        trim_spec(query)[0] != '/',
        ({
            let q = lowercase(trim_spec(query));
            items.filter_map(|iv: ItemView| scored_view(iv, q, words(q))).len() > 0
        }),
    ensures
        ({
            let q = lowercase(trim_spec(query));
            let scored = items.filter_map(|iv: ItemView| scored_view(iv, q, words(q)));
            forall|i: int| 0 <= i < r.len() ==> scored.contains(#[trigger] r[i])
        }),
{
    let raw = trim_spec(query);
    let q = lowercase(raw);
    let terms = words(q);
    let scored = items.filter_map(|iv: ItemView| scored_view(iv, q, terms));
    if terms.len() <= MAX_QUERY_TERMS {
        let full = choose|full: Seq<ResultView>|
            {
                &&& full.to_multiset() == scored.to_multiset()
                &&& ranked(full)
                &&& #[trigger] best_or_web(full, max_results, complete, raw) == r
            };
        vstd::seq_lib::to_multiset_len(full);
        vstd::seq_lib::to_multiset_len(scored);
        assert(full.len() > 0);
        assert forall|i: int| 0 <= i < r.len() implies scored.contains(#[trigger] r[i]) by {
            assert(r[i] == full[i]);
            lemma_take_contained(full, scored, max_results, i);
        }
    }
}

/// Once indexing is finished, a query that matches nothing is answered
/// with exactly one web search for it.
pub proof fn unmatched_query_searches_the_web(
    items: Seq<ItemView>,
    query: Seq<char>,
    max_results: nat,
    r: Seq<ResultView>,
)
    requires
        search_outcome(items, true, query, max_results, r),
        trim_spec(query).len() > 0,
        trim_spec(query)[0] != '/',
        words(lowercase(trim_spec(query))).len() <= MAX_QUERY_TERMS,
        ({
            let q = lowercase(trim_spec(query));
            items.filter_map(|iv: ItemView| scored_view(iv, q, words(q))).len() == 0
        }),
    ensures
        r == seq![ResultView { item: web_search_view(trim_spec(query)), score: 0 }],
{
    let raw = trim_spec(query);
    let q = lowercase(raw);
    let terms = words(q);
    let scored = items.filter_map(|iv: ItemView| scored_view(iv, q, terms));
    let full = choose|full: Seq<ResultView>|
        {
            &&& full.to_multiset() == scored.to_multiset()
            &&& ranked(full)
            &&& #[trigger] best_or_web(full, max_results, true, raw) == r
        };
    vstd::seq_lib::to_multiset_len(full);
    vstd::seq_lib::to_multiset_len(scored);
}
/// After a search is recorded, the empty query shows it first among the
/// recent searches (for a non-empty search and non-zero limits).
pub proof fn recorded_search_is_shown_first(
    history: Seq<Seq<char>>,
    query: Seq<char>,
    limit: nat,
    shown: nat,
)
    requires
        trim_spec(query).len() > 0,
        limit > 0,
        shown > 0,
    ensures
        ({
            let r = recent_results_spec(record_spec(history, query, limit), shown);
            &&& r.len() > 0
            &&& r[0].item == recent_search_view(trim_spec(query))
        }),
{
    recorded_query_comes_first_once(history, query, limit);
}

} // verus!
