//! Feed scraping and pattern matching.
//!
//! A reference feed line carries a CPE URI as a single-line JSON pair
//! `"cpe23Uri" : "<value>"`; the scrapers pick the value out of such a
//! line without parsing the surrounding JSON.  The matchers evaluate a
//! built pattern against the in-memory feed index, one entry at a time;
//! a pattern that does not compile degrades that package's result to
//! empty and never disturbs sibling packages.

use vstd::prelude::*;

use crate::package::Package;
use crate::query_builder::{spec_sub_pattern, sub_pattern};
use crate::re::{regex_compiles, regex_is_match, regex_match, regex_new, regex_source};
use crate::strutil::str_eq;

verus! {

/// The key marker that introduces a CPE URI inside a feed line.
pub const CPE_KEYWORD_IN_FEED_LINE: &'static str = "\"cpe23Uri\" : \"";

/// The marker's text, as a character sequence.
pub open spec fn spec_marker() -> Seq<char> {
    "\"cpe23Uri\" : \""@
}

/// `needle` occurs in `hay` at position `i`.
pub open spec fn is_match_at(hay: Seq<char>, needle: Seq<char>, i: int) -> bool {
    0 <= i && i + needle.len() <= hay.len() && hay.subrange(i, i + needle.len()) == needle
}

/// `needle` occurs somewhere in `hay`.
pub open spec fn contains_seq(hay: Seq<char>, needle: Seq<char>) -> bool {
    exists|i: int| is_match_at(hay, needle, i)
}

/// The rightmost occurrence of `needle` at a position below `n`.
pub open spec fn spec_rfind_below(hay: Seq<char>, needle: Seq<char>, n: int) -> Option<int>
    decreases n,
{
    if n <= 0 {
        None
    } else if is_match_at(hay, needle, n - 1) {
        Some(n - 1)
    } else {
        spec_rfind_below(hay, needle, n - 1)
    }
}

/// The rightmost occurrence of `needle` in `hay`.
pub open spec fn spec_rfind(hay: Seq<char>, needle: Seq<char>) -> Option<int> {
    spec_rfind_below(hay, needle, hay.len() - needle.len() + 1)
}

pub proof fn lemma_rfind_below_props(hay: Seq<char>, needle: Seq<char>, n: int)
    ensures
        spec_rfind_below(hay, needle, n) matches Some(i) ==> is_match_at(hay, needle, i) && i < n,
        spec_rfind_below(hay, needle, n) is None ==> forall|j: int|
            j < n ==> !is_match_at(hay, needle, j),
    decreases n,
{
    if n > 0 && !is_match_at(hay, needle, n - 1) {
        lemma_rfind_below_props(hay, needle, n - 1);
    }
}

/// Finding and containment agree: the rightmost occurrence exists
/// exactly when some occurrence does.
pub proof fn lemma_rfind_contains(hay: Seq<char>, needle: Seq<char>)
    ensures
        (spec_rfind(hay, needle) is Some) == contains_seq(hay, needle),
{
    lemma_rfind_below_props(hay, needle, hay.len() - needle.len() + 1);
    if spec_rfind(hay, needle) is Some {
        let i = spec_rfind(hay, needle)->Some_0;
        assert(is_match_at(hay, needle, i));
    }
    if contains_seq(hay, needle) {
        let i = choose|i: int| is_match_at(hay, needle, i);
        assert(i < hay.len() - needle.len() + 1);
        if spec_rfind(hay, needle) is None {
            assert(!is_match_at(hay, needle, i));
        }
    }
}

/// Does `needle` stand at position `i` of `hay`?
pub(crate) fn match_at(hay: &str, needle: &str, i: usize) -> (r: bool)
    requires
        i + needle@.len() <= hay@.len() <= usize::MAX,
    ensures
        r == is_match_at(hay@, needle@, i as int),
{
    let m = needle.unicode_len();
    let mut j: usize = 0;
    while j < m
        invariant
            j <= m,
            m == needle@.len(),
            i + m <= hay@.len() <= usize::MAX,
            forall|l: int| 0 <= l < j ==> hay@[i + l] == needle@[l],
        decreases m - j,
    {
        if hay.get_char(i + j) != needle.get_char(j) {
            proof {
                if hay@.subrange(i as int, i + m) == needle@ {
                    assert(hay@.subrange(i as int, i + m)[j as int] == hay@[i + j]);
                }
            }
            return false;
        }
        j = j + 1;
    }
    proof {
        assert(hay@.subrange(i as int, i + m) =~= needle@);
    }
    true
}

/// The position of the rightmost occurrence of `needle` in `hay`.
pub(crate) fn rfind(hay: &str, needle: &str) -> (r: Option<usize>)
    requires
        needle@.len() >= 1,
    ensures
        r matches Some(i) ==> spec_rfind(hay@, needle@) == Some(i as int),
        r is None ==> spec_rfind(hay@, needle@) is None,
{
    let n = hay.unicode_len();
    let m = needle.unicode_len();
    if m > n {
        return None;
    }
    let mut k = n - m + 1;
    loop
        invariant_except_break
            k <= n - m + 1,
            m <= n,
            n == hay@.len(),
            m == needle@.len(),
            spec_rfind(hay@, needle@) == spec_rfind_below(hay@, needle@, k as int),
        ensures
            spec_rfind(hay@, needle@) is None,
        decreases k,
    {
        if k == 0 {
            break;
        }
        if match_at(hay, needle, k - 1) {
            proof {
                assert(spec_rfind_below(hay@, needle@, k as int) == Some(k - 1 as int));
            }
            return Some(k - 1);
        }
        k = k - 1;
    }
    None
}

/// True for a feed line that carries a CPE URI value: the line contains
/// the exact key marker.
pub fn contains_cpe_json_key(line: &str) -> (r: bool)
    ensures
        r == contains_seq(line@, spec_marker()),
{
    proof {
        reveal_strlit("\"cpe23Uri\" : \"");
        lemma_rfind_contains(line@, spec_marker());
    }
    let r = rfind(line, "\"cpe23Uri\" : \"");
    r.is_some()
}

/// ASCII whitespace, as the feed's pretty-printer emits it.
pub open spec fn spec_is_space(c: char) -> bool {
    c == ' ' || c == '\t' || c == '\n' || c == '\r'
}

/// The whitespace predicate as a function value.
pub open spec fn space_pred() -> spec_fn(char) -> bool {
    |c: char| spec_is_space(c)
}

/// The predicate holding exactly on `c`.
pub open spec fn eq_pred(c: char) -> spec_fn(char) -> bool {
    |x: char| x == c
}

/// `s` without its longest prefix of characters satisfying `p`.
pub open spec fn spec_trim_start(s: Seq<char>, p: spec_fn(char) -> bool) -> Seq<char>
    decreases s.len(),
{
    if s.len() > 0 && p(s[0]) {
        spec_trim_start(s.drop_first(), p)
    } else {
        s
    }
}

/// `s` without its longest suffix of characters satisfying `p`.
pub open spec fn spec_trim_end(s: Seq<char>, p: spec_fn(char) -> bool) -> Seq<char>
    decreases s.len(),
{
    if s.len() > 0 && p(s.last()) {
        spec_trim_end(s.drop_last(), p)
    } else {
        s
    }
}

/// `s` trimmed at both ends.
pub open spec fn spec_trim(s: Seq<char>, p: spec_fn(char) -> bool) -> Seq<char> {
    spec_trim_end(spec_trim_start(s, p), p)
}

pub proof fn lemma_trim_start_skip(s: Seq<char>, p: spec_fn(char) -> bool, a: int)
    requires
        0 <= a <= s.len(),
        forall|j: int| 0 <= j < a ==> p(s[j]),
        a == s.len() || !p(s[a]),
    ensures
        spec_trim_start(s, p) == s.skip(a),
    decreases a,
{
    if a == 0 {
        assert(s.skip(0) =~= s);
    } else {
        assert(p(s[0]));
        lemma_trim_start_skip(s.drop_first(), p, a - 1);
        assert(s.drop_first() =~= s.skip(1));
        assert(s.skip(1).skip(a - 1) =~= s.skip(a));
    }
}

pub proof fn lemma_trim_end_take(s: Seq<char>, p: spec_fn(char) -> bool, b: int)
    requires
        0 <= b <= s.len(),
        forall|j: int| b <= j < s.len() ==> p(s[j]),
        b == 0 || !p(s[b - 1]),
    ensures
        spec_trim_end(s, p) == s.take(b),
    decreases s.len() - b,
{
    if b == s.len() {
        assert(s.take(b) =~= s);
        if s.len() > 0 {
            assert(!p(s.last()));
        }
    } else {
        assert(p(s.last()));
        lemma_trim_end_take(s.drop_last(), p, b);
        assert(s.drop_last() =~= s.take(s.len() - 1));
        assert(s.take(s.len() - 1).take(b) =~= s.take(b));
    }
}

fn space(c: char) -> (r: bool)
    ensures
        r == spec_is_space(c),
{
    match c {
        ' ' | '\t' | '\n' | '\r' => true,
        _ => false,
    }
}

/// Trims ASCII whitespace from both ends.
fn trim_ws(s: &str) -> (r: String)
    ensures
        r@ == spec_trim(s@, space_pred()),
{
    let n = s.unicode_len();
    let mut lo: usize = 0;
    loop
        invariant_except_break
            lo <= n,
            n == s@.len(),
            forall|j: int| 0 <= j < lo ==> space_pred()(s@[j]),
        ensures
            lo <= n,
            n == s@.len(),
            forall|j: int| 0 <= j < lo ==> space_pred()(s@[j]),
            lo == n || !space_pred()(s@[lo as int]),
        decreases n - lo,
    {
        if lo == n {
            break;
        }
        if !space(s.get_char(lo)) {
            break;
        }
        lo = lo + 1;
    }
    let mut hi = n;
    loop
        invariant_except_break
            lo <= hi <= n,
            n == s@.len(),
            forall|j: int| hi <= j < n ==> space_pred()(s@[j]),
            lo == n || !space_pred()(s@[lo as int]),
        ensures
            lo <= hi <= n,
            n == s@.len(),
            forall|j: int| hi <= j < n ==> space_pred()(s@[j]),
            hi == lo || !space_pred()(s@[hi - 1]),
        decreases hi,
    {
        if hi == lo {
            break;
        }
        if !space(s.get_char(hi - 1)) {
            break;
        }
        hi = hi - 1;
    }
    proof {
        lemma_trim_start_skip(s@, space_pred(), lo as int);
        lemma_trim_end_take(s@.skip(lo as int), space_pred(), hi - lo);
        assert(s@.skip(lo as int).take(hi - lo) =~= s@.subrange(lo as int, hi as int));
    }
    s.substring_char(lo, hi).to_owned()
}

/// Trims every leading and trailing occurrence of `c`.
pub(crate) fn trim_char(s: &str, c: char) -> (r: String)
    ensures
        r@ == spec_trim(s@, eq_pred(c)),
{
    let n = s.unicode_len();
    let mut lo: usize = 0;
    loop
        invariant_except_break
            lo <= n,
            n == s@.len(),
            forall|j: int| 0 <= j < lo ==> eq_pred(c)(s@[j]),
        ensures
            lo <= n,
            n == s@.len(),
            forall|j: int| 0 <= j < lo ==> eq_pred(c)(s@[j]),
            lo == n || !eq_pred(c)(s@[lo as int]),
        decreases n - lo,
    {
        if lo == n {
            break;
        }
        if s.get_char(lo) != c {
            break;
        }
        lo = lo + 1;
    }
    let mut hi = n;
    loop
        invariant_except_break
            lo <= hi <= n,
            n == s@.len(),
            forall|j: int| hi <= j < n ==> eq_pred(c)(s@[j]),
            lo == n || !eq_pred(c)(s@[lo as int]),
        ensures
            lo <= hi <= n,
            n == s@.len(),
            forall|j: int| hi <= j < n ==> eq_pred(c)(s@[j]),
            hi == lo || !eq_pred(c)(s@[hi - 1]),
        decreases hi,
    {
        if hi == lo {
            break;
        }
        if s.get_char(hi - 1) != c {
            break;
        }
        hi = hi - 1;
    }
    proof {
        lemma_trim_start_skip(s@, eq_pred(c), lo as int);
        lemma_trim_end_take(s@.skip(lo as int), eq_pred(c), hi - lo);
        assert(s@.skip(lo as int).take(hi - lo) =~= s@.subrange(lo as int, hi as int));
    }
    s.substring_char(lo, hi).to_owned()
}

/// Everything after the last key marker of the line (the whole line
/// when the marker is absent).
pub open spec fn spec_after_marker(line: Seq<char>) -> Seq<char> {
    match spec_rfind(line, spec_marker()) {
        Some(i) => line.skip(i + spec_marker().len()),
        None => line,
    }
}

/// The CPE URI a feed line carries: the text after the last key marker,
/// with surrounding whitespace, then commas, then quotes trimmed away.
pub open spec fn spec_scrap(line: Seq<char>) -> Seq<char> {
    spec_trim(
        spec_trim(spec_trim(spec_after_marker(line), space_pred()), eq_pred(',')),
        eq_pred('"'),
    )
}

/// Picks the CPE URI value out of a feed line.
pub fn scrap_cpe(line: &str) -> (r: String)
    ensures
        r@ == spec_scrap(line@),
{
    proof {
        reveal_strlit("\"cpe23Uri\" : \"");
    }
    let marker = "\"cpe23Uri\" : \"";
    let rest: String = match rfind(line, marker) {
        Some(i) => {
            proof {
                lemma_rfind_below_props(
                    line@,
                    spec_marker(),
                    line@.len() - spec_marker().len() + 1,
                );
            }
            let n = line.unicode_len();
            let mlen = marker.unicode_len();
            line.substring_char(i + mlen, n).to_owned()
        },
        None => line.to_owned(),
    };
    let t1 = trim_ws(rest.as_str());
    let t2 = trim_char(t1.as_str(), ',');
    trim_char(t2.as_str(), '"')
}

/// `values` with every repeated element dropped, first occurrences kept
/// in order.
pub open spec fn spec_uniq(values: Seq<Seq<char>>) -> Seq<Seq<char>>
    decreases values.len(),
{
    if values.len() == 0 {
        Seq::empty()
    } else {
        let rest = spec_uniq(values.drop_last());
        if rest.contains(values.last()) {
            rest
        } else {
            rest.push(values.last())
        }
    }
}

/// Deduplication keeps membership and never keeps an element twice.
pub proof fn lemma_uniq_props(values: Seq<Seq<char>>)
    ensures
        spec_uniq(values).no_duplicates(),
        forall|v: Seq<char>| spec_uniq(values).contains(v) == values.contains(v),
    decreases values.len(),
{
    if values.len() == 0 {
        assert forall|v: Seq<char>| !values.contains(v) by {
            if values.contains(v) {
                let i = choose|i: int| 0 <= i < values.len() && values[i] == v;
            }
        }
    } else {
        let rest = spec_uniq(values.drop_last());
        lemma_uniq_props(values.drop_last());
        assert forall|v: Seq<char>| spec_uniq(values).contains(v) == values.contains(v) by {
            if values.contains(v) {
                let i = choose|i: int| 0 <= i < values.len() && values[i] == v;
                if i < values.len() - 1 {
                    assert(values.drop_last().contains(v)) by {
                        assert(values.drop_last()[i] == v);
                    }
                } else {
                    assert(values.last() == v);
                }
                if !rest.contains(v) && values.last() == v {
                    assert(rest.push(v).contains(v)) by {
                        assert(rest.push(v)[rest.len() as int] == v);
                    }
                }
                if rest.contains(v) {
                    assert(spec_uniq(values).contains(v)) by {
                        let k = choose|k: int| 0 <= k < rest.len() && rest[k] == v;
                        assert(spec_uniq(values)[k] == v);
                    }
                }
            }
            if spec_uniq(values).contains(v) {
                let k = choose|k: int| 0 <= k < spec_uniq(values).len() && spec_uniq(values)[k]
                    == v;
                if rest.contains(values.last()) || k < rest.len() {
                    assert(rest[k] == v);
                    assert(values.drop_last().contains(v));
                    let i = choose|i: int|
                        0 <= i < values.drop_last().len() && values.drop_last()[i] == v;
                    assert(values[i] == v);
                } else {
                    assert(v == values.last());
                    assert(values[values.len() - 1] == v);
                }
            }
        }
        if !rest.contains(values.last()) {
            assert forall|i: int, j: int|
                0 <= i < j < rest.push(values.last()).len() implies rest.push(values.last())[i]
                != rest.push(values.last())[j] by {
                if j < rest.len() {
                    assert(rest[i] != rest[j]);
                } else {
                    assert(rest.push(values.last())[j] == values.last());
                    if rest[i] == values.last() {
                        assert(rest.contains(values.last()));
                    }
                }
            }
        }
    }
}

/// Does the vector hold a string with this text?
pub(crate) fn vec_contains_str(v: &Vec<String>, s: &str) -> (r: bool)
    ensures
        r == v.deep_view().contains(s@),
{
    let n = v.len();
    let mut i: usize = 0;
    while i < n
        invariant
            i <= n,
            n == v@.len(),
            forall|j: int| 0 <= j < i ==> v.deep_view()[j] != s@,
        decreases n - i,
    {
        if str_eq(v[i].as_str(), s) {
            assert(v.deep_view()[i as int] == s@);
            return true;
        }
        i = i + 1;
    }
    false
}

/// The scraped value of every line, in order.
pub open spec fn spec_scraps(lines: Seq<Seq<char>>) -> Seq<Seq<char>> {
    lines.map_values(|l: Seq<char>| spec_scrap(l))
}

/// The distinct scraped values of `matches`, first occurrences in
/// order.
pub fn get_uniq_values(matches: &Vec<String>) -> (r: Vec<String>)
    ensures
        r.deep_view() == spec_uniq(spec_scraps(matches.deep_view())),
{
    let n = matches.len();
    let mut out: Vec<String> = Vec::new();
    let mut i: usize = 0;
    while i < n
        invariant
            i <= n,
            n == matches@.len(),
            out.deep_view() == spec_uniq(spec_scraps(matches.deep_view().take(i as int))),
        decreases n - i,
    {
        let s = scrap_cpe(matches[i].as_str());
        proof {
            assert(spec_scraps(matches.deep_view().take(i + 1)).drop_last() =~= spec_scraps(
                matches.deep_view().take(i as int),
            ));
            assert(spec_scraps(matches.deep_view().take(i + 1)).last() == spec_scrap(
                matches.deep_view()[i as int],
            ));
            assert(matches.deep_view()[i as int] == matches@[i as int]@);
        }
        if !vec_contains_str(&out, s.as_str()) {
            out.push(s);
        }
        proof {
            assert(out.deep_view() =~= spec_uniq(spec_scraps(matches.deep_view().take(i + 1))));
        }
        i = i + 1;
    }
    proof {
        assert(matches.deep_view().take(n as int) =~= matches.deep_view());
    }
    out
}

/// The feed index built from raw feed lines: the distinct CPE URI
/// values of the lines that carry the key marker.
pub open spec fn spec_load_feed(lines: Seq<Seq<char>>) -> Seq<Seq<char>>
    decreases lines.len(),
{
    if lines.len() == 0 {
        Seq::empty()
    } else {
        let rest = spec_load_feed(lines.drop_last());
        if contains_seq(lines.last(), spec_marker()) {
            if rest.contains(spec_scrap(lines.last())) {
                rest
            } else {
                rest.push(spec_scrap(lines.last()))
            }
        } else {
            rest
        }
    }
}

/// The feed index holds each entry once: an entry is in the index
/// exactly when some marker-bearing line scrapes to it, however many
/// such lines repeat it.
pub proof fn lemma_load_feed_dedup(lines: Seq<Seq<char>>)
    ensures
        spec_load_feed(lines).no_duplicates(),
        forall|v: Seq<char>|
            spec_load_feed(lines).contains(v) == exists|i: int|
                0 <= i < lines.len() && contains_seq(#[trigger] lines[i], spec_marker())
                    && spec_scrap(lines[i]) == v,
    decreases lines.len(),
{
    if lines.len() == 0 {
    } else {
        let rest = spec_load_feed(lines.drop_last());
        lemma_load_feed_dedup(lines.drop_last());
        assert forall|v: Seq<char>|
            spec_load_feed(lines).contains(v) == exists|i: int|
                0 <= i < lines.len() && contains_seq(#[trigger] lines[i], spec_marker())
                    && spec_scrap(lines[i]) == v by {
            let scrapped = exists|i: int|
                0 <= i < lines.len() && contains_seq(#[trigger] lines[i], spec_marker())
                    && spec_scrap(lines[i]) == v;
            if spec_load_feed(lines).contains(v) {
                let k = choose|k: int|
                    0 <= k < spec_load_feed(lines).len() && spec_load_feed(lines)[k] == v;
                if k < rest.len() {
                    assert(rest[k] == v);
                    assert(rest.contains(v));
                    let i = choose|i: int|
                        0 <= i < lines.drop_last().len() && contains_seq(
                            #[trigger] lines.drop_last()[i],
                            spec_marker(),
                        ) && spec_scrap(lines.drop_last()[i]) == v;
                    assert(lines[i] == lines.drop_last()[i]);
                    assert(scrapped);
                } else {
                    assert(spec_load_feed(lines)[k] == spec_scrap(lines.last()));
                    assert(contains_seq(lines[lines.len() - 1], spec_marker()));
                    assert(scrapped);
                }
            }
            if scrapped {
                let i = choose|i: int|
                    0 <= i < lines.len() && contains_seq(#[trigger] lines[i], spec_marker())
                        && spec_scrap(lines[i]) == v;
                if i < lines.len() - 1 {
                    assert(lines.drop_last()[i] == lines[i]);
                    assert(rest.contains(v));
                    let k = choose|k: int| 0 <= k < rest.len() && rest[k] == v;
                    assert(spec_load_feed(lines)[k] == v);
                    assert(spec_load_feed(lines).contains(v));
                } else {
                    if rest.contains(v) {
                        let k = choose|k: int| 0 <= k < rest.len() && rest[k] == v;
                        assert(spec_load_feed(lines)[k] == v);
                        assert(spec_load_feed(lines).contains(v));
                    } else {
                        assert(spec_load_feed(lines) == rest.push(v));
                        assert(rest.push(v)[rest.len() as int] == v);
                        assert(spec_load_feed(lines).contains(v));
                    }
                }
            }
        }
        if contains_seq(lines.last(), spec_marker()) && !rest.contains(spec_scrap(lines.last())) {
            let v = spec_scrap(lines.last());
            assert forall|i: int, j: int|
                0 <= i < j < rest.push(v).len() implies rest.push(v)[i] != rest.push(v)[j] by {
                if j < rest.len() {
                    assert(rest[i] != rest[j]);
                } else {
                    if rest[i] == v {
                        assert(rest.contains(v));
                    }
                }
            }
        }
    }
}

/// Builds the feed index: reads every line, keeps the CPE URI value of
/// each marker-bearing line, drops duplicates.
pub fn load_feed(lines: &Vec<String>) -> (r: Vec<String>)
    ensures
        r.deep_view() == spec_load_feed(lines.deep_view()),
{
    let n = lines.len();
    let mut out: Vec<String> = Vec::new();
    let mut i: usize = 0;
    while i < n
        invariant
            i <= n,
            n == lines@.len(),
            out.deep_view() == spec_load_feed(lines.deep_view().take(i as int)),
        decreases n - i,
    {
        proof {
            assert(lines.deep_view().take(i + 1).drop_last() =~= lines.deep_view().take(i as int));
            assert(lines.deep_view().take(i + 1).last() == lines@[i as int]@);
        }
        if contains_cpe_json_key(lines[i].as_str()) {
            let s = scrap_cpe(lines[i].as_str());
            if !vec_contains_str(&out, s.as_str()) {
                out.push(s);
            }
        }
        proof {
            assert(out.deep_view() =~= spec_load_feed(lines.deep_view().take(i + 1)));
        }
        i = i + 1;
    }
    proof {
        assert(lines.deep_view().take(n as int) =~= lines.deep_view());
    }
    out
}

/// The feed entries `pattern` matches, in feed order.
pub open spec fn spec_match_list(feed: Seq<Seq<char>>, pattern: Seq<char>) -> Seq<Seq<char>> {
    feed.filter(|e: Seq<char>| regex_match(pattern, e))
}

/// Matches every feed entry against one compiled pattern.
fn match_entries(re: &regex::Regex, feed: &Vec<String>) -> (r: Vec<String>)
    ensures
        r.deep_view() == spec_match_list(feed.deep_view(), regex_source(*re)),
{
    let n = feed.len();
    let mut out: Vec<String> = Vec::new();
    let mut i: usize = 0;
    proof {
        reveal(Seq::filter);
        assert(out.deep_view() =~= spec_match_list(
            feed.deep_view().take(0),
            regex_source(*re),
        ));
    }
    while i < n
        invariant
            i <= n,
            n == feed@.len(),
            out.deep_view() == spec_match_list(feed.deep_view().take(i as int), regex_source(*re)),
        decreases n - i,
    {
        proof {
            reveal(Seq::filter);
            assert(feed.deep_view().take(i + 1).drop_last() =~= feed.deep_view().take(i as int));
            assert(feed.deep_view().take(i + 1).last() == feed@[i as int]@);
        }
        if regex_is_match(re, feed[i].as_str()) {
            out.push(feed[i].clone());
        }
        proof {
            reveal(Seq::filter);
            assert(out.deep_view() =~= spec_match_list(
                feed.deep_view().take(i + 1),
                regex_source(*re),
            ));
        }
        i = i + 1;
    }
    proof {
        assert(feed.deep_view().take(n as int) =~= feed.deep_view());
    }
    out
}

/// The matches one package's pattern finds in the feed: the full list
/// of matching entries when the pattern compiles, the empty list when
/// it does not — that failure stays with this package alone.
pub fn match_cpes(feed: &Vec<String>, pkg: &Package, re_pattern: &str) -> (r: (
    Package,
    Vec<String>,
))
    ensures
        r.0.name@ == pkg.name@ && r.0.version@ == pkg.version@,
        regex_compiles(re_pattern@) ==> r.1.deep_view() == spec_match_list(
            feed.deep_view(),
            re_pattern@,
        ),
        !regex_compiles(re_pattern@) ==> r.1.deep_view() == Seq::<Seq<char>>::empty(),
{
    let key = Package { name: pkg.name.clone(), version: pkg.version.clone() };
    match regex_new(re_pattern) {
        Ok(re) => {
            let v = match_entries(&re, feed);
            (key, v)
        },
        Err(_) => {
            let v: Vec<String> = Vec::new();
            proof {
                assert(v.deep_view() =~= Seq::<Seq<char>>::empty());
            }
            (key, v)
        },
    }
}

#[derive(Clone, Copy, Debug, PartialEq, Eq, Structural)]
pub enum SearchError {
    /// The regex engine rejected the search pattern.
    BadPattern,
}

/// What a single-pass search over raw feed lines yields: the distinct
/// CPE URI values of the lines the pattern matches.
pub open spec fn spec_grep(lines: Seq<Seq<char>>, pattern: Seq<char>) -> Seq<Seq<char>> {
    spec_uniq(spec_scraps(spec_match_list(lines, pattern)))
}

/// Single-pass search: finds the feed lines the combined pattern
/// matches and scrapes their distinct CPE URI values.  Fails exactly
/// when the regex engine rejects the pattern.
pub fn grep(lines: &Vec<String>, pattern: &str) -> (r: Result<Vec<String>, SearchError>)
    ensures
        (r is Ok) == regex_compiles(pattern@),
        r matches Ok(v) ==> v.deep_view() == spec_grep(lines.deep_view(), pattern@),
{
    match regex_new(pattern) {
        Ok(re) => {
            let matched = match_entries(&re, lines);
            Ok(get_uniq_values(&matched))
        },
        Err(_) => Err(SearchError::BadPattern),
    }
}

/// What one package's match set must be: the feed entries its own
/// sub-pattern matches; nothing when the package contributes no
/// pattern (the live-source marker) or the engine rejects it.
pub open spec fn spec_pkg_matches(feed: Seq<Seq<char>>, pkg: Package) -> Seq<Seq<char>> {
    match spec_sub_pattern(pkg) {
        None => Seq::empty(),
        Some(pat) => if regex_compiles(pat) {
            spec_match_list(feed, pat)
        } else {
            Seq::empty()
        },
    }
}

/// Matches a whole batch against the feed, one pattern per package.  A
/// package whose pattern cannot be built or compiled gets an empty
/// result; its siblings are matched regardless.
pub fn match_batch(feed: &Vec<String>, pkgs: &Vec<Package>) -> (r: Vec<(Package, Vec<String>)>)
    ensures
        r@.len() == pkgs@.len(),
        forall|i: int|
            0 <= i < r@.len() ==> (#[trigger] r@[i]).0.name@ == pkgs@[i].name@ && r@[i].0.version@
                == pkgs@[i].version@ && r@[i].1.deep_view() == spec_pkg_matches(
                feed.deep_view(),
                pkgs@[i],
            ),
{
    let n = pkgs.len();
    let mut out: Vec<(Package, Vec<String>)> = Vec::new();
    let mut i: usize = 0;
    while i < n
        invariant
            i <= n,
            n == pkgs@.len(),
            out@.len() == i,
            forall|k: int|
                0 <= k < i ==> (#[trigger] out@[k]).0.name@ == pkgs@[k].name@ && out@[k].0.version@
                    == pkgs@[k].version@ && out@[k].1.deep_view() == spec_pkg_matches(
                    feed.deep_view(),
                    pkgs@[k],
                ),
        decreases n - i,
    {
        let pkg = &pkgs[i];
        match sub_pattern(pkg) {
            Some(pat) => {
                let pr = match_cpes(feed, pkg, pat.as_str());
                out.push(pr);
            },
            None => {
                let v: Vec<String> = Vec::new();
                proof {
                    assert(v.deep_view() =~= Seq::<Seq<char>>::empty());
                }
                out.push((Package { name: pkg.name.clone(), version: pkg.version.clone() }, v));
            },
        }
        i = i + 1;
    }
    out
}

/// Determinism: a package's match set is a function of the feed
/// contents and the package's name and version alone, so matching with
/// one worker or many, in any completion order, yields the same
/// package-to-entries mapping.
pub proof fn lemma_match_determinism(
    feed1: Seq<Seq<char>>,
    feed2: Seq<Seq<char>>,
    pkg1: Package,
    pkg2: Package,
)
    requires
        feed1 == feed2,
        pkg1.name@ == pkg2.name@,
        pkg1.version@ == pkg2.version@,
    ensures
        spec_pkg_matches(feed1, pkg1) == spec_pkg_matches(feed2, pkg2),
{
    assert(spec_sub_pattern(pkg1) == spec_sub_pattern(pkg2));
}

/// Failure isolation: replacing one package of a batch — by one whose
/// pattern does not even compile — changes no sibling's match set.
pub proof fn lemma_failure_isolation(
    feed: Seq<Seq<char>>,
    pkgs1: Seq<Package>,
    pkgs2: Seq<Package>,
    j: int,
)
    requires
        pkgs1.len() == pkgs2.len(),
        forall|i: int| 0 <= i < pkgs1.len() && i != j ==> #[trigger] pkgs1[i] == pkgs2[i],
    ensures
        forall|i: int|
            0 <= i < pkgs1.len() && i != j ==> spec_pkg_matches(feed, #[trigger] pkgs1[i])
                == spec_pkg_matches(feed, pkgs2[i]),
{
}

} // verus!
