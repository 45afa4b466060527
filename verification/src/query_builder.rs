//! The pattern builder: turns packages into one regular expression over
//! CPE URI strings.  Each package contributes a field-positional
//! sub-pattern anchored on `:<name>:<version>:`; sub-patterns are joined
//! by alternation so a whole batch can be matched in one pass.
//!
//! Version strings are normalized first: a package-manager revision
//! suffix (`-rN`) is dropped, and a patch marker (`_p1`, `_beta2`, ...)
//! moves into a wildcard-tolerant group at the CPE update field, since
//! the official CPE record may or may not encode that sub-version.
//! Regex metacharacters occurring in names or versions are escaped, and
//! a fixed table rewrites package names whose upstream CPE entry uses a
//! different vendor:product pair (`google-chrome` -> `google:chrome`).

use vstd::prelude::*;

use crate::package::{is_digit, Package};
use crate::strutil::{push_char, str_eq};

verus! {

/// Characters that a regular expression treats specially and that must
/// therefore be escaped to stand for themselves.
pub open spec fn is_meta(c: char) -> bool {
    ||| c == '\\'
    ||| c == '.'
    ||| c == '+'
    ||| c == '*'
    ||| c == '?'
    ||| c == '('
    ||| c == ')'
    ||| c == '['
    ||| c == ']'
    ||| c == '{'
    ||| c == '}'
    ||| c == '|'
    ||| c == '^'
    ||| c == '$'
}

/// `s` with every metacharacter preceded by a backslash.
pub open spec fn spec_escape(s: Seq<char>) -> Seq<char>
    decreases s.len(),
{
    if s.len() == 0 {
        Seq::empty()
    } else {
        (if is_meta(s[0]) {
            seq!['\\', s[0]]
        } else {
            seq![s[0]]
        }) + spec_escape(s.drop_first())
    }
}

pub proof fn lemma_escape_concat(a: Seq<char>, b: Seq<char>)
    ensures
        spec_escape(a + b) == spec_escape(a) + spec_escape(b),
    decreases a.len(),
{
    if a.len() == 0 {
        assert(a + b =~= b);
        assert(spec_escape(a) + spec_escape(b) =~= spec_escape(b));
    } else {
        assert((a + b).drop_first() =~= a.drop_first() + b);
        assert((a + b)[0] == a[0]);
        lemma_escape_concat(a.drop_first(), b);
        assert(spec_escape(a + b) =~= spec_escape(a) + spec_escape(b));
    }
}

fn meta(c: char) -> (r: bool)
    ensures
        r == is_meta(c),
{
    match c {
        '\\' | '.' | '+' | '*' | '?' | '(' | ')' | '[' | ']' | '{' | '}' | '|' | '^' | '$' => true,
        _ => false,
    }
}

/// Escapes regex metacharacters so the result matches `s` literally.
pub fn escape(s: &str) -> (r: String)
    ensures
        r@ == spec_escape(s@),
{
    let n = s.unicode_len();
    let mut out = String::new();
    let mut i: usize = 0;
    while i < n
        invariant
            i <= n,
            n == s@.len(),
            out@ == spec_escape(s@.take(i as int)),
        decreases n - i,
    {
        let c = s.get_char(i);
        proof {
            assert(s@.take(i + 1) =~= s@.take(i as int) + seq![c]);
            lemma_escape_concat(s@.take(i as int), seq![c]);
            assert(seq![c].drop_first() =~= Seq::<char>::empty());
        }
        if meta(c) {
            push_char(&mut out, '\\');
        }
        push_char(&mut out, c);
        proof {
            assert(spec_escape(Seq::<char>::empty()) == Seq::<char>::empty());
            assert(spec_escape(seq![c]) =~= (if is_meta(c) {
                seq!['\\', c]
            } else {
                seq![c]
            }));
            assert(out@ =~= spec_escape(s@.take(i as int)) + spec_escape(seq![c]));
            assert(out@ =~= spec_escape(s@.take(i + 1)));
        }
        i = i + 1;
    }
    proof {
        assert(s@.take(n as int) =~= s@);
    }
    out
}

/// `k` starts a revision suffix of `v`: a hyphen, the letter `r`, and
/// one or more trailing digits that run to the end of the string.
pub open spec fn is_rev_split(v: Seq<char>, k: int) -> bool {
    &&& 0 <= k
    &&& k + 2 < v.len()
    &&& v[k] == '-'
    &&& v[k + 1] == 'r'
    &&& forall|j: int| k + 2 <= j < v.len() ==> is_digit(v[j])
}

pub open spec fn has_rev_split(v: Seq<char>) -> bool {
    exists|k: int| is_rev_split(v, k)
}

/// The version with its `-rN` revision suffix dropped, if it has one.
pub open spec fn spec_strip_revision(v: Seq<char>) -> Seq<char> {
    if has_rev_split(v) {
        v.take(choose|k: int| is_rev_split(v, k))
    } else {
        v
    }
}

pub proof fn lemma_rev_split_unique(v: Seq<char>, k1: int, k2: int)
    requires
        is_rev_split(v, k1),
        is_rev_split(v, k2),
    ensures
        k1 == k2,
{
    if k1 < k2 {
        if k2 == k1 + 1 {
            assert(v[k2] == 'r');
        } else {
            assert(is_digit(v[k2]));
            assert(('-' as u32) == 45);
        }
    }
    if k2 < k1 {
        if k1 == k2 + 1 {
            assert(v[k1] == 'r');
        } else {
            assert(is_digit(v[k1]));
            assert(('-' as u32) == 45);
        }
    }
}

fn digit(c: char) -> (r: bool)
    ensures
        r == is_digit(c),
{
    let u = c as u32;
    48 <= u && u <= 57
}

/// Drops a trailing `-rN` revision suffix from a version string.
pub fn strip_revision(v: &str) -> (r: String)
    ensures
        r@ == spec_strip_revision(v@),
{
    let n = v.unicode_len();
    let mut j = n;
    loop
        invariant_except_break
            j <= n,
            n == v@.len(),
            forall|l: int| j <= l < n ==> is_digit(v@[l]),
        ensures
            j <= n,
            n == v@.len(),
            forall|l: int| j <= l < n ==> is_digit(v@[l]),
            j == 0 || !is_digit(v@[j - 1]),
        decreases j,
    {
        if j == 0 {
            break;
        }
        if !digit(v.get_char(j - 1)) {
            break;
        }
        j = j - 1;
    }
    if j < n && j >= 2 && v.get_char(j - 1) == 'r' && v.get_char(j - 2) == '-' {
        proof {
            assert(is_rev_split(v@, j - 2));
            let k = choose|k: int| is_rev_split(v@, k);
            lemma_rev_split_unique(v@, j - 2, k);
            assert(spec_strip_revision(v@) =~= v@.subrange(0, j - 2));
        }
        return v.substring_char(0, j - 2).to_owned();
    }
    proof {
        assert(!has_rev_split(v@)) by {
            if has_rev_split(v@) {
                let k = choose|k: int| is_rev_split(v@, k);
                assert(is_digit(v@[n - 1]));
                assert(('r' as u32) == 114);
                assert(('-' as u32) == 45);
                assert(j < n);
                if k + 2 < j {
                    assert(is_digit(v@[j - 1]));
                } else if k + 2 > j {
                    assert(k + 1 < n);
                    assert(is_digit(v@[k + 1]));
                    assert(v@[k + 1] == 'r');
                } else {
                    assert(v@[j - 1] == 'r');
                    assert(v@[j - 2] == '-');
                }
            }
        }
    }
    v.to_owned()
}

/// `u` is the first underscore of `v` (a patch-marker separator).
pub open spec fn is_first_underscore(v: Seq<char>, u: int) -> bool {
    &&& 0 <= u < v.len()
    &&& v[u] == '_'
    &&& forall|j: int| 0 <= j < u ==> v[j] != '_'
}

pub open spec fn has_underscore(v: Seq<char>) -> bool {
    exists|u: int| is_first_underscore(v, u)
}

pub open spec fn first_underscore(v: Seq<char>) -> int {
    choose|u: int| is_first_underscore(v, u)
}

pub proof fn lemma_first_underscore_unique(v: Seq<char>, u1: int, u2: int)
    requires
        is_first_underscore(v, u1),
        is_first_underscore(v, u2),
    ensures
        u1 == u2,
{
    if u1 < u2 {
        assert(v[u1] != '_');
    }
    if u2 < u1 {
        assert(v[u2] != '_');
    }
}

fn find_underscore(v: &str) -> (r: Option<usize>)
    ensures
        r matches Some(u) ==> is_first_underscore(v@, u as int),
        r is None ==> !has_underscore(v@),
{
    let n = v.unicode_len();
    let mut i: usize = 0;
    while i < n
        invariant
            i <= n,
            n == v@.len(),
            forall|j: int| 0 <= j < i ==> v@[j] != '_',
        decreases n - i,
    {
        if v.get_char(i) == '_' {
            return Some(i);
        }
        i = i + 1;
    }
    None
}

/// The version part in front of a patch marker, if any.
pub open spec fn spec_version_core(v: Seq<char>) -> Seq<char> {
    if has_underscore(v) {
        v.take(first_underscore(v))
    } else {
        v
    }
}

/// The pattern group for the CPE update field: a patch marker becomes a
/// wildcard-tolerant alternation, otherwise the field may hold `*` or
/// `-` (the CPE notations for "any" and "not applicable").
pub open spec fn spec_update_group(v: Seq<char>) -> Seq<char> {
    if has_underscore(v) {
        "("@ + spec_escape(v.skip(first_underscore(v) + 1)) + "|\\*)"@
    } else {
        "[\\*\\-]"@
    }
}

/// The leading anchor of a sub-pattern.  Names whose upstream CPE entry
/// is filed under a different vendor:product pair are rewritten; any
/// other name anchors on `:<name>` alone.
pub open spec fn spec_anchor(name: Seq<char>) -> Seq<char> {
    if name == "google-chrome"@ {
        "google:chrome"@
    } else {
        ":"@ + spec_escape(name)
    }
}

/// The fixed trailing fields of a sub-pattern: update, edition,
/// language, software edition, a target-software field constrained to
/// `linux` or `*`, target hardware, and the start of the "other" field.
pub open spec fn spec_sub_tail() -> Seq<char> {
    ":[^:]+:[^:]+:[^:]+:(linux|\\*):[^:]+:[^:]"@
}

/// The sub-pattern one package contributes, or nothing for the synthetic
/// live-source version marker `9999`, which has no CPE counterpart.
pub open spec fn spec_sub_pattern(p: Package) -> Option<Seq<char>> {
    if p.version@ == "9999"@ {
        None
    } else {
        let base = spec_strip_revision(p.version@);
        Some(
            spec_anchor(p.name@) + ":"@ + spec_escape(spec_version_core(base)) + ":"@
                + spec_update_group(base) + spec_sub_tail(),
        )
    }
}

/// Builds the sub-pattern for one package.
pub fn sub_pattern(pkg: &Package) -> (r: Option<String>)
    ensures
        (r is Some) == (spec_sub_pattern(*pkg) is Some),
        r matches Some(s) ==> spec_sub_pattern(*pkg) == Some(s@),
{
    if str_eq(pkg.version.as_str(), "9999") {
        return None;
    }
    let base = strip_revision(pkg.version.as_str());
    let mut out: String;
    if str_eq(pkg.name.as_str(), "google-chrome") {
        out = String::from_str("google:chrome");
    } else {
        out = String::from_str(":");
        let escaped_name = escape(pkg.name.as_str());
        out.append(escaped_name.as_str());
    }
    out.append(":");
    match find_underscore(base.as_str()) {
        Some(u) => {
            proof {
                lemma_first_underscore_unique(base@, u as int, first_underscore(base@));
            }
            let blen = base.as_str().unicode_len();
            let core = escape(base.as_str().substring_char(0, u));
            out.append(core.as_str());
            out.append(":");
            out.append("(");
            let sfx = escape(base.as_str().substring_char(u + 1, blen));
            out.append(sfx.as_str());
            out.append("|\\*)");
        },
        None => {
            let core = escape(base.as_str());
            out.append(core.as_str());
            out.append(":");
            out.append("[\\*\\-]");
        },
    }
    out.append(":[^:]+:[^:]+:[^:]+:(linux|\\*):[^:]+:[^:]");
    proof {
        assert(out@ =~= spec_sub_pattern(*pkg).unwrap());
    }
    Some(out)
}

/// The alternation of the sub-patterns of `pkgs`, in order.
pub open spec fn spec_pattern(pkgs: Seq<Package>) -> Seq<char>
    decreases pkgs.len(),
{
    if pkgs.len() == 0 {
        Seq::empty()
    } else {
        let rest = spec_pattern(pkgs.drop_last());
        match spec_sub_pattern(pkgs.last()) {
            None => rest,
            Some(sub) => if rest.len() == 0 {
                sub
            } else {
                rest + "|"@ + sub
            },
        }
    }
}

#[derive(Clone, Copy, Debug, PartialEq, Eq, Structural)]
pub enum QueryError {
    /// No package contributed a sub-pattern, so no meaningful search
    /// pattern exists; an empty pattern must never reach a matcher,
    /// where it would match everything.
    EmptyQuery,
}

/// Builds one combined search pattern for a batch of packages.  Fails
/// exactly when the batch contributes no sub-pattern at all (it is empty
/// or holds only live-source `9999` versions).
pub fn get_regex_pattern(packages: &[Package]) -> (r: Result<String, QueryError>)
    ensures
        r matches Ok(s) ==> s@ == spec_pattern(packages@) && s@.len() > 0,
        (r is Err) <==> spec_pattern(packages@).len() == 0,
{
    let n = packages.len();
    let mut out = String::new();
    let mut i: usize = 0;
    while i < n
        invariant
            i <= n,
            n == packages@.len(),
            out@ == spec_pattern(packages@.take(i as int)),
        decreases n - i,
    {
        proof {
            assert(packages@.take(i + 1).drop_last() =~= packages@.take(i as int));
            assert(packages@.take(i + 1).last() == packages@[i as int]);
        }
        let sub = sub_pattern(&packages[i]);
        match sub {
            Some(s) => {
                if !out.as_str().is_empty() {
                    out.append("|");
                }
                out.append(s.as_str());
            },
            None => {},
        }
        proof {
            assert(out@ =~= spec_pattern(packages@.take(i + 1)));
        }
        i = i + 1;
    }
    proof {
        assert(packages@.take(n as int) =~= packages@);
    }
    if out.as_str().is_empty() {
        Err(QueryError::EmptyQuery)
    } else {
        Ok(out)
    }
}

} // verus!
