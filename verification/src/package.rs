//! The package model: an installed package is a name together with a
//! version string.  A raw package-manager entry of the shape
//! `<name>-<version>` (the version starts with an ASCII digit) is split
//! at the rightmost eligible hyphen boundary, the split a greedy name
//! capture produces; entries with no such boundary are not packages and
//! yield nothing.

use vstd::prelude::*;

verus! {

/// A decimal digit, by code point.
pub open spec fn is_digit(c: char) -> bool {
    48 <= c as u32 && c as u32 <= 57
}

/// An index `i` of `s` splits it into a non-empty name `s[..i]`, a
/// hyphen, and a version `s[i+1..]` that starts with an ASCII digit.
pub open spec fn is_boundary(s: Seq<char>, i: int) -> bool {
    1 <= i && i + 2 <= s.len() && s[i] == '-' && is_digit(s[i + 1])
}

/// Whether some split of `s` into `<name>-<digit-led version>` exists.
pub open spec fn has_boundary(s: Seq<char>) -> bool {
    exists|i: int| is_boundary(s, i)
}

/// The rightmost boundary at a position of at most `n`.
pub open spec fn spec_boundary_below(s: Seq<char>, n: int) -> Option<int>
    decreases n,
{
    if n < 1 {
        None
    } else if is_boundary(s, n) {
        Some(n)
    } else {
        spec_boundary_below(s, n - 1)
    }
}

/// The rightmost boundary of `s`: a greedy name capture takes
/// everything up to the last hyphen followed by a digit-led token.
pub open spec fn spec_boundary_idx(s: Seq<char>) -> Option<int> {
    spec_boundary_below(s, s.len() - 2)
}

/// What parsing `s` yields: the name and version around the rightmost
/// boundary, or nothing when no boundary exists.
pub open spec fn spec_parse(s: Seq<char>) -> Option<(Seq<char>, Seq<char>)> {
    match spec_boundary_idx(s) {
        Some(i) => Some((s.take(i), s.skip(i + 1))),
        None => None,
    }
}

pub proof fn lemma_boundary_below_props(s: Seq<char>, n: int)
    ensures
        spec_boundary_below(s, n) matches Some(i) ==> is_boundary(s, i) && i <= n && forall|j: int|
            i < j <= n ==> !is_boundary(s, j),
        spec_boundary_below(s, n) is None ==> forall|j: int| j <= n ==> !is_boundary(s, j),
    decreases n,
{
    if n >= 1 && !is_boundary(s, n) {
        lemma_boundary_below_props(s, n - 1);
    }
}

/// Parsing finds a split exactly when one exists.
pub proof fn lemma_parse_complete(s: Seq<char>)
    ensures
        (spec_parse(s) is Some) == has_boundary(s),
{
    lemma_boundary_below_props(s, s.len() - 2);
    if spec_parse(s) is Some {
        let i = spec_boundary_idx(s)->Some_0;
        assert(is_boundary(s, i));
    }
    if has_boundary(s) {
        let i = choose|i: int| is_boundary(s, i);
        assert(i <= s.len() - 2);
        if spec_boundary_idx(s) is None {
            assert(!is_boundary(s, i));
        }
    }
}

#[derive(Clone, Debug, Hash, PartialEq, Eq)]
pub struct Package {
    pub name: String,
    pub version: String,
}

impl Package {
    /// A well-formed package: non-empty name, digit-led non-empty
    /// version.
    pub open spec fn wf(self) -> bool {
        self.name@.len() > 0 && self.version@.len() > 0 && is_digit(self.version@[0])
    }

    /// The canonical `<name>-<version>` rendering of a package.
    pub open spec fn spec_render(self) -> Seq<char> {
        self.name@ + seq!['-'] + self.version@
    }

    pub fn new(name: String, version: String) -> (r: Package)
        ensures
            r.name@ == name@,
            r.version@ == version@,
    {
        Package { name, version }
    }

    /// Renders the package back to its `<name>-<version>` string form.
    pub fn render(&self) -> (r: String)
        ensures
            r@ == self.spec_render(),
    {
        proof {
            reveal_strlit("-");
        }
        let r = self.name.clone().concat("-").concat(self.version.as_str());
        assert(r@ =~= self.spec_render());
        r
    }
}

/// Is `c` an ASCII digit?
pub(crate) fn digit(c: char) -> (r: bool)
    ensures
        r == is_digit(c),
{
    let u = c as u32;
    48 <= u && u <= 57
}

/// Splits a raw package-manager entry into a package at the rightmost
/// hyphen boundary whose right side starts with a digit; yields `None`
/// when no such boundary exists (the entry is not a package).
pub fn convert_to_pkg(raw_pkg: &str) -> (r: Option<Package>)
    ensures
        r matches Some(p) ==> spec_parse(raw_pkg@) == Some((p.name@, p.version@)) && p.wf(),
        r is None ==> spec_parse(raw_pkg@) is None,
{
    let n = raw_pkg.unicode_len();
    if n < 3 {
        proof {
            lemma_boundary_below_props(raw_pkg@, raw_pkg@.len() - 2);
            if spec_boundary_idx(raw_pkg@) is Some {
                let i = spec_boundary_idx(raw_pkg@)->Some_0;
                assert(is_boundary(raw_pkg@, i));
            }
        }
        return None;
    }
    let mut i = n - 2;
    loop
        invariant
            1 <= i <= n - 2,
            n == raw_pkg@.len(),
            3 <= n,
            spec_boundary_idx(raw_pkg@) == spec_boundary_below(raw_pkg@, i as int),
        decreases i,
    {
        if raw_pkg.get_char(i) == '-' && digit(raw_pkg.get_char(i + 1)) {
            assert(is_boundary(raw_pkg@, i as int));
            let name = raw_pkg.substring_char(0, i).to_owned();
            let version = raw_pkg.substring_char(i + 1, n).to_owned();
            proof {
                assert(name@ =~= raw_pkg@.take(i as int));
                assert(version@ =~= raw_pkg@.skip(i + 1));
                assert(is_digit(version@[0]));
            }
            return Some(Package { name, version });
        }
        assert(!is_boundary(raw_pkg@, i as int));
        if i == 1 {
            proof {
                assert(spec_boundary_below(raw_pkg@, 1) == spec_boundary_below(raw_pkg@, 0));
                assert(spec_boundary_below(raw_pkg@, 0) is None);
            }
            return None;
        }
        i = i - 1;
    }
}

/// Round trip: parsing the rendering of a well-formed package gives the
/// package back, provided the version holds no hyphen-digit boundary of
/// its own — such a boundary would pull part of the version into the
/// name.
pub proof fn lemma_render_parse_round_trip(p: Package)
    requires
        p.wf(),
        forall|j: int| !is_boundary(p.version@, j),
    ensures
        spec_parse(p.spec_render()) == Some((p.name@, p.version@)),
{
    let s = p.spec_render();
    let nl = p.name@.len() as int;
    assert(s.len() == nl + 1 + p.version@.len());
    assert(s[nl] == '-');
    assert(s[nl + 1] == p.version@[0]);
    assert(is_boundary(s, nl));
    assert forall|j: int| nl < j implies !is_boundary(s, j) by {
        if is_boundary(s, j) {
            if j == nl + 1 {
                assert(s[nl + 1] == p.version@[0]);
                assert(('-' as u32) == 45);
            } else {
                assert(j >= nl + 2);
                let v = j - nl - 1;
                assert(s[j] == p.version@[v]);
                assert(s[j + 1] == p.version@[v + 1]);
                assert(is_boundary(p.version@, v));
            }
        }
    }
    lemma_boundary_below_props(s, s.len() - 2);
    if spec_boundary_idx(s) is None {
        assert(!is_boundary(s, nl));
    }
    let i = spec_boundary_idx(s)->Some_0;
    if i < nl {
        assert(!is_boundary(s, nl));
    }
    if i > nl {
        assert(!is_boundary(s, i));
    }
    assert(i == nl);
    assert(s.take(nl) =~= p.name@);
    assert(s.skip(nl + 1) =~= p.version@);
}

} // verus!
