//! Small string helpers shared by the pattern builder and the feed
//! scrapers.

use vstd::prelude::*;

verus! {

/// Relies on `String::push`: appends exactly the given character at the
/// end of the string.
#[verifier::external_body]
pub fn push_char(s: &mut String, c: char)
    ensures
        final(s)@ == old(s)@.push(c),
{
    s.push(c);
}

/// Character-wise string equality.
pub fn str_eq(a: &str, b: &str) -> (r: bool)
    ensures
        r == (a@ == b@),
{
    let na = a.unicode_len();
    let nb = b.unicode_len();
    if na != nb {
        return false;
    }
    let mut i: usize = 0;
    while i < na
        invariant
            i <= na,
            na == a@.len(),
            na == b@.len(),
            forall|j: int| 0 <= j < i ==> a@[j] == b@[j],
        decreases na - i,
    {
        if a.get_char(i) != b.get_char(i) {
            return false;
        }
        i = i + 1;
    }
    proof {
        assert(a@ =~= b@);
    }
    true
}

/// An ASCII upper-case letter mapped to its lower-case form; any other
/// character kept.
pub open spec fn spec_lower(c: char) -> char {
    if 65 <= c as u32 && c as u32 <= 90 {
        if c == 'A' { 'a' } else if c == 'B' { 'b' } else if c == 'C' { 'c' }
        else if c == 'D' { 'd' } else if c == 'E' { 'e' } else if c == 'F' { 'f' }
        else if c == 'G' { 'g' } else if c == 'H' { 'h' } else if c == 'I' { 'i' }
        else if c == 'J' { 'j' } else if c == 'K' { 'k' } else if c == 'L' { 'l' }
        else if c == 'M' { 'm' } else if c == 'N' { 'n' } else if c == 'O' { 'o' }
        else if c == 'P' { 'p' } else if c == 'Q' { 'q' } else if c == 'R' { 'r' }
        else if c == 'S' { 's' } else if c == 'T' { 't' } else if c == 'U' { 'u' }
        else if c == 'V' { 'v' } else if c == 'W' { 'w' } else if c == 'X' { 'x' }
        else if c == 'Y' { 'y' } else { 'z' }
    } else {
        c
    }
}

/// `s` with every ASCII upper-case letter lowered.
pub open spec fn spec_lower_all(s: Seq<char>) -> Seq<char> {
    s.map_values(|c: char| spec_lower(c))
}

fn lower(c: char) -> (r: char)
    ensures
        r == spec_lower(c),
{
    match c {
        'A' => 'a', 'B' => 'b', 'C' => 'c', 'D' => 'd', 'E' => 'e', 'F' => 'f',
        'G' => 'g', 'H' => 'h', 'I' => 'i', 'J' => 'j', 'K' => 'k', 'L' => 'l',
        'M' => 'm', 'N' => 'n', 'O' => 'o', 'P' => 'p', 'Q' => 'q', 'R' => 'r',
        'S' => 's', 'T' => 't', 'U' => 'u', 'V' => 'v', 'W' => 'w', 'X' => 'x',
        'Y' => 'y', 'Z' => 'z',
        _ => c,
    }
}

/// Lowers every ASCII upper-case letter of `s`.
pub fn to_lower(s: &str) -> (r: String)
    ensures
        r@ == spec_lower_all(s@),
{
    let n = s.unicode_len();
    let mut out = String::new();
    let mut i: usize = 0;
    while i < n
        invariant
            i <= n,
            n == s@.len(),
            out@ == spec_lower_all(s@.take(i as int)),
        decreases n - i,
    {
        let c = lower(s.get_char(i));
        push_char(&mut out, c);
        proof {
            assert(out@ =~= spec_lower_all(s@.take(i + 1)));
        }
        i = i + 1;
    }
    proof {
        assert(s@.take(n as int) =~= s@);
    }
    out
}

/// The first occurrence of `c` in `s`.
pub open spec fn spec_ffind(s: Seq<char>, c: char) -> Option<int>
    decreases s.len(),
{
    if s.len() == 0 {
        None
    } else if s[0] == c {
        Some(0)
    } else {
        match spec_ffind(s.drop_first(), c) {
            Some(i) => Some(i + 1),
            None => None,
        }
    }
}

/// A scan that stopped at `k` pins the first occurrence down.
pub proof fn lemma_ffind_at(t: Seq<char>, c: char, k: int)
    requires
        0 <= k <= t.len(),
        forall|l: int| 0 <= l < k ==> t[l] != c,
        k == t.len() || t[k] == c,
    ensures
        spec_ffind(t, c) == if k < t.len() {
            Some(k)
        } else {
            None::<int>
        },
    decreases k,
{
    if k == 0 {
    } else {
        assert(t[0] != c);
        lemma_ffind_at(t.drop_first(), c, k - 1);
    }
}

/// One line of text: a trailing carriage return is not part of it.
pub open spec fn spec_strip_cr(l: Seq<char>) -> Seq<char> {
    if l.len() > 0 && l.last() == '\r' {
        l.drop_last()
    } else {
        l
    }
}

/// `s` split at newlines, each line without its trailing carriage
/// return; a final newline ends the last line rather than opening an
/// empty one.
pub open spec fn spec_split_lines(s: Seq<char>) -> Seq<Seq<char>>
    decreases s.len(),
{
    if s.len() == 0 {
        Seq::empty()
    } else {
        match spec_ffind(s, '\n') {
            None => seq![spec_strip_cr(s)],
            Some(i) => if 0 <= i < s.len() {
                seq![spec_strip_cr(s.take(i))] + spec_split_lines(s.skip(i + 1))
            } else {
                seq![spec_strip_cr(s)]
            },
        }
    }
}

/// Splits text into its lines, as the line-oriented readers do: at each
/// newline, dropping one trailing carriage return per line.
pub fn split_lines(s: &str) -> (r: Vec<String>)
    ensures
        r.deep_view() == spec_split_lines(s@),
{
    let n = s.unicode_len();
    let mut out: Vec<String> = Vec::new();
    let mut pos: usize = 0;
    proof {
        assert(out.deep_view() =~= Seq::<Seq<char>>::empty());
        assert(s@.skip(0) =~= s@);
    }
    while pos < n
        invariant
            pos <= n,
            n == s@.len(),
            spec_split_lines(s@) == out.deep_view() + spec_split_lines(s@.skip(pos as int)),
        decreases n - pos,
    {
        let ghost t = s@.skip(pos as int);
        let mut j = pos;
        loop
            invariant_except_break
                pos <= j <= n,
                n == s@.len(),
                forall|l: int| pos <= l < j ==> s@[l] != '\n',
            ensures
                pos <= j <= n,
                n == s@.len(),
                forall|l: int| pos <= l < j ==> s@[l] != '\n',
                j == n || s@[j as int] == '\n',
            decreases n - j,
        {
            if j == n {
                break;
            }
            if s.get_char(j) == '\n' {
                break;
            }
            j = j + 1;
        }
        proof {
            assert forall|l: int| 0 <= l < j - pos implies t[l] != '\n' by {
                assert(t[l] == s@[pos + l]);
            }
            if (j as int) < n {
                assert(t[j - pos] == s@[j as int]);
            }
            lemma_ffind_at(t, '\n', j - pos);
        }
        let line: String = if j > pos && s.get_char(j - 1) == '\r' {
            s.substring_char(pos, j - 1).to_owned()
        } else {
            s.substring_char(pos, j).to_owned()
        };
        proof {
            assert(t.take(j - pos) =~= s@.subrange(pos as int, j as int));
            if j == n {
                assert(line@ =~= spec_strip_cr(t));
            } else {
                assert(line@ =~= spec_strip_cr(t.take(j - pos)));
            }
        }
        out.push(line);
        if j == n {
            pos = n;
            proof {
                assert(spec_split_lines(t) =~= seq![spec_strip_cr(t)]);
                assert(s@.skip(n as int).len() == 0);
                assert(spec_split_lines(s@.skip(n as int)) =~= Seq::<Seq<char>>::empty());
                assert(out.deep_view() + spec_split_lines(s@.skip(pos as int)) =~= spec_split_lines(
                    s@,
                ));
            }
        } else {
            proof {
                assert(t.skip(j - pos + 1) =~= s@.skip(j + 1));
                assert(spec_split_lines(t) =~= seq![spec_strip_cr(t.take(j - pos))]
                    + spec_split_lines(s@.skip(j + 1)));
                assert(out.deep_view() + spec_split_lines(s@.skip(j + 1)) =~= spec_split_lines(s@));
            }
            pos = j + 1;
        }
    }
    proof {
        assert(s@.skip(n as int).len() == 0);
        assert(spec_split_lines(s@.skip(n as int)) =~= Seq::<Seq<char>>::empty());
        assert(out.deep_view() =~= spec_split_lines(s@));
    }
    out
}

} // verus!
