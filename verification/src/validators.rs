//! Structural validation of input batches before they enter the
//! pipeline: a package batch is an array of objects carrying non-empty
//! `name` and `version` strings, a CPE batch is an array of CPE 2.3
//! URI strings.  Validation collects every violation in one pass
//! rather than stopping at the first.

use vstd::prelude::*;

use crate::json::Json;
use crate::package::Package;
use crate::searchers::{is_match_at, match_at, spec_is_space};

verus! {

#[derive(Clone, Copy, Debug, PartialEq, Eq, Structural)]
pub enum IssueKind {
    NotAnArray,
    NotAnObject,
    MissingName,
    NameNotString,
    EmptyName,
    MissingVersion,
    VersionNotString,
    EmptyVersion,
    NotAString,
    BadCpeFormat,
}

/// One schema violation: the index of the offending batch element and
/// what is wrong with it.
#[derive(Clone, Copy, Debug, PartialEq, Eq, Structural)]
pub struct ValidationIssue {
    pub index: usize,
    pub kind: IssueKind,
}

/// The violations of one package element, in field order.
pub open spec fn spec_elem_issues(j: Json) -> Seq<IssueKind> {
    match j {
        Json::Obj(_) => {
            let ni = match j.spec_get("name"@) {
                None => seq![IssueKind::MissingName],
                Some(v) => match v {
                    Json::Str(s) => if s@.len() == 0 {
                        seq![IssueKind::EmptyName]
                    } else {
                        Seq::empty()
                    },
                    _ => seq![IssueKind::NameNotString],
                },
            };
            let vi = match j.spec_get("version"@) {
                None => seq![IssueKind::MissingVersion],
                Some(v) => match v {
                    Json::Str(s) => if s@.len() == 0 {
                        seq![IssueKind::EmptyVersion]
                    } else {
                        Seq::empty()
                    },
                    _ => seq![IssueKind::VersionNotString],
                },
            };
            ni + vi
        },
        _ => seq![IssueKind::NotAnObject],
    }
}

/// The name a valid package element carries.
pub open spec fn spec_elem_name(j: Json) -> Seq<char> {
    match j.spec_get("name"@) {
        Some(v) => match v {
            Json::Str(s) => s@,
            _ => Seq::empty(),
        },
        None => Seq::empty(),
    }
}

/// The version a valid package element carries.
pub open spec fn spec_elem_version(j: Json) -> Seq<char> {
    match j.spec_get("version"@) {
        Some(v) => match v {
            Json::Str(s) => s@,
            _ => Seq::empty(),
        },
        None => Seq::empty(),
    }
}

/// Kinds placed at a batch index.
pub open spec fn spec_issues_at(kinds: Seq<IssueKind>, i: int) -> Seq<ValidationIssue> {
    kinds.map_values(|k: IssueKind| ValidationIssue { index: i as usize, kind: k })
}

/// Every violation of a package batch array, in element order.
pub open spec fn spec_batch_issues_arr(es: Seq<Json>) -> Seq<ValidationIssue>
    decreases es.len(),
{
    if es.len() == 0 {
        Seq::empty()
    } else {
        spec_batch_issues_arr(es.drop_last()) + spec_issues_at(
            spec_elem_issues(es.last()),
            es.len() - 1,
        )
    }
}

/// Every violation of a package batch.
pub open spec fn spec_batch_issues(j: Json) -> Seq<ValidationIssue> {
    match j {
        Json::Arr(es) => spec_batch_issues_arr(es@),
        _ => seq![ValidationIssue { index: 0, kind: IssueKind::NotAnArray }],
    }
}

/// The (name, version) views of a package list.
pub open spec fn spec_pkg_views(ps: Seq<Package>) -> Seq<(Seq<char>, Seq<char>)> {
    ps.map_values(|p: Package| (p.name@, p.version@))
}

/// Appending a package appends its views.
pub proof fn lemma_pkg_views_push(ps: Seq<Package>, p: Package)
    ensures
        spec_pkg_views(ps.push(p)) == spec_pkg_views(ps).push((p.name@, p.version@)),
{
    assert(spec_pkg_views(ps.push(p)) =~= spec_pkg_views(ps).push((p.name@, p.version@)));
}

/// The (name, version) views of a sequence of package elements.
pub open spec fn spec_elem_views(es: Seq<Json>) -> Seq<(Seq<char>, Seq<char>)> {
    es.map_values(|e: Json| (spec_elem_name(e), spec_elem_version(e)))
}

/// The (name, version) views a package batch carries.
pub open spec fn spec_batch_views(j: Json) -> Seq<(Seq<char>, Seq<char>)> {
    match j {
        Json::Arr(es) => spec_elem_views(es@),
        _ => Seq::empty(),
    }
}

/// Checks one batch element and extracts its package.
fn elem_check(e: &Json) -> (r: Result<Package, Vec<IssueKind>>)
    ensures
        (r is Ok) == (spec_elem_issues(*e).len() == 0),
        r matches Ok(p) ==> p.name@ == spec_elem_name(*e) && p.version@ == spec_elem_version(*e),
        r matches Err(ks) ==> ks@ == spec_elem_issues(*e),
{
    match e {
        Json::Obj(_) => {
            let mut kinds: Vec<IssueKind> = Vec::new();
            let name_val: Option<String> = match e.get("name") {
                Some(Json::Str(s)) => {
                    if s.as_str().is_empty() {
                        kinds.push(IssueKind::EmptyName);
                        None
                    } else {
                        Some(s.clone())
                    }
                },
                Some(_) => {
                    kinds.push(IssueKind::NameNotString);
                    None
                },
                None => {
                    kinds.push(IssueKind::MissingName);
                    None
                },
            };
            let ghost name_kinds = kinds@;
            let version_val: Option<String> = match e.get("version") {
                Some(Json::Str(s)) => {
                    if s.as_str().is_empty() {
                        kinds.push(IssueKind::EmptyVersion);
                        None
                    } else {
                        Some(s.clone())
                    }
                },
                Some(_) => {
                    kinds.push(IssueKind::VersionNotString);
                    None
                },
                None => {
                    kinds.push(IssueKind::MissingVersion);
                    None
                },
            };
            proof {
                assert(kinds@ =~= spec_elem_issues(*e));
            }
            match (name_val, version_val) {
                (Some(n), Some(v)) => Ok(Package::new(n, v)),
                _ => {
                    assert(kinds@.len() > 0);
                    Err(kinds)
                },
            }
        },
        _ => {
            let kinds: Vec<IssueKind> = vec![IssueKind::NotAnObject];
            proof {
                assert(kinds@ =~= spec_elem_issues(*e));
            }
            Err(kinds)
        },
    }
}

/// Validates a package batch: an array of objects each carrying a
/// non-empty `name` string and a non-empty `version` string.  A valid
/// batch becomes the package list; an invalid one yields every
/// violation found, not only the first.
pub fn into_validated_packages(batch: &Json) -> (r: Result<Vec<Package>, Vec<ValidationIssue>>)
    ensures
        (r is Ok) == (spec_batch_issues(*batch).len() == 0),
        r matches Ok(pkgs) ==> spec_pkg_views(pkgs@) == spec_batch_views(*batch),
        r matches Err(issues) ==> issues@ == spec_batch_issues(*batch) && issues@.len() > 0,
{
    match batch {
        Json::Arr(es) => {
            let n = es.len();
            let mut pkgs: Vec<Package> = Vec::new();
            let mut issues: Vec<ValidationIssue> = Vec::new();
            let mut i: usize = 0;
            while i < n
                invariant
                    i <= n,
                    n == es@.len(),
                    issues@ == spec_batch_issues_arr(es@.take(i as int)),
                    issues@.len() == 0 ==> spec_pkg_views(pkgs@) == spec_elem_views(
                        es@.take(i as int),
                    ),
                decreases n - i,
            {
                proof {
                    assert(es@.take(i + 1).drop_last() =~= es@.take(i as int));
                    assert(es@.take(i + 1).last() == es@[i as int]);
                }
                let ghost pre_pkgs = pkgs@;
                match elem_check(&es[i]) {
                    Ok(p) => {
                        proof {
                            assert(spec_issues_at(spec_elem_issues(es@[i as int]), i as int)
                                =~= Seq::<ValidationIssue>::empty());
                            assert(spec_batch_issues_arr(es@.take(i + 1)) =~= issues@);
                        }
                        pkgs.push(p);
                        proof {
                            if issues@.len() == 0 {
                                let lhs = spec_pkg_views(pkgs@);
                                let rhs = spec_elem_views(es@.take(i + 1));
                                assert(lhs.len() == rhs.len());
                                assert forall|k: int| 0 <= k < lhs.len() implies lhs[k] == rhs[k] by {
                                    assert(es@.take(i + 1)[k] == es@[k]);
                                    if k < i {
                                        assert(pkgs@[k] == pre_pkgs[k]);
                                        assert(spec_pkg_views(pre_pkgs)[k] == spec_elem_views(
                                            es@.take(i as int),
                                        )[k]);
                                        assert(spec_elem_views(es@.take(i as int))[k] == (
                                            spec_elem_name(es@[k]),
                                            spec_elem_version(es@[k]),
                                        ));
                                    } else {
                                        assert(pkgs@[k] == p);
                                    }
                                }
                                assert(lhs =~= rhs);
                            }
                        }
                    },
                    Err(ks) => {
                        let m = ks.len();
                        let mut k: usize = 0;
                        while k < m
                            invariant
                                k <= m,
                                m == ks@.len(),
                                i < n,
                                n == es@.len(),
                                ks@ == spec_elem_issues(es@[i as int]),
                                issues@ == spec_batch_issues_arr(es@.take(i as int))
                                    + spec_issues_at(ks@.take(k as int), i as int),
                            decreases m - k,
                        {
                            proof {
                                assert(spec_issues_at(ks@.take(k + 1), i as int) =~= spec_issues_at(
                                    ks@.take(k as int),
                                    i as int,
                                ).push(ValidationIssue { index: i, kind: ks@[k as int] }));
                            }
                            issues.push(ValidationIssue { index: i, kind: ks[k] });
                            k = k + 1;
                        }
                        proof {
                            assert(ks@.take(m as int) =~= ks@);
                            assert(issues@ =~= spec_batch_issues_arr(es@.take(i + 1)));
                        }
                    },
                }
                i = i + 1;
            }
            proof {
                assert(es@.take(n as int) =~= es@);
            }
            if issues.is_empty() {
                Ok(pkgs)
            } else {
                Err(issues)
            }
        },
        _ => {
            let issues: Vec<ValidationIssue> = vec![
                ValidationIssue { index: 0, kind: IssueKind::NotAnArray },
            ];
            proof {
                assert(issues@ =~= spec_batch_issues(*batch));
            }
            Err(issues)
        },
    }
}

/// How many times `c` occurs in `s`.
pub open spec fn spec_count_char(s: Seq<char>, c: char) -> int
    decreases s.len(),
{
    if s.len() == 0 {
        0
    } else {
        spec_count_char(s.drop_last(), c) + if s.last() == c {
            1int
        } else {
            0int
        }
    }
}

/// A well-formed CPE 2.3 URI for this pipeline's purposes: the
/// `cpe:2.3:` prefix, the full count of colon-separated fields, and no
/// whitespace.
pub open spec fn spec_valid_cpe(s: Seq<char>) -> bool {
    &&& s.len() >= "cpe:2.3:"@.len()
    &&& s.subrange(0, "cpe:2.3:"@.len() as int) == "cpe:2.3:"@
    &&& spec_count_char(s, ':') == 12
    &&& forall|i: int| 0 <= i < s.len() ==> !spec_is_space(#[trigger] s[i])
}

/// Checks one CPE URI string.
pub fn valid_cpe(s: &str) -> (r: bool)
    ensures
        r == spec_valid_cpe(s@),
{
    let n = s.unicode_len();
    let prefix = "cpe:2.3:";
    let plen = prefix.unicode_len();
    if n < plen {
        return false;
    }
    if !match_at(s, prefix, 0) {
        return false;
    }
    let mut colons: usize = 0;
    let mut i: usize = 0;
    while i < n
        invariant
            i <= n,
            n == s@.len(),
            colons <= i,
            colons == spec_count_char(s@.take(i as int), ':'),
            forall|j: int| 0 <= j < i ==> !spec_is_space(#[trigger] s@[j]),
        decreases n - i,
    {
        let c = s.get_char(i);
        proof {
            assert(s@.take(i + 1).drop_last() =~= s@.take(i as int));
            assert(s@.take(i + 1).last() == s@[i as int]);
        }
        match c {
            ' ' | '\t' | '\n' | '\r' => {
                return false;
            },
            _ => {},
        }
        if c == ':' {
            colons = colons + 1;
        }
        i = i + 1;
    }
    proof {
        assert(s@.take(n as int) =~= s@);
    }
    colons == 12
}

/// The violation of one CPE batch element, if any.
pub open spec fn spec_cpe_elem_issues(j: Json) -> Seq<IssueKind> {
    match j {
        Json::Str(s) => if spec_valid_cpe(s@) {
            Seq::empty()
        } else {
            seq![IssueKind::BadCpeFormat]
        },
        _ => seq![IssueKind::NotAString],
    }
}

/// Every violation of a CPE batch array, in element order.
pub open spec fn spec_cpe_issues_arr(es: Seq<Json>) -> Seq<ValidationIssue>
    decreases es.len(),
{
    if es.len() == 0 {
        Seq::empty()
    } else {
        spec_cpe_issues_arr(es.drop_last()) + spec_issues_at(
            spec_cpe_elem_issues(es.last()),
            es.len() - 1,
        )
    }
}

/// Every violation of a CPE batch.
pub open spec fn spec_cpe_batch_issues(j: Json) -> Seq<ValidationIssue> {
    match j {
        Json::Arr(es) => spec_cpe_issues_arr(es@),
        _ => seq![ValidationIssue { index: 0, kind: IssueKind::NotAnArray }],
    }
}

/// Validates a CPE batch: an array of CPE 2.3 URI strings.  An invalid
/// batch yields every violation found, not only the first.
pub fn validate_cpe_batch(batch: &Json) -> (r: Result<(), Vec<ValidationIssue>>)
    ensures
        (r is Ok) == (spec_cpe_batch_issues(*batch).len() == 0),
        r matches Err(issues) ==> issues@ == spec_cpe_batch_issues(*batch) && issues@.len() > 0,
{
    match batch {
        Json::Arr(es) => {
            let n = es.len();
            let mut issues: Vec<ValidationIssue> = Vec::new();
            let mut i: usize = 0;
            while i < n
                invariant
                    i <= n,
                    n == es@.len(),
                    issues@ == spec_cpe_issues_arr(es@.take(i as int)),
                decreases n - i,
            {
                proof {
                    assert(es@.take(i + 1).drop_last() =~= es@.take(i as int));
                    assert(es@.take(i + 1).last() == es@[i as int]);
                }
                let bad: Option<IssueKind> = match &es[i] {
                    Json::Str(s) => {
                        if valid_cpe(s.as_str()) {
                            None
                        } else {
                            Some(IssueKind::BadCpeFormat)
                        }
                    },
                    _ => Some(IssueKind::NotAString),
                };
                match bad {
                    Some(kind) => {
                        proof {
                            assert(spec_cpe_issues_arr(es@.take(i + 1)) =~= issues@.push(
                                ValidationIssue { index: i, kind },
                            ));
                        }
                        issues.push(ValidationIssue { index: i, kind });
                    },
                    None => {
                        proof {
                            assert(spec_cpe_issues_arr(es@.take(i + 1)) =~= issues@);
                        }
                    },
                }
                i = i + 1;
            }
            proof {
                assert(es@.take(n as int) =~= es@);
            }
            if issues.is_empty() {
                Ok(())
            } else {
                Err(issues)
            }
        },
        _ => {
            let issues: Vec<ValidationIssue> = vec![
                ValidationIssue { index: 0, kind: IssueKind::NotAnArray },
            ];
            proof {
                assert(issues@ =~= spec_cpe_batch_issues(*batch));
            }
            Err(issues)
        },
    }
}

} // verus!
