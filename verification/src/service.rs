//! Reading the security-advisory services' responses: condensing CVE
//! records, recognizing a rejected API key, filtering the feed
//! metadata checksum, and listing known-exploited CVEs and distro
//! tracker tickets.  The HTTP calls themselves stay outside the
//! library; their JSON responses come in as [`Json`] values.

use vstd::prelude::*;

use crate::cve_summary::CveSummary;
use crate::json::Json;
use crate::searchers::{is_match_at, match_at, rfind, spec_rfind};
use crate::strutil::{spec_lower_all, spec_split_lines, split_lines, str_eq, to_lower};
use crate::tracker_summary::DistroTrackerSummary;

verus! {

/// The reference feed's file name on disk.
pub const CPE_MATCH_FEED: &'static str = "nvdcpematch-1.0.json";

/// The compressed form the feed is published under.
pub const CPE_MATCH_FEED_GZ: &'static str = "nvdcpematch-1.0.json.gz";

/// Whether a response is the vulnerability database's rejection of the
/// API key it was queried with.
pub open spec fn spec_api_key_invalid(resp: Json) -> bool {
    match resp.spec_get("error"@) {
        Some(v) => match v {
            Json::Str(s) => s@ == "Invalid apiKey"@,
            _ => false,
        },
        None => false,
    }
}

/// Recognizes the response the vulnerability database sends back for a
/// rejected API key.
pub fn is_api_key_invalid(nvd_response: &Json) -> (r: bool)
    ensures
        r == spec_api_key_invalid(*nvd_response),
{
    match nvd_response.get("error") {
        Some(v) => match v {
            Json::Str(s) => str_eq(s.as_str(), "Invalid apiKey"),
            _ => false,
        },
        None => false,
    }
}

#[derive(Clone, Copy, Debug, PartialEq, Eq, Structural)]
pub enum ApiError {
    InvalidApiKey,
}

/// Turns the database's rejection of an API key into this library's
/// error; any other response passes.
pub fn throw_on_invalid_api_key(resp: &Json) -> (r: Result<(), ApiError>)
    ensures
        (r is Err) == spec_api_key_invalid(*resp),
        r matches Err(e) ==> e == ApiError::InvalidApiKey,
{
    if is_api_key_invalid(resp) {
        Err(ApiError::InvalidApiKey)
    } else {
        Ok(())
    }
}

/// The CVE identifier a record carries, if any.
pub open spec fn spec_cve_id(cve: Json) -> Option<Seq<char>> {
    match cve.spec_get("CVE_data_meta"@) {
        Some(m) => match m.spec_get("ID"@) {
            Some(v) => v.spec_str_value(),
            None => None,
        },
        None => None,
    }
}

/// Whether a description entry is the English one.
pub open spec fn spec_is_en(d: Json) -> bool {
    match d.spec_get("lang"@) {
        Some(v) => match v {
            Json::Str(s) => s@ == "en"@,
            _ => false,
        },
        None => false,
    }
}

/// The first English description entry.
pub open spec fn spec_first_en(ds: Seq<Json>) -> Option<Json>
    decreases ds.len(),
{
    if ds.len() == 0 {
        None
    } else if spec_is_en(ds[0]) {
        Some(ds[0])
    } else {
        spec_first_en(ds.drop_first())
    }
}

/// The text a description entry carries.
pub open spec fn spec_desc_value(d: Json) -> Seq<char> {
    match d.spec_get("value"@) {
        Some(v) => match v {
            Json::Str(s) => s@,
            _ => Seq::empty(),
        },
        None => Seq::empty(),
    }
}

/// A record's English description; empty when it has none.
pub open spec fn spec_cve_desc(cve: Json) -> Seq<char> {
    match cve.spec_get("description"@) {
        Some(d) => match d.spec_get("description_data"@) {
            Some(dd) => match dd {
                Json::Arr(ds) => match spec_first_en(ds@) {
                    Some(en) => spec_desc_value(en),
                    None => Seq::empty(),
                },
                _ => Seq::empty(),
            },
            None => Seq::empty(),
        },
        None => Seq::empty(),
    }
}

/// The vulnerability database's detail page for a CVE.
pub open spec fn spec_nvd_detail_url(id: Seq<char>) -> Seq<char> {
    "https://nvd.nist.gov/vuln/detail"@ + "/"@ + id
}

/// The reference URLs of a record's reference entries, in order.
pub open spec fn spec_ref_urls(rs: Seq<Json>) -> Seq<Seq<char>>
    decreases rs.len(),
{
    if rs.len() == 0 {
        Seq::empty()
    } else {
        spec_ref_urls(rs.drop_last()) + (match rs.last().spec_get("url"@) {
            Some(v) => match v {
                Json::Str(s) => seq![s@],
                _ => Seq::<Seq<char>>::empty(),
            },
            None => Seq::<Seq<char>>::empty(),
        })
    }
}

/// Every URL a summary lists: the database's detail page first, then
/// the record's own references.
pub open spec fn spec_cve_urls(cve: Json, id: Seq<char>) -> Seq<Seq<char>> {
    seq![spec_nvd_detail_url(id)] + (match cve.spec_get("references"@) {
        Some(r) => match r.spec_get("reference_data"@) {
            Some(rd) => match rd {
                Json::Arr(rs) => spec_ref_urls(rs@),
                _ => Seq::<Seq<char>>::empty(),
            },
            None => Seq::<Seq<char>>::empty(),
        },
        None => Seq::<Seq<char>>::empty(),
    })
}

/// The known-exploited catalog as character sequences, when consulted.
pub open spec fn spec_kec(known: Option<&Vec<String>>) -> Option<Seq<Seq<char>>> {
    match known {
        Some(v) => Some(v.deep_view()),
        None => None,
    }
}

/// Whether the catalog lists an id; unknown when no catalog was given.
pub open spec fn spec_known_flag(id: Seq<char>, kec: Option<Seq<Seq<char>>>) -> Option<bool> {
    match kec {
        Some(list) => Some(list.contains(id)),
        None => None,
    }
}

/// The view a summary exposes.
pub open spec fn spec_summary_view(s: CveSummary) -> (
    Seq<char>,
    Option<bool>,
    Seq<char>,
    Seq<Seq<char>>,
) {
    (s.id@, s.is_known_exploited_vuln, s.description@, s.urls.deep_view())
}

/// The views of a summary list, in order.
pub open spec fn spec_summary_views(ss: Seq<CveSummary>) -> Seq<
    (Seq<char>, Option<bool>, Seq<char>, Seq<Seq<char>>),
>
    decreases ss.len(),
{
    if ss.len() == 0 {
        Seq::empty()
    } else {
        spec_summary_views(ss.drop_last()).push(spec_summary_view(ss.last()))
    }
}

/// What the summary of one record must hold, or nothing for a record
/// without an identifier.
pub open spec fn spec_cve_summary(cve: Json, kec: Option<Seq<Seq<char>>>) -> Option<
    (Seq<char>, Option<bool>, Seq<char>, Seq<Seq<char>>),
> {
    match spec_cve_id(cve) {
        Some(id) => Some(
            (id, spec_known_flag(id, kec), spec_cve_desc(cve), spec_cve_urls(cve, id)),
        ),
        None => None,
    }
}

/// Finds the index of the first English description entry.
fn first_en(ds: &Vec<Json>) -> (r: Option<usize>)
    ensures
        r matches Some(i) ==> i < ds@.len() && spec_first_en(ds@) == Some(ds@[i as int]),
        r is None ==> spec_first_en(ds@) is None,
{
    let n = ds.len();
    let mut i: usize = 0;
    proof {
        assert(ds@.skip(0) =~= ds@);
    }
    while i < n
        invariant
            i <= n,
            n == ds@.len(),
            spec_first_en(ds@) == spec_first_en(ds@.skip(i as int)),
        decreases n - i,
    {
        proof {
            assert(ds@.skip(i as int)[0] == ds@[i as int]);
            assert(ds@.skip(i as int).drop_first() =~= ds@.skip(i + 1));
        }
        let en = match ds[i].get("lang") {
            Some(v) => match v {
                Json::Str(s) => str_eq(s.as_str(), "en"),
                _ => false,
            },
            None => false,
        };
        if en {
            return Some(i);
        }
        i = i + 1;
    }
    proof {
        assert(ds@.skip(n as int).len() == 0);
    }
    None
}

/// The English description of one record; empty when it has none.
fn cve_desc(cve_data: &Json) -> (r: String)
    ensures
        r@ == spec_cve_desc(*cve_data),
{
    match cve_data.get("description") {
        Some(d) => match d.get("description_data") {
            Some(dd) => match dd {
                Json::Arr(ds) => match first_en(ds) {
                    Some(i) => match ds[i].get("value") {
                        Some(v) => match v {
                            Json::Str(s) => s.clone(),
                            _ => String::new(),
                        },
                        None => String::new(),
                    },
                    None => String::new(),
                },
                _ => String::new(),
            },
            None => String::new(),
        },
        None => String::new(),
    }
}

/// The URL list of one record, the database's detail page first.
fn cve_urls(id: &str, cve_data: &Json) -> (r: Vec<String>)
    ensures
        r.deep_view() == spec_cve_urls(*cve_data, id@),
{
    let mut detail = String::from_str("https://nvd.nist.gov/vuln/detail");
    detail.append("/");
    detail.append(id);
    let mut urls: Vec<String> = Vec::new();
    urls.push(detail);
    proof {
        assert(urls.deep_view() =~= seq![spec_nvd_detail_url(id@)]);
    }
    match cve_data.get("references") {
        Some(r) => match r.get("reference_data") {
            Some(rd) => match rd {
                Json::Arr(rs) => {
                    let n = rs.len();
                    let mut i: usize = 0;
                    while i < n
                        invariant
                            i <= n,
                            n == rs@.len(),
                            urls.deep_view() == seq![spec_nvd_detail_url(id@)] + spec_ref_urls(
                                rs@.take(i as int),
                            ),
                        decreases n - i,
                    {
                        proof {
                            assert(rs@.take(i + 1).drop_last() =~= rs@.take(i as int));
                            assert(rs@.take(i + 1).last() == rs@[i as int]);
                        }
                        let ghost prev = urls.deep_view();
                        match rs[i].get("url") {
                            Some(v) => match v {
                                Json::Str(s) => {
                                    urls.push(s.clone());
                                    proof {
                                        assert(urls.deep_view() =~= prev.push(s@));
                                    }
                                },
                                _ => {},
                            },
                            None => {},
                        }
                        proof {
                            assert(urls.deep_view() =~= seq![spec_nvd_detail_url(id@)]
                                + spec_ref_urls(rs@.take(i + 1)));
                        }
                        i = i + 1;
                    }
                    proof {
                        assert(rs@.take(n as int) =~= rs@);
                    }
                },
                _ => {},
            },
            None => {},
        },
        None => {},
    }
    proof {
        assert(urls.deep_view() =~= spec_cve_urls(*cve_data, id@));
    }
    urls
}

/// Condenses one CVE record; a record without an identifier yields
/// nothing.  With a known-exploited catalog at hand, the summary also
/// says whether the catalog lists this CVE.
pub fn get_cve_summary(cve_data: &Json, known_exploitable_cves: Option<&Vec<String>>) -> (r:
    Option<CveSummary>)
    ensures
        (r is Some) == (spec_cve_id(*cve_data) is Some),
        r matches Some(s) ==> Some(spec_summary_view(s)) == spec_cve_summary(
            *cve_data,
            spec_kec(known_exploitable_cves),
        ),
{
    let id: Option<&String> = match cve_data.get("CVE_data_meta") {
        Some(m) => match m.get("ID") {
            Some(v) => v.as_str(),
            None => None,
        },
        None => None,
    };
    match id {
        Some(id) => {
            let description = cve_desc(cve_data);
            let urls = cve_urls(id.as_str(), cve_data);
            let mut summary = CveSummary::new(id.clone(), description, urls);
            match known_exploitable_cves {
                Some(kec) => {
                    let listed = crate::searchers::vec_contains_str(kec, id.as_str());
                    summary.is_known_exploited_vuln = Some(listed);
                },
                None => {},
            }
            Some(summary)
        },
        None => None,
    }
}

/// The `cve` member of one response item; an item without one reads as
/// a null value, which carries no identifier.
pub open spec fn spec_item_cve(item: Json) -> Json {
    match item.spec_get("cve"@) {
        Some(c) => c,
        None => Json::Null,
    }
}

/// The summaries of a list of response items, in order; items whose
/// record carries no identifier are passed over.
pub open spec fn spec_summaries(items: Seq<Json>, kec: Option<Seq<Seq<char>>>) -> Seq<
    (Seq<char>, Option<bool>, Seq<char>, Seq<Seq<char>>),
>
    decreases items.len(),
{
    if items.len() == 0 {
        Seq::empty()
    } else {
        spec_summaries(items.drop_last(), kec) + (match spec_cve_summary(
            spec_item_cve(items.last()),
            kec,
        ) {
            Some(t) => seq![t],
            None => Seq::empty(),
        })
    }
}

/// The response items a full query response carries.
pub open spec fn spec_cve_items(full: Json) -> Seq<Json> {
    match full.spec_get("result"@) {
        Some(r) => match r.spec_get("CVE_Items"@) {
            Some(ci) => match ci {
                Json::Arr(es) => es@,
                _ => Seq::empty(),
            },
            None => Seq::empty(),
        },
        None => Seq::empty(),
    }
}

/// Condenses a full query response into one summary per CVE record,
/// unless the response is the database's rejection of the API key,
/// which is this library's error.
pub fn get_cves_summary(full_cve_resp: &Json, known_exploitable_cves: Option<&Vec<String>>) -> (r:
    Result<Vec<CveSummary>, ApiError>)
    ensures
        (r is Err) == spec_api_key_invalid(*full_cve_resp),
        r matches Ok(v) ==> spec_summary_views(v@) == spec_summaries(
            spec_cve_items(*full_cve_resp),
            spec_kec(known_exploitable_cves),
        ),
{
    throw_on_invalid_api_key(full_cve_resp)?;
    let mut out: Vec<CveSummary> = Vec::new();
    match full_cve_resp.get("result") {
        Some(res) => match res.get("CVE_Items") {
            Some(ci) => match ci {
                Json::Arr(items) => {
                    let n = items.len();
                    let mut i: usize = 0;
                    while i < n
                        invariant
                            i <= n,
                            n == items@.len(),
                            spec_summary_views(out@) == spec_summaries(
                                items@.take(i as int),
                                spec_kec(known_exploitable_cves),
                            ),
                        decreases n - i,
                    {
                        proof {
                            assert(items@.take(i + 1).drop_last() =~= items@.take(i as int));
                            assert(items@.take(i + 1).last() == items@[i as int]);
                        }
                        let ghost prev = out@;
                        match items[i].get("cve") {
                            Some(cve_data) => {
                                match get_cve_summary(cve_data, known_exploitable_cves) {
                                    Some(s) => {
                                        out.push(s);
                                        proof {
                                            assert(out@.drop_last() =~= prev);
                                            assert(out@.last() == s);
                                        }
                                    },
                                    None => {},
                                }
                            },
                            None => {},
                        }
                        proof {
                            assert(spec_summary_views(out@) =~= spec_summaries(
                                items@.take(i + 1),
                                spec_kec(known_exploitable_cves),
                            ));
                        }
                        i = i + 1;
                    }
                    proof {
                        assert(items@.take(n as int) =~= items@);
                    }
                },
                _ => {},
            },
            None => {},
        },
        None => {},
    }
    proof {
        assert(spec_summary_views(Seq::<CveSummary>::empty()) =~= Seq::<
            (Seq<char>, Option<bool>, Seq<char>, Seq<Seq<char>>),
        >::empty());
    }
    Ok(out)
}

/// The first metadata line naming the feed checksum.
pub open spec fn spec_checksum_line(lines: Seq<Seq<char>>) -> Option<Seq<char>>
    decreases lines.len(),
{
    if lines.len() == 0 {
        None
    } else if is_match_at(lines[0], "sha256:"@, 0) {
        Some(lines[0])
    } else {
        spec_checksum_line(lines.drop_first())
    }
}

/// What stands after the last colon of a line.
pub open spec fn spec_after_last_colon(line: Seq<char>) -> Seq<char> {
    match spec_rfind(line, ":"@) {
        Some(i) => line.skip(i + ":"@.len()),
        None => line,
    }
}

/// The checksum the feed metadata names: the value of its first
/// `sha256:` line, lowered to the usual hex spelling.
pub open spec fn spec_checksum(meta: Seq<char>) -> Option<Seq<char>> {
    match spec_checksum_line(spec_split_lines(meta)) {
        Some(line) => Some(spec_lower_all(spec_after_last_colon(line))),
        None => None,
    }
}

#[derive(Clone, Copy, Debug, PartialEq, Eq, Structural)]
pub enum ChecksumError {
    /// No line of the metadata names a checksum.
    KeywordNotFound,
}

/// Filters the feed checksum out of the feed's metadata text.  Fails
/// exactly when no metadata line starts with the checksum keyword.
pub fn get_checksum(meta: String) -> (r: Result<String, ChecksumError>)
    ensures
        r matches Ok(s) ==> spec_checksum(meta@) == Some(s@),
        (r is Err) == (spec_checksum(meta@) is None),
{
    let lines = split_lines(meta.as_str());
    let n = lines.len();
    let mut i: usize = 0;
    proof {
        assert(lines.deep_view().skip(0) =~= lines.deep_view());
    }
    while i < n
        invariant
            i <= n,
            n == lines@.len(),
            lines.deep_view() == spec_split_lines(meta@),
            spec_checksum_line(lines.deep_view()) == spec_checksum_line(
                lines.deep_view().skip(i as int),
            ),
        decreases n - i,
    {
        proof {
            reveal_strlit("sha256:");
            reveal_strlit(":");
            assert(lines.deep_view().skip(i as int)[0] == lines@[i as int]@);
            assert(lines.deep_view().skip(i as int).drop_first() =~= lines.deep_view().skip(i + 1));
        }
        let plen = "sha256:".unicode_len();
        let line = &lines[i];
        let llen = line.as_str().unicode_len();
        if llen >= plen && match_at(line.as_str(), "sha256:", 0) {
            let value: String = match rfind(line.as_str(), ":") {
                Some(k) => {
                    proof {
                        crate::searchers::lemma_rfind_below_props(
                            line@,
                            ":"@,
                            line@.len() - ":"@.len() + 1,
                        );
                        assert(line@.subrange(k + 1, llen as int) =~= line@.skip(k + 1));
                    }
                    line.as_str().substring_char(k + 1, llen).to_owned()
                },
                None => line.clone(),
            };
            return Ok(to_lower(value.as_str()));
        }
        i = i + 1;
    }
    proof {
        assert(lines.deep_view().skip(n as int).len() == 0);
    }
    Err(ChecksumError::KeywordNotFound)
}

/// The CVE identifiers the known-exploited catalog lists, in order.
pub open spec fn spec_kev_list(items: Seq<Json>) -> Seq<Seq<char>>
    decreases items.len(),
{
    if items.len() == 0 {
        Seq::empty()
    } else {
        spec_kev_list(items.drop_last()) + (match items.last().spec_get("cveID"@) {
            Some(v) => match v {
                Json::Str(s) => seq![s@],
                _ => Seq::<Seq<char>>::empty(),
            },
            None => Seq::<Seq<char>>::empty(),
        })
    }
}

/// The identifiers a known-exploited-vulnerabilities response carries.
pub open spec fn spec_kev_cves(kev: Json) -> Seq<Seq<char>> {
    match kev.spec_get("vulnerabilities"@) {
        Some(v) => match v {
            Json::Arr(items) => spec_kev_list(items@),
            _ => Seq::empty(),
        },
        None => Seq::empty(),
    }
}

/// Lists the CVE identifiers of the known-exploited catalog; a response
/// without a catalog yields none.
pub fn get_known_exploited_cves(known_exploited_vulns: &Json) -> (r: Vec<String>)
    ensures
        r.deep_view() == spec_kev_cves(*known_exploited_vulns),
{
    let mut out: Vec<String> = Vec::new();
    proof {
        assert(out.deep_view() =~= Seq::<Seq<char>>::empty());
    }
    match known_exploited_vulns.get("vulnerabilities") {
        Some(v) => match v {
            Json::Arr(items) => {
                let n = items.len();
                let mut i: usize = 0;
                while i < n
                    invariant
                        i <= n,
                        n == items@.len(),
                        out.deep_view() == spec_kev_list(items@.take(i as int)),
                    decreases n - i,
                {
                    proof {
                        assert(items@.take(i + 1).drop_last() =~= items@.take(i as int));
                        assert(items@.take(i + 1).last() == items@[i as int]);
                    }
                    match items[i].get("cveID") {
                        Some(c) => match c {
                            Json::Str(s) => {
                                out.push(s.clone());
                            },
                            _ => {},
                        },
                        None => {},
                    }
                    proof {
                        assert(out.deep_view() =~= spec_kev_list(items@.take(i + 1)));
                    }
                    i = i + 1;
                }
                proof {
                    assert(items@.take(n as int) =~= items@);
                }
            },
            _ => {},
        },
        None => {},
    }
    out
}

/// The ticket key an issue carries; empty when it has none.
pub open spec fn spec_issue_key(issue: Json) -> Seq<char> {
    match issue.spec_get("key"@) {
        Some(v) => match v {
            Json::Str(s) => s@,
            _ => Seq::empty(),
        },
        None => Seq::empty(),
    }
}

/// The one-line summary an issue carries; empty when it has none.
pub open spec fn spec_issue_summary(issue: Json) -> Seq<char> {
    match issue.spec_get("fields"@) {
        Some(f) => match f.spec_get("summary"@) {
            Some(v) => match v {
                Json::Str(s) => s@,
                _ => Seq::empty(),
            },
            None => Seq::empty(),
        },
        None => Seq::empty(),
    }
}

/// The tracker page where a ticket can be read.
pub open spec fn spec_tracker_url(id: Seq<char>) -> Seq<char> {
    "https://bugs.funtoo.org"@ + "/"@ + "browse"@ + "/"@ + id
}

/// The view a tracker summary exposes.
pub open spec fn spec_tracker_view(t: DistroTrackerSummary) -> (Seq<char>, Seq<char>, Seq<char>) {
    (t.id@, t.url@, t.summary@)
}

/// The views of a tracker summary list, in order.
pub open spec fn spec_tracker_views(ts: Seq<DistroTrackerSummary>) -> Seq<
    (Seq<char>, Seq<char>, Seq<char>),
>
    decreases ts.len(),
{
    if ts.len() == 0 {
        Seq::empty()
    } else {
        spec_tracker_views(ts.drop_last()).push(spec_tracker_view(ts.last()))
    }
}

/// What the summaries of a list of tracker issues must hold, in order.
pub open spec fn spec_tracker_entries(issues: Seq<Json>) -> Seq<(Seq<char>, Seq<char>, Seq<char>)>
    decreases issues.len(),
{
    if issues.len() == 0 {
        Seq::empty()
    } else {
        spec_tracker_entries(issues.drop_last()).push(
            (
                spec_issue_key(issues.last()),
                spec_tracker_url(spec_issue_key(issues.last())),
                spec_issue_summary(issues.last()),
            ),
        )
    }
}

/// The issues a tracker search response carries.
pub open spec fn spec_tracker_issues(resp: Json) -> Seq<Json> {
    match resp.spec_get("issues"@) {
        Some(v) => match v {
            Json::Arr(issues) => issues@,
            _ => Seq::empty(),
        },
        None => Seq::empty(),
    }
}

/// The key an issue carries, as a string.
fn issue_key(issue: &Json) -> (r: String)
    ensures
        r@ == spec_issue_key(*issue),
{
    match issue.get("key") {
        Some(v) => match v {
            Json::Str(s) => s.clone(),
            _ => String::new(),
        },
        None => String::new(),
    }
}

/// Condenses a tracker search response into one summary per issue.
pub fn get_distro_tracker_summary(resp: &Json) -> (r: Vec<DistroTrackerSummary>)
    ensures
        spec_tracker_views(r@) == spec_tracker_entries(spec_tracker_issues(*resp)),
{
    let mut out: Vec<DistroTrackerSummary> = Vec::new();
    proof {
        assert(spec_tracker_views(out@) =~= Seq::<(Seq<char>, Seq<char>, Seq<char>)>::empty());
    }
    match resp.get("issues") {
        Some(v) => match v {
            Json::Arr(issues) => {
                let n = issues.len();
                let mut i: usize = 0;
                while i < n
                    invariant
                        i <= n,
                        n == issues@.len(),
                        spec_tracker_views(out@) == spec_tracker_entries(issues@.take(i as int)),
                    decreases n - i,
                {
                    proof {
                        assert(issues@.take(i + 1).drop_last() =~= issues@.take(i as int));
                        assert(issues@.take(i + 1).last() == issues@[i as int]);
                    }
                    let id = issue_key(&issues[i]);
                    let mut url = String::from_str("https://bugs.funtoo.org");
                    url.append("/");
                    url.append("browse");
                    url.append("/");
                    url.append(id.as_str());
                    let summary: String = match issues[i].get("fields") {
                        Some(f) => match f.get("summary") {
                            Some(sv) => match sv {
                                Json::Str(s) => s.clone(),
                                _ => String::new(),
                            },
                            None => String::new(),
                        },
                        None => String::new(),
                    };
                    let ghost prev = out@;
                    out.push(DistroTrackerSummary::new(id, url, summary));
                    proof {
                        assert(out@.drop_last() =~= prev);
                        assert(spec_tracker_views(out@) =~= spec_tracker_entries(
                            issues@.take(i + 1),
                        ));
                    }
                    i = i + 1;
                }
                proof {
                    assert(issues@.take(n as int) =~= issues@);
                }
            },
            _ => {},
        },
        None => {},
    }
    out
}

/// The ticket keys of a tracker search response, in order.
pub open spec fn spec_ticket_keys(issues: Seq<Json>) -> Seq<Seq<char>>
    decreases issues.len(),
{
    if issues.len() == 0 {
        Seq::empty()
    } else {
        spec_ticket_keys(issues.drop_last()).push(spec_issue_key(issues.last()))
    }
}

/// Lists the ticket keys a tracker search response carries.
pub fn get_distro_tickets(resp: &Json) -> (r: Vec<String>)
    ensures
        r.deep_view() == spec_ticket_keys(spec_tracker_issues(*resp)),
{
    let mut out: Vec<String> = Vec::new();
    proof {
        assert(out.deep_view() =~= Seq::<Seq<char>>::empty());
    }
    match resp.get("issues") {
        Some(v) => match v {
            Json::Arr(issues) => {
                let n = issues.len();
                let mut i: usize = 0;
                while i < n
                    invariant
                        i <= n,
                        n == issues@.len(),
                        out.deep_view() == spec_ticket_keys(issues@.take(i as int)),
                    decreases n - i,
                {
                    proof {
                        assert(issues@.take(i + 1).drop_last() =~= issues@.take(i as int));
                        assert(issues@.take(i + 1).last() == issues@[i as int]);
                    }
                    out.push(issue_key(&issues[i]));
                    proof {
                        assert(out.deep_view() =~= spec_ticket_keys(issues@.take(i + 1)));
                    }
                    i = i + 1;
                }
                proof {
                    assert(issues@.take(n as int) =~= issues@);
                }
            },
            _ => {},
        },
        None => {},
    }
    out
}

} // verus!
