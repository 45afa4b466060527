use vulner::json::Json;
use vulner::service::{get_checksum, get_cve_summary, is_api_key_invalid};

fn cve_record(assigner: &str, id: &str, cwe: &str, desc: &str) -> Json {
    Json::Obj(vec![
        (
            "CVE_data_meta".to_owned(),
            Json::Obj(vec![
                ("ASSIGNER".to_owned(), Json::Str(assigner.to_owned())),
                ("ID".to_owned(), Json::Str(id.to_owned())),
            ]),
        ),
        ("data_format".to_owned(), Json::Str("MITRE".to_owned())),
        ("data_type".to_owned(), Json::Str("CVE".to_owned())),
        ("data_version".to_owned(), Json::Str("4.0".to_owned())),
        (
            "description".to_owned(),
            Json::Obj(vec![(
                "description_data".to_owned(),
                Json::Arr(vec![Json::Obj(vec![
                    ("lang".to_owned(), Json::Str("en".to_owned())),
                    ("value".to_owned(), Json::Str(desc.to_owned())),
                ])]),
            )]),
        ),
        (
            "problemtype".to_owned(),
            Json::Obj(vec![(
                "problemtype_data".to_owned(),
                Json::Arr(vec![Json::Obj(vec![(
                    "description".to_owned(),
                    Json::Arr(vec![Json::Obj(vec![
                        ("lang".to_owned(), Json::Str("en".to_owned())),
                        ("value".to_owned(), Json::Str(cwe.to_owned())),
                    ])]),
                )])]),
            )]),
        ),
        (
            "references".to_owned(),
            Json::Obj(vec![("reference_data".to_owned(), Json::Arr(vec![]))]),
        ),
    ])
}

#[test]
fn it_should_filter_checksum() {
    let checksum = "f283d332a8a66ecb23d49ee385ce42fca691e598da29475beb0b3556ab1fe02e";
    let test_data = "lastModifiedDate:2022-01-22T00:10:15-05:00\r\nsize:601269818\r\nzipSize:21871360\r\ngzSize:21871224\r\nsha256:F283D332A8A66ECB23D49EE385CE42FCA691E598DA29475BEB0B3556AB1FE02E\r\n";

    assert_eq!(get_checksum(test_data.to_owned()).unwrap(), checksum);
}

#[test]
fn it_should_recognize_known_exploitable_cves() {
    let known_exploitable_cves = vec!["CVE-2021-22204".to_owned()];
    let listed_cve = cve_record(
        "cve@gitlab.com",
        "CVE-2021-22204",
        "CWE-74",
        "Improper neutralization of user data in the DjVu file format in ExifTool versions 7.44 and up allows arbitrary code execution when parsing the malicious image",
    );
    let unlisted_cve = cve_record(
        "cve@mitre.org",
        "CVE-2022-23935",
        "NVD-CWE-noinfo",
        "lib/Image/ExifTool.pm in ExifTool before 12.38 mishandles a $file =~ /\\|$/ check.",
    );

    let summary = get_cve_summary(&listed_cve, None).unwrap();
    assert_eq!(summary.is_known_exploited_vuln, None);

    let summary = get_cve_summary(&listed_cve, Some(&known_exploitable_cves)).unwrap();
    assert_eq!(summary.is_known_exploited_vuln, Some(true));

    let summary = get_cve_summary(&unlisted_cve, Some(&known_exploitable_cves)).unwrap();
    assert_eq!(summary.is_known_exploited_vuln, Some(false));
}

#[test]
fn it_should_recognize_invalid_api_key() {
    let cve = cve_record(
        "cve@gitlab.com",
        "CVE-2021-22204",
        "CWE-74",
        "Improper neutralization of user data in the DjVu file format in ExifTool versions 7.44 and up allows arbitrary code execution when parsing the malicious image",
    );
    let invalid_api_key_resp = Json::Obj(vec![
        ("loggedIn".to_owned(), Json::Bool(true)),
        ("authorized".to_owned(), Json::Bool(true)),
        ("error".to_owned(), Json::Str("Invalid apiKey".to_owned())),
        ("message".to_owned(), Json::Str("Invalid apiKey".to_owned())),
    ]);
    assert!(!is_api_key_invalid(&cve));
    assert!(is_api_key_invalid(&invalid_api_key_resp));
}

#[test]
fn it_should_summarize_a_record_with_its_urls() {
    let cve = cve_record("cve@mitre.org", "CVE-2022-0001", "CWE-1", "an example finding");
    let summary = get_cve_summary(&cve, None).unwrap();
    assert_eq!(summary.id, "CVE-2022-0001");
    assert_eq!(summary.description, "an example finding");
    assert_eq!(
        summary.urls,
        vec!["https://nvd.nist.gov/vuln/detail/CVE-2022-0001".to_owned()]
    );
}

#[test]
fn it_should_fail_without_a_checksum_line() {
    let meta = "lastModifiedDate:2022-01-22T00:10:15-05:00\r\nsize:601269818\r\n";
    assert!(get_checksum(meta.to_owned()).is_err());
}
