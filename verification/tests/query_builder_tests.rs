use vulner::package::Package;
use vulner::query_builder::get_regex_pattern;

fn pkg(name: &str, version: &str) -> Package {
    Package::new(name.to_owned(), version.to_owned())
}

#[test]
fn it_should_return_grep_patterns() {
    let test_data: Vec<(Vec<Package>, &str)> = vec![
        (
            vec![pkg("busybox", "1.31.0"), pkg("busybox", "9999")],
            r#":busybox:1\.31\.0:[\*\-]:[^:]+:[^:]+:[^:]+:(linux|\*):[^:]+:[^:]"#,
        ),
        (
            vec![pkg("busybox", "1.31.0"), pkg("busybox", "1.29.3")],
            r#":busybox:1\.31\.0:[\*\-]:[^:]+:[^:]+:[^:]+:(linux|\*):[^:]+:[^:]|:busybox:1\.29\.3:[\*\-]:[^:]+:[^:]+:[^:]+:(linux|\*):[^:]+:[^:]"#,
        ),
        (
            vec![pkg("libxml2", "2.9.10-r5"), pkg("openssh", "8.4_p1-r3")],
            r#":libxml2:2\.9\.10:[\*\-]:[^:]+:[^:]+:[^:]+:(linux|\*):[^:]+:[^:]|:openssh:8\.4:(p1|\*):[^:]+:[^:]+:[^:]+:(linux|\*):[^:]+:[^:]"#,
        ),
        (
            vec![pkg("google-chrome", "97.0.4692.71")],
            r#"google:chrome:97\.0\.4692\.71:[\*\-]:[^:]+:[^:]+:[^:]+:(linux|\*):[^:]+:[^:]"#,
        ),
        (
            vec![pkg("nicotine+", "1.4.1-r1")],
            r#":nicotine\+:1\.4\.1:[\*\-]:[^:]+:[^:]+:[^:]+:(linux|\*):[^:]+:[^:]"#,
        ),
    ];
    for (packages, expected) in test_data {
        assert_eq!(get_regex_pattern(&packages).unwrap(), expected.to_owned());
    }
}

#[test]
fn it_should_escape_metacharacters_and_tolerate_revisions() {
    let pattern = get_regex_pattern(&[pkg("nicotine+", "1.4.1-r1")]).unwrap();
    assert!(pattern.contains(r#"nicotine\+"#));
    assert!(!pattern.contains("nicotine+:"));
    assert!(!pattern.contains("r1"));
    assert!(pattern.contains(r#":[\*\-]:"#));
}

#[test]
fn it_should_rewrite_aliased_vendors() {
    let pattern = get_regex_pattern(&[pkg("google-chrome", "97.0.4692.71")]).unwrap();
    assert!(pattern.starts_with(r#"google:chrome:97\.0\.4692\.71"#));
    assert!(!pattern.contains("google-chrome"));
}

#[test]
fn it_should_fail_on_an_empty_batch() {
    assert!(get_regex_pattern(&[]).is_err());
    assert!(get_regex_pattern(&[pkg("busybox", "9999")]).is_err());
}
