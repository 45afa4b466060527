use vulner::json::Json;
use vulner::validators::{into_validated_packages, validate_cpe_batch};

fn package_object(name: &str, version: &str) -> Json {
    Json::Obj(vec![
        ("name".to_owned(), Json::Str(name.to_owned())),
        ("version".to_owned(), Json::Str(version.to_owned())),
    ])
}

#[test]
fn it_should_validate_packages_batch() {
    let valid_batch = Json::Arr(vec![package_object("busybox", "1.29.3")]);
    let invalid_batch = package_object("busybox", "1.29.3");
    assert!(into_validated_packages(&valid_batch).is_ok());
    assert!(into_validated_packages(&invalid_batch).is_err());
}

#[test]
fn it_should_validate_cpe_batch() {
    let valid_batch = Json::Arr(vec![Json::Str(
        "cpe:2.3:a:busybox:busybox:1.29.3:*:*:*:*:*:*:*".to_owned(),
    )]);
    let invalid_batch = Json::Arr(vec![Json::Str("cpe:/a:busybox:busybox:1.29.3 ".to_owned())]);
    assert!(validate_cpe_batch(&valid_batch).is_ok());
    assert!(validate_cpe_batch(&invalid_batch).is_err());
}

#[test]
fn it_should_extract_the_validated_packages() {
    let batch = Json::Arr(vec![
        package_object("busybox", "1.29.3"),
        package_object("libxml2", "2.9.10-r5"),
    ]);
    let pkgs = into_validated_packages(&batch).unwrap();
    assert_eq!(pkgs.len(), 2);
    assert_eq!(pkgs[0].name, "busybox");
    assert_eq!(pkgs[0].version, "1.29.3");
    assert_eq!(pkgs[1].name, "libxml2");
    assert_eq!(pkgs[1].version, "2.9.10-r5");
}

#[test]
fn it_should_report_every_violation_at_once() {
    let batch = Json::Arr(vec![
        Json::Obj(vec![("name".to_owned(), Json::Str("busybox".to_owned()))]),
        Json::Null,
        Json::Obj(vec![
            ("name".to_owned(), Json::Num("7".to_owned())),
            ("version".to_owned(), Json::Str(String::new())),
        ]),
    ]);
    let issues = into_validated_packages(&batch).unwrap_err();
    assert_eq!(issues.len(), 4);
    assert_eq!(issues[0].index, 0);
    assert_eq!(issues[1].index, 1);
    assert_eq!(issues[2].index, 2);
    assert_eq!(issues[3].index, 2);
}
