use vulner::package::{convert_to_pkg, Package};

#[test]
fn it_should_convert_raw_pkg_into_struct() {
    let raw_pkg = "rust-bin-1.58.1";
    let expected = Some(Package::new("rust-bin".to_owned(), "1.58.1".to_owned()));
    assert_eq!(expected, convert_to_pkg(raw_pkg));
}

#[test]
fn it_should_implement_to_string() {
    let expected = "rust-bin-1.58.1";
    let package = Package::new("rust-bin".to_owned(), "1.58.1".to_owned());
    assert_eq!(expected.to_owned(), package.render());
}

#[test]
fn it_should_round_trip_render_and_parse() {
    let cases = vec![
        ("busybox", "1.29.3"),
        ("rust-bin", "1.58.1"),
        ("nicotine+", "1.4.1-r1"),
        ("openssh", "8.4_p1"),
    ];
    for (name, version) in cases {
        let package = Package::new(name.to_owned(), version.to_owned());
        let parsed = convert_to_pkg(&package.render());
        assert_eq!(Some(package), parsed);
    }
}

#[test]
fn it_should_reject_entries_without_a_version() {
    assert_eq!(None, convert_to_pkg("virtual"));
    assert_eq!(None, convert_to_pkg("rust-bin"));
    assert_eq!(None, convert_to_pkg(""));
}

#[test]
fn it_should_split_at_the_rightmost_version_boundary() {
    let parsed = convert_to_pkg("lib2to3-1.0").unwrap();
    assert_eq!("lib2to3", parsed.name);
    assert_eq!("1.0", parsed.version);

    let parsed = convert_to_pkg("ncurses5-config-6.1").unwrap();
    assert_eq!("ncurses5-config", parsed.name);
    assert_eq!("6.1", parsed.version);
}
