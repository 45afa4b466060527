use std::str::FromStr;
use vulner::adapter::{
    all_catpkgs_from_tree, get_distro_id, get_supported_map, Funtoo, LinuxDistro, Os, OsInfo,
    OsPackages,
};

#[test]
fn it_should_know_supported_oses() {
    assert!(Os::from_str("linux").is_ok());
    assert!(Os::from_str("freebsd").is_err());
}

#[test]
fn it_should_know_supported_distros() {
    assert!(LinuxDistro::from_str("funtoo").is_ok());
    assert!(LinuxDistro::from_str("gentoo").is_ok());
    assert!(LinuxDistro::from_str("debian").is_err());
}

#[test]
fn it_should_list_one_supported_os_with_two_flavors() {
    let supported = get_supported_map();
    assert_eq!(supported.len(), 1);
    assert_eq!(supported[0].0, Os::GnuLinux);
    assert_eq!(supported[0].1.len(), 2);
}

#[test]
fn it_should_read_the_distro_id_from_os_release() {
    let text = "NAME=Funtoo\nID=\"funtoo\"\nPRETTY_NAME=\"Funtoo Linux\"\n";
    assert_eq!(get_distro_id(text).unwrap(), "funtoo");
    assert!(get_distro_id("NAME=Funtoo\n").is_err());
}

#[test]
fn it_should_collect_catpkgs_and_skip_bookkeeping_dirs() {
    let adapter = Funtoo::new();
    assert_eq!(*adapter.get_os(), Os::GnuLinux);
    let tree = vec![
        (
            "sys-apps".to_owned(),
            vec![
                "busybox-1.29.3.ebuild".to_owned(),
                "notes.txt".to_owned(),
                "busybox-9999.ebuild".to_owned(),
            ],
        ),
        ("virtual".to_owned(), vec!["rust-1.58.1.ebuild".to_owned()]),
        (".git".to_owned(), vec!["editor-1.0.ebuild".to_owned()]),
    ];
    let catpkgs = adapter.get_all_catpkgs(&tree);
    assert_eq!(catpkgs.len(), 1);
    assert_eq!(catpkgs[0].0, "sys-apps");
    let names: Vec<String> = catpkgs[0].1.iter().map(|p| p.render()).collect();
    assert_eq!(
        names,
        vec!["busybox-1.29.3".to_owned(), "busybox-9999".to_owned()]
    );
}

#[test]
fn it_should_apply_the_renaming_prefix() {
    let tree = vec![(
        "dev-libs".to_owned(),
        vec!["xml2-2.9.10.ebuild".to_owned()],
    )];
    let prefix_map = vec![("dev-libs".to_owned(), "lib".to_owned())];
    let catpkgs = all_catpkgs_from_tree(&tree, &prefix_map);
    assert_eq!(catpkgs.len(), 1);
    let names: Vec<String> = catpkgs[0].1.iter().map(|p| p.render()).collect();
    assert_eq!(
        names,
        vec!["xml2-2.9.10".to_owned(), "libxml2-2.9.10".to_owned()]
    );
}
