use vulner::utils::{decide_sync, get_feed_path, get_file_checksum, handle_process_err, SyncAction};

#[test]
fn it_should_build_the_feed_path() {
    assert_eq!(
        get_feed_path("/tmp/vulner/feeds/json"),
        "/tmp/vulner/feeds/json/nvdcpematch-1.0.json"
    );
    assert_eq!(
        get_feed_path("/tmp/vulner/feeds/json/"),
        "/tmp/vulner/feeds/json/nvdcpematch-1.0.json"
    );
}

#[test]
fn it_should_describe_process_failures() {
    let err = handle_process_err(Some(2), "/bin/gunzip").unwrap_err();
    assert!(!err.interrupted);
    assert_eq!(err.message, "/bin/gunzip process exited with code 2");

    let err = handle_process_err(Some(-137), "/bin/gunzip").unwrap_err();
    assert_eq!(err.message, "/bin/gunzip process exited with code -137");

    let err = handle_process_err(None, "/bin/gunzip").unwrap_err();
    assert!(err.interrupted);
    assert_eq!(err.message, "/bin/gunzip process terminated by signal");
}

#[test]
fn it_should_decide_when_to_download() {
    assert_eq!(decide_sync(false, "aa", "aa"), SyncAction::Download);
    assert_eq!(decide_sync(true, "aa", "bb"), SyncAction::Download);
    assert_eq!(decide_sync(true, "aa", "aa"), SyncAction::UpToDate);
}

#[test]
fn it_should_hash_bytes_to_lowercase_hex() {
    assert_eq!(
        get_file_checksum(b"abc"),
        "ba7816bf8f01cfea414140de5dae2223b00361a396177a9cb410ff61f20015ad"
    );
    assert_eq!(
        get_file_checksum(b""),
        "e3b0c44298fc1c149afbf4c8996fb92427ae41e4649b934ca495991b7852b855"
    );
}
