use rayon::iter::{IntoParallelRefIterator, ParallelIterator};
use vulner::package::Package;
use vulner::query_builder::get_regex_pattern;
use vulner::searchers::{
    contains_cpe_json_key, get_uniq_values, grep, load_feed, match_batch, match_cpes, scrap_cpe,
};

fn pkg(name: &str, version: &str) -> Package {
    Package::new(name.to_owned(), version.to_owned())
}

fn strings(items: &[&str]) -> Vec<String> {
    items.iter().map(|s| s.to_string()).collect()
}

#[test]
fn it_should_scrap_value() {
    let line = "    \"cpe23Uri\" : \"cpe:2.3:a:xmlsoft:libxml2:2.9.10:*:*:*:*:*:*:*\",\r\n";
    assert_eq!(
        scrap_cpe(line),
        "cpe:2.3:a:xmlsoft:libxml2:2.9.10:*:*:*:*:*:*:*"
    );
}

#[test]
fn it_should_return_unique_values() {
    let test_matches = vec![
        String::from("      \"cpe23Uri\" : \"cpe:2.3:a:busybox:busybox:1.29.3:*:*:*:*:*:*:*\"\r\n"),
        String::from("      \"cpe23Uri\" : \"cpe:2.3:a:busybox:busybox:1.29.3:*:*:*:*:*:*:*\"\r\n"),
        String::from("      \"cpe23Uri\" : \"cpe:2.3:a:xmlsoft:libxml2:2.9.10:*:*:*:*:*:*:*\"\r\n"),
        String::from("      \"cpe23Uri\" : \"cpe:2.3:a:xmlsoft:libxml2:2.9.10:-:*:*:*:*:*:*\"\r\n"),
        String::from("      \"cpe23Uri\" : \"cpe:2.3:a:xmlsoft:libxml2:2.9.10:*:*:*:*:*:*:*\"\r\n"),
        String::from("      \"cpe23Uri\" : \"cpe:2.3:a:xmlsoft:libxml2:2.9.10:-:*:*:*:*:*:*\"\r\n"),
        String::from("    \"cpe23Uri\" : \"cpe:2.3:a:xmlsoft:libxml2:2.9.10:*:*:*:*:*:*:*\",\r\n"),
    ];
    let expected = strings(&[
        "cpe:2.3:a:busybox:busybox:1.29.3:*:*:*:*:*:*:*",
        "cpe:2.3:a:xmlsoft:libxml2:2.9.10:*:*:*:*:*:*:*",
        "cpe:2.3:a:xmlsoft:libxml2:2.9.10:-:*:*:*:*:*:*",
    ]);

    assert_eq!(get_uniq_values(&test_matches), expected);
}

#[test]
fn it_should_recognize_line_containing_cpe_value() {
    let input = vec![
        (false, "{"),
        (false, "  \"matches\" : [ {"),
        (true, "    \"cpe23Uri\" : \"cpe:2.3:a:\\$0.99_kindle_books_project:\\$0.99_kindle_books:6:*:*:*:*:android:*:*\","),
        (false, "    \"cpe_name\" : [ {"),
        (true, "      \"cpe23Uri\" : \"cpe:2.3:a:\\$0.99_kindle_books_project:\\$0.99_kindle_books:6:*:*:*:*:android:*:*\""),
        (false, "    } ]"),
        (false, "  }, {"),
        (true, "    \"cpe23Uri\" : \"cpe:2.3:o:-:-:-:*:*:*:*:*:*:*\","),
        (false, "    \"cpe_name\" : [ ]"),
        (false, "  }, {"),
    ];
    for (expected, line) in input {
        assert_eq!(contains_cpe_json_key(line), expected);
    }
}

#[test]
fn it_should_deduplicate_repeated_feed_entries() {
    let uri_line = "  \"cpe23Uri\" : \"cpe:2.3:a:busybox:busybox:1.29.3:*:*:*:*:*:*:*\",";
    for n in 1..6 {
        let lines: Vec<String> = std::iter::repeat(uri_line.to_string()).take(n).collect();
        let index = load_feed(&lines);
        assert_eq!(
            index,
            strings(&["cpe:2.3:a:busybox:busybox:1.29.3:*:*:*:*:*:*:*"])
        );
    }
}

#[test]
fn it_should_match_the_same_sets_with_any_worker_count() {
    let feed = strings(&[
        "cpe:2.3:a:busybox:busybox:1.29.3:*:*:*:*:*:*:*",
        "cpe:2.3:a:busybox:busybox:1.31.0:*:*:*:*:*:*:*",
        "cpe:2.3:a:xmlsoft:libxml2:2.9.10:*:*:*:*:*:*:*",
        "cpe:2.3:a:xmlsoft:libxml2:2.9.10:-:*:*:*:*:*:*",
        "cpe:2.3:a:openbsd:openssh:8.4:p1:*:*:*:*:*:*",
    ]);
    let pkgs = vec![
        pkg("busybox", "1.29.3"),
        pkg("libxml2", "2.9.10-r5"),
        pkg("openssh", "8.4_p1-r3"),
        pkg("nonexistent", "1.0"),
    ];

    let sequential: Vec<Vec<String>> = match_batch(&feed, &pkgs)
        .into_iter()
        .map(|(_, cpes)| cpes)
        .collect();

    let single_worker = rayon::ThreadPoolBuilder::new()
        .num_threads(1)
        .build()
        .unwrap();
    let one: Vec<Vec<String>> = single_worker.install(|| {
        pkgs.par_iter()
            .map(|p| {
                let pattern = get_regex_pattern(&[p.clone()]).unwrap();
                match_cpes(&feed, p, &pattern).1
            })
            .collect()
    });

    let many_workers = rayon::ThreadPoolBuilder::new()
        .num_threads(4)
        .build()
        .unwrap();
    let four: Vec<Vec<String>> = many_workers.install(|| {
        pkgs.par_iter()
            .map(|p| {
                let pattern = get_regex_pattern(&[p.clone()]).unwrap();
                match_cpes(&feed, p, &pattern).1
            })
            .collect()
    });

    assert_eq!(sequential, one);
    assert_eq!(one, four);
}

#[test]
fn it_should_isolate_a_pattern_failure_to_its_package() {
    let feed = strings(&[
        "cpe:2.3:a:busybox:busybox:1.29.3:*:*:*:*:*:*:*",
        "cpe:2.3:a:xmlsoft:libxml2:2.9.10:*:*:*:*:*:*:*",
    ]);
    let broken = pkg("broken", "1.0");
    let healthy = pkg("busybox", "1.29.3");

    let (_, broken_matches) = match_cpes(&feed, &broken, "(");
    assert!(broken_matches.is_empty());

    let pattern = get_regex_pattern(&[healthy.clone()]).unwrap();
    let (_, healthy_matches) = match_cpes(&feed, &healthy, &pattern);
    assert_eq!(
        healthy_matches,
        strings(&["cpe:2.3:a:busybox:busybox:1.29.3:*:*:*:*:*:*:*"])
    );
}

#[test]
fn it_should_match_an_example_batch_end_to_end() {
    let raw_lines = strings(&[
        "\"cpe23Uri\" : \"cpe:2.3:a:busybox:busybox:1.29.3:*:*:*:*:*:*:*\"",
        "\"cpe23Uri\" : \"cpe:2.3:a:xmlsoft:libxml2:2.9.10:*:*:*:*:*:*:*\"",
    ]);
    let feed = load_feed(&raw_lines);
    assert_eq!(feed.len(), 2);

    let pkgs = vec![pkg("busybox", "1.29.3"), pkg("nonexistent", "1.0")];
    let results = match_batch(&feed, &pkgs);
    assert_eq!(results.len(), 2);
    assert_eq!(results[0].0.render(), "busybox-1.29.3");
    assert_eq!(
        results[0].1,
        strings(&["cpe:2.3:a:busybox:busybox:1.29.3:*:*:*:*:*:*:*"])
    );
    assert!(results[1].1.is_empty());
}

#[test]
fn it_should_grep_distinct_values_from_raw_lines() {
    let lines = strings(&[
        "\"cpe23Uri\" : \"cpe:2.3:a:busybox:busybox:1.29.3:*:*:*:*:*:*:*\",",
        "\"cpe23Uri\" : \"cpe:2.3:a:busybox:busybox:1.29.3:*:*:*:*:*:*:*\"",
        "\"cpe23Uri\" : \"cpe:2.3:a:xmlsoft:libxml2:2.9.10:*:*:*:*:*:*:*\"",
    ]);
    let pattern = get_regex_pattern(&[pkg("busybox", "1.29.3")]).unwrap();
    let matched = grep(&lines, &pattern).unwrap();
    assert_eq!(
        matched,
        strings(&["cpe:2.3:a:busybox:busybox:1.29.3:*:*:*:*:*:*:*"])
    );
    assert!(grep(&lines, "(").is_err());
}
