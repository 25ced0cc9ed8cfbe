use rustkr::config::RustKrConfig;
use rustkr::listing::Entry;
use rustkr::title::is_bad_title;

fn entry(name: &str, is_dir: bool) -> Entry {
    Entry { name: name.to_owned(), is_dir }
}

fn config() -> RustKrConfig {
    RustKrConfig::new(
        8000,
        "docs".to_owned(),
        "<html><body><h2>{{title}}</h2>{{{content}}}</body></html>".to_owned(),
    )
    .unwrap()
}

#[test]
fn valid_titles_pass() {
    assert!(!is_bad_title("abc"));
    assert!(!is_bad_title("A"));
    assert!(!is_bad_title("AZaz09_-"));
    assert!(!is_bad_title("index"));
    assert!(!is_bad_title("0"));
}

#[test]
fn invalid_titles_fail() {
    assert!(is_bad_title(""));
    assert!(is_bad_title("a b"));
    assert!(is_bad_title("a.b"));
    assert!(is_bad_title("a/b"));
    assert!(is_bad_title("../a"));
    assert!(is_bad_title("한글"));
    assert!(is_bad_title("a\tb"));
    assert!(is_bad_title("a!"));
}

#[test]
fn config_method_agrees_with_validator() {
    let cfg = config();
    assert!(!cfg.is_bad_title("page-1"));
    assert!(cfg.is_bad_title("page 1"));
}

#[test]
fn listing_is_sorted_and_linked() {
    let cfg = config();
    let entries = vec![entry("foo.md", false), entry("bar.md", false)];
    let out = cfg.list_pages(Some(&entries));
    assert_eq!(
        out,
        "<ul>\n<li><a href=\"/pages/bar\">bar</a></li><li><a href=\"/pages/foo\">foo</a></li></ul>"
    );
}

#[test]
fn listing_keeps_directory_input_order_out() {
    let cfg = config();
    let a = cfg.list_pages(Some(&vec![entry("b.md", false), entry("a.md", false)]));
    let b = cfg.list_pages(Some(&vec![entry("a.md", false), entry("b.md", false)]));
    assert_eq!(a, b);
    assert_eq!(
        a,
        "<ul>\n<li><a href=\"/pages/a\">a</a></li><li><a href=\"/pages/b\">b</a></li></ul>"
    );
}

#[test]
fn listing_skips_non_pages() {
    let cfg = config();
    let entries = vec![
        entry("sub.md", true),
        entry("plain.txt", false),
        entry("noext", false),
        entry(".md", false),
        entry("a b.md", false),
        entry("dot.name.md", false),
        entry("ok.md", false),
    ];
    let out = cfg.list_pages(Some(&entries));
    assert_eq!(out, "<ul>\n<li><a href=\"/pages/ok\">ok</a></li></ul>");
}

#[test]
fn listing_takes_stems_only_from_md_files() {
    let cfg = config();
    let entries = vec![entry("a.txt", false), entry("a.md", false)];
    let out = cfg.list_pages(Some(&entries));
    assert_eq!(out, "<ul>\n<li><a href=\"/pages/a\">a</a></li></ul>");
}

#[test]
fn listing_empty_and_missing_directory() {
    let cfg = config();
    assert_eq!(cfg.list_pages(Some(&vec![])), "No pages found");
    assert_eq!(cfg.list_pages(None), "No pages found");
    let only_junk = vec![entry("x.txt", false), entry("d.md", true)];
    assert_eq!(cfg.list_pages(Some(&only_junk)), "No pages found");
}

#[test]
fn page_path_joins_or_refuses() {
    let cfg = config();
    assert_eq!(cfg.page_path("foo"), Some("docs/foo.md".to_owned()));
    assert_eq!(cfg.page_path("../secret"), None);
    assert_eq!(cfg.page_path(""), None);
}
