use rustkr::config::PageError;
use rustkr::config::RustKrConfig;
use rustkr::handler::handle_index_page;
use rustkr::handler::handle_list_pages;
use rustkr::handler::render_page;
use rustkr::listing::Entry;

fn config_with(template: &str) -> RustKrConfig {
    RustKrConfig::new(8000, "docs".to_owned(), template.to_owned()).unwrap()
}

fn config() -> RustKrConfig {
    config_with("<html><head><title>{{title}}</title></head><body>{{{content}}}</body></html>")
}

fn body_text(body: Vec<u8>) -> String {
    String::from_utf8(body).unwrap()
}

#[test]
fn new_refuses_partials_and_delimiter_changes() {
    assert!(RustKrConfig::new(8000, "docs".to_owned(), "a {{> other}} b".to_owned()).is_none());
    assert!(RustKrConfig::new(8000, "docs".to_owned(), "a {{=<% %>=}} b".to_owned()).is_none());
    assert!(RustKrConfig::new(8000, "docs".to_owned(), "a {{title}} b".to_owned()).is_some());
}

#[test]
fn new_refuses_implicit_iterator_tags() {
    let refused = [
        "{{.}}",
        "{{ . }}",
        "{{\t.\n}}",
        "a {{&.}} b",
        "a {{& . }} b",
        "{{{.}}}",
        "{{{ . }}}",
    ];
    for tmpl in refused {
        assert!(RustKrConfig::new(8000, "docs".to_owned(), tmpl.to_owned()).is_none());
    }
    let accepted = ["{{.x}}", "{{a.b}}", "{{..}}", "a.b {.} x", "{{! a . b }}"];
    for tmpl in accepted {
        assert!(RustKrConfig::new(8000, "docs".to_owned(), tmpl.to_owned()).is_some());
    }
}

#[test]
fn dotted_paths_render_without_output() {
    let cfg = config_with("[{{a.b}}{{..}}{{.x}}]{{title}}");
    let resp = render_page(&cfg, "abc", Some("hi".to_owned()));
    assert_eq!(resp.status, 200);
    assert_eq!(body_text(resp.body), "[]abc");
}

#[test]
fn template_support_boundaries() {
    assert!(RustKrConfig::new(8000, "docs".to_owned(), "{{>".to_owned()).is_none());
    assert!(RustKrConfig::new(8000, "docs".to_owned(), "body {{=".to_owned()).is_none());
    assert!(RustKrConfig::new(8000, "docs".to_owned(), "{{".to_owned()).is_some());
    assert!(RustKrConfig::new(8000, "docs".to_owned(), "".to_owned()).is_some());
    assert!(RustKrConfig::new(8000, "docs".to_owned(), "a > b {=x=}".to_owned()).is_some());
}

#[test]
fn read_page_renders_markdown() {
    let cfg = config();
    let html = cfg.read_page("page", Some("# Hi".to_owned())).unwrap();
    assert!(html.contains("<h1>Hi</h1>"));
}

#[test]
fn read_page_not_found_cases() {
    let cfg = config();
    assert_eq!(cfg.read_page("page", None), Err(PageError::NotFound));
    assert_eq!(
        cfg.read_page("bad title", Some("text".to_owned())),
        Err(PageError::NotFound)
    );
}

#[test]
fn missing_page_is_404_with_placeholder() {
    let cfg = config();
    let resp = render_page(&cfg, "nonexistent", None);
    assert_eq!(resp.status, 404);
    assert!(resp.content_type_html);
    let text = body_text(resp.body);
    assert!(text.contains("헐"));
    assert!(text.contains("Not Found"));
}

#[test]
fn invalid_title_is_also_404() {
    let cfg = config();
    let resp = render_page(&cfg, "a b", Some("never read".to_owned()));
    assert_eq!(resp.status, 404);
    assert!(body_text(resp.body).contains("헐"));
}

#[test]
fn existing_page_is_200_with_heading() {
    let cfg = config();
    let resp = render_page(&cfg, "index", Some("# Hello".to_owned()));
    assert_eq!(resp.status, 200);
    assert!(resp.content_type_html);
    assert!(body_text(resp.body).contains("<h1>Hello</h1>"));
}

#[test]
fn index_route_serves_the_index_page() {
    let cfg = config();
    let resp = handle_index_page(&cfg, Some("welcome *here*".to_owned()));
    assert_eq!(resp.status, 200);
    assert!(body_text(resp.body).contains("<em>here</em>"));
}

#[test]
fn pipeline_substitutes_exactly() {
    let cfg = config_with("T:{{title}};C:{{{content}}}");
    let resp = render_page(&cfg, "abc", Some("hi".to_owned()));
    assert_eq!(resp.status, 200);
    assert_eq!(body_text(resp.body), "T:abc;C:<p>hi</p>\n");
}

#[test]
fn content_length_is_body_length() {
    let cfg = config();
    let resp = render_page(&cfg, "index", Some("text".to_owned()));
    assert_eq!(resp.content_length(), resp.body.len());
}

#[test]
fn listing_route_is_200_and_sorted() {
    let cfg = config();
    let entries = vec![
        Entry { name: "foo.md".to_owned(), is_dir: false },
        Entry { name: "bar.md".to_owned(), is_dir: false },
    ];
    let resp = handle_list_pages(&cfg, Some(&entries));
    assert_eq!(resp.status, 200);
    let text = body_text(resp.body);
    assert!(text.contains("모든 문서"));
    let bar = text.find("<li><a href=\"/pages/bar\">bar</a></li>").unwrap();
    let foo = text.find("<li><a href=\"/pages/foo\">foo</a></li>").unwrap();
    assert!(bar < foo);
}

#[test]
fn listing_route_without_directory_is_200() {
    let cfg = config();
    let resp = handle_list_pages(&cfg, None);
    assert_eq!(resp.status, 200);
    assert!(body_text(resp.body).contains("No pages found"));
}

#[test]
fn bad_request_page_is_400() {
    let cfg = config();
    let resp = cfg.show_bad_request().unwrap();
    assert_eq!(resp.status, 400);
    assert!(body_text(resp.body).contains("Bad request"));
}

#[test]
fn broken_template_is_500_with_partial_output() {
    let cfg = config_with("start {{#unclosed}}");
    let resp = render_page(&cfg, "abc", Some("text".to_owned()));
    assert_eq!(resp.status, 500);
    assert!(!resp.content_type_html);
    assert_eq!(resp.body, Vec::<u8>::new());
}

#[test]
fn rendering_twice_is_byte_identical() {
    let cfg = config();
    let r1 = render_page(&cfg, "index", Some("# Same\n\ntext".to_owned()));
    let r2 = render_page(&cfg, "index", Some("# Same\n\ntext".to_owned()));
    assert_eq!(r1.status, r2.status);
    assert_eq!(r1.content_type_html, r2.content_type_html);
    assert_eq!(r1.body, r2.body);

    let cfg2 = config();
    let entries = vec![Entry { name: "a.md".to_owned(), is_dir: false }];
    let l1 = handle_list_pages(&cfg2, Some(&entries));
    let l2 = handle_list_pages(&cfg2, Some(&entries));
    assert_eq!(l1.body, l2.body);
}
