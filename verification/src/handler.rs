//! The request handlers: from a route's inputs to one HTTP response.
//!
//! Each handler takes the configuration plus the outcome of the one outside
//! read the route needs — the page file's text, or a snapshot of the
//! document directory — and returns the status, body and content type of
//! the response. The surrounding program does the reading and the sending.

use vstd::prelude::*;

use crate::config::Ctx;
use crate::config::PageError;
use crate::config::RustKrConfig;
use crate::listing::dir_view;
use crate::listing::listing_of;
use crate::listing::Entry;
use crate::markdown::html_of;
use crate::template::mustache_render;
use crate::template::Response;
use crate::title::valid_title;

verus! {

/// The view of the optional file text a handler was given.
pub open spec fn text_view(raw: Option<String>) -> Option<Seq<char>> {
    match raw {
        Some(t) => Some(t@),
        None => None,
    }
}

/// What a page request renders and with which status on success: the page
/// itself when the title is valid and its file was read, the not-found page
/// otherwise.
pub open spec fn page_outcome(tmpl: Seq<char>, title: Seq<char>, raw: Option<Seq<char>>) -> (Result<
    Seq<u8>,
    Seq<u8>,
>, u16) {
    match raw {
        Some(text) => if valid_title(title) {
            (mustache_render(tmpl, title, html_of(text)), 200)
        } else {
            (mustache_render(tmpl, "Not Found"@, "헐"@), 404)
        },
        None => (mustache_render(tmpl, "Not Found"@, "헐"@), 404),
    }
}

/// The response a handler owes for a rendering outcome: the rendered bytes
/// as HTML under the given status, or the partial output under a server
/// error.
pub open spec fn response_matches(r: Response, m: Result<Seq<u8>, Seq<u8>>, ok_status: u16) -> bool {
    match m {
        Ok(bytes) => r.status == ok_status && r.body@ == bytes && r.content_type_html,
        Err(partial) => r.status == 500 && r.body@ == partial && !r.content_type_html,
    }
}

/// Serves one page: `raw` is the text of the page's file, or nothing when
/// it was missing, unreadable, or never looked up because the title is
/// invalid.
pub fn render_page(cfg: &RustKrConfig, title: &str, raw: Option<String>) -> (r: Response)
    requires
        cfg.wf(),
    ensures
        response_matches(
            r,
            page_outcome(cfg.template@, title@, text_view(raw)).0,
            page_outcome(cfg.template@, title@, text_view(raw)).1,
        ),
{
    let outcome = match cfg.read_page(title, raw) {
        Ok(content) => cfg.show_template(&Ctx { title: title.to_owned(), content }),
        Err(PageError::NotFound) => cfg.show_not_found(),
    };
    match outcome {
        Ok(resp) => resp,
        Err(resp) => resp,
    }
}

/// The front page: the page titled `index`.
pub fn handle_index_page(cfg: &RustKrConfig, raw: Option<String>) -> (r: Response)
    requires
        cfg.wf(),
    ensures
        response_matches(
            r,
            page_outcome(cfg.template@, "index"@, text_view(raw)).0,
            page_outcome(cfg.template@, "index"@, text_view(raw)).1,
        ),
{
    render_page(cfg, "index", raw)
}

/// The listing routes: the page list rendered through the template, always
/// a success unless the template itself fails.
pub fn handle_list_pages(cfg: &RustKrConfig, dir: Option<&Vec<Entry>>) -> (r: Response)
    requires
        cfg.wf(),
    ensures
        response_matches(
            r,
            mustache_render(cfg.template@, "모든 문서"@, listing_of(dir_view(dir))),
            200,
        ),
{
    let content = cfg.list_pages(dir);
    let ctx = Ctx { title: "모든 문서".to_owned(), content };
    match cfg.show_template(&ctx) {
        Ok(resp) => resp,
        Err(resp) => resp,
    }
}

/// Law: a page's response is a function of the template, the title and the
/// file text alone — rendering twice with unchanged file content yields
/// byte-identical output, status and content type.
pub proof fn lemma_render_page_deterministic(
    cfg: RustKrConfig,
    title: Seq<char>,
    raw: Option<Seq<char>>,
    r1: Response,
    r2: Response,
)
    requires
        response_matches(
            r1,
            page_outcome(cfg.template@, title, raw).0,
            page_outcome(cfg.template@, title, raw).1,
        ),
        response_matches(
            r2,
            page_outcome(cfg.template@, title, raw).0,
            page_outcome(cfg.template@, title, raw).1,
        ),
    ensures
        r1.status == r2.status,
        r1.body@ == r2.body@,
        r1.content_type_html == r2.content_type_html,
{
}

} // verus!
