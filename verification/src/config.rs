//! The server configuration and the page operations it carries.
//!
//! A `RustKrConfig` is built once at startup and then only read: the port,
//! the document directory, and the template source. Its well-formedness —
//! the template uses no partial or delimiter-change tags — is what lets the
//! rendering contracts speak of the output as a function of the texts alone.

use vstd::prelude::*;
use vstd::string::StringExecFns;

use crate::listing::dir_view;
use crate::listing::listing_of;
use crate::listing::render_listing;
use crate::listing::Entry;
use crate::markdown::html_of;
use crate::markdown::to_html;
use crate::template::check_template_supported;
use crate::template::mustache_render;
use crate::template::render_template;
use crate::template::template_outcome_matches;
use crate::template::template_supported;
use crate::template::Response;
use crate::title::is_bad_title;
use crate::title::valid_title;

verus! {

/// Why a page could not be produced. Failed validation and a missing or
/// unreadable file are deliberately not told apart, so that the response
/// does not leak which of the two happened.
#[derive(Debug, PartialEq, Eq, Structural)]
pub enum PageError {
    NotFound,
}

/// The two values substituted into the template for one render.
pub struct Ctx {
    pub content: String,
    pub title: String,
}

/// The process-wide configuration: read-only once built.
#[derive(Clone)]
pub struct RustKrConfig {
    pub port: u16,
    pub doc_dir: String,
    pub template: String,
}

impl RustKrConfig {
    /// The configuration's invariant: the template source is one the
    /// library's rendering contracts cover.
    pub open spec fn wf(self) -> bool {
        template_supported(self.template@)
    }

    /// Builds the configuration, refusing a template source whose rendering
    /// would depend on more than the texts handed in, or would not return
    /// at all.
    pub fn new(port: u16, doc_dir: String, template: String) -> (r: Option<RustKrConfig>)
        ensures
            r is Some <==> template_supported(template@),
            r matches Some(c) ==> c.port == port && c.doc_dir@ == doc_dir@ && c.template@
                == template@ && c.wf(),
    {
        if check_template_supported(template.as_str()) {
            Some(RustKrConfig { port, doc_dir, template })
        } else {
            None
        }
    }

    /// Rejects a title that is unsafe to use as a file name.
    pub fn is_bad_title(&self, title: &str) -> (r: bool)
        ensures
            r == !valid_title(title@),
    {
        is_bad_title(title)
    }

    /// The path of the file that holds a page, for the surrounding program
    /// to read; no path at all for an invalid title, so that no unsafe name
    /// ever reaches the file system.
    pub fn page_path(&self, title: &str) -> (r: Option<String>)
        ensures
            valid_title(title@) ==> (r matches Some(p) && p@ == self.doc_dir@ + "/"@ + title@
                + ".md"@),
            !valid_title(title@) ==> r is None,
    {
        if is_bad_title(title) {
            return None;
        }
        let mut path = self.doc_dir.clone();
        path.append("/");
        path.append(title);
        path.append(".md");
        Some(path)
    }

    /// Turns a page's raw text into its HTML fragment. `raw` is what the
    /// surrounding program read from the page's file, or nothing when the
    /// file was missing or unreadable; either failure and an invalid title
    /// all come out as the one `NotFound`.
    pub fn read_page(&self, title: &str, raw: Option<String>) -> (r: Result<String, PageError>)
        ensures
            match raw {
                Some(text) => if valid_title(title@) {
                    r matches Ok(h) && h@ == html_of(text@)
                } else {
                    r matches Err(e) && e == PageError::NotFound
                },
                None => r matches Err(e) && e == PageError::NotFound,
            },
    {
        if is_bad_title(title) {
            return Err(PageError::NotFound);
        }
        match raw {
            Some(text) => Ok(to_html(text.as_str())),
            None => Err(PageError::NotFound),
        }
    }

    /// Renders a context through the template: a success keeps the rendered
    /// bytes and the `text/html` content type, a failure keeps whatever
    /// partial output the renderer produced, behind a server error.
    pub fn show_template(&self, ctx: &Ctx) -> (r: Result<Response, Response>)
        requires
            self.wf(),
        ensures
            template_outcome_matches(
                mustache_render(self.template@, ctx.title@, ctx.content@),
                200,
                r,
            ),
    {
        match render_template(self.template.as_str(), ctx.title.as_str(), ctx.content.as_str()) {
            Ok(body) => Ok(
                Response { status: 200, body, content_type_html: true },
            ),
            Err(partial) => Err(
                Response { status: 500, body: partial, content_type_html: false },
            ),
        }
    }

    /// The not-found page, rendered through the same template.
    pub fn show_not_found(&self) -> (r: Result<Response, Response>)
        requires
            self.wf(),
        ensures
            template_outcome_matches(
                mustache_render(self.template@, "Not Found"@, "헐"@),
                404,
                r,
            ),
    {
        let ctx = Ctx { title: "Not Found".to_owned(), content: "헐".to_owned() };
        match self.show_template(&ctx) {
            Ok(mut resp) => {
                resp.status = 404;
                Ok(resp)
            },
            Err(resp) => Err(resp),
        }
    }

    /// The bad-request page: an error-rendering mode kept available even
    /// though no route is wired to it.
    pub fn show_bad_request(&self) -> (r: Result<Response, Response>)
        requires
            self.wf(),
        ensures
            template_outcome_matches(
                mustache_render(self.template@, "Bad request"@, "헐"@),
                400,
                r,
            ),
    {
        let ctx = Ctx { title: "Bad request".to_owned(), content: "헐".to_owned() };
        match self.show_template(&ctx) {
            Ok(mut resp) => {
                resp.status = 400;
                Ok(resp)
            },
            Err(resp) => Err(resp),
        }
    }

    /// The listing body for a snapshot of the document directory.
    pub fn list_pages(&self, dir: Option<&Vec<Entry>>) -> (r: String)
        ensures
            r@ == listing_of(dir_view(dir)),
    {
        render_listing(dir)
    }
}

} // verus!
