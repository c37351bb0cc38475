//! The document composer: wraps a rendered fragment (or the fixed 404 or
//! render-failure fragment) into a complete HTML document and frames it as an
//! HTTP response whose `Content-Length` is the exact byte length of the body.

use crate::markdown_loader::{indent_of, title_of, MarkdownLoader};
use crate::text::{dec_of, trim_of};
use vstd::prelude::*;
use vstd::utf8::encode_utf8;

verus! {

/// The complete document: the template with the title, the description, the
/// stylesheet and the fragment spliced in (the title and the description
/// appear once more each in the metadata block).
pub open spec fn doc_of(title: Seq<char>, desc: Seq<char>, css: Seq<char>, html: Seq<char>) -> Seq<
    char,
> {
    "\n<!DOCTYPE html>\n<head>\n    <title>"@ + title
        + "</title>\n    <meta charset='utf-8'>\n    <meta name=\"viewport\" content=\"width=device-width, initial-scale=1\">\n    <meta name=\"description\" content=\""@
        + desc + "\">\n    <meta property=\"og:title\" content=\""@ + title
        + "\">\n    <meta property=\"og:description\" content=\""@ + desc + "\">\n\n    "@ + css
        + "\n</head>\n\n<body>\n    <html lang=\"en\">\n"@ + html + "\n    </html>\n</body>"@
}

/// The byte length of a document under UTF-8, the encoding the server
/// writes responses in.
pub open spec fn byte_len(body: Seq<char>) -> nat {
    encode_utf8(body).len()
}

/// A page response: status line, a `Content-Length` header holding the exact
/// byte length of the body, a blank line, the body.
pub open spec fn response_of(status: Seq<char>, body: Seq<char>) -> Seq<char> {
    status + "\r\nContent-Length: "@ + dec_of((byte_len(body) as usize) as nat) + "\r\n\r\n"@
        + body
}

/// The response for a page that exists and rendered.
pub open spec fn ok_response(
    title: Seq<char>,
    desc: Seq<char>,
    css: Seq<char>,
    frag: Seq<char>,
) -> Seq<char> {
    response_of("HTTP/1.1 200 OK"@, doc_of(title, desc, css, frag))
}

/// The response for a page whose resolved file does not exist; no field of
/// it depends on the requested key.
pub open spec fn not_found_response(desc: Seq<char>, css: Seq<char>) -> Seq<char> {
    response_of(
        "HTTP/1.1 404 PAGE_NOT_FOUND"@,
        doc_of("404"@, desc, css, "<h1>Error: 404</h1><p>Page not found.</p>"@),
    )
}

/// The response for a page whose render failed.
pub open spec fn error_response(desc: Seq<char>, css: Seq<char>) -> Seq<char> {
    response_of(
        "HTTP/1.1 500 INTERNAL_SERVER_ERROR"@,
        doc_of("500"@, desc, css, "<h1>Error: 500</h1><p>Failed to render the page.</p>"@),
    )
}

/// The `Content-Length` sent is exactly the byte length of the body: the
/// rendered digits are the decimal form of `byte_len(body)` whenever that
/// length is representable at all.
pub proof fn lemma_content_length_exact(status: Seq<char>, body: Seq<char>)
    requires
        byte_len(body) <= usize::MAX,
    ensures
        response_of(status, body) == status + "\r\nContent-Length: "@ + dec_of(byte_len(body))
            + "\r\n\r\n"@ + body,
{
}

/// Every response opens with its status line: the bytes before the first
/// CRLF are exactly the status the composer chose.
pub proof fn lemma_response_status(status: Seq<char>, body: Seq<char>)
    ensures
        response_of(status, body).subrange(0, status.len() as int) =~= status,
{
}

/// Whether `part` appears as a contiguous run somewhere in `whole`.
pub open spec fn occurs_in(part: Seq<char>, whole: Seq<char>) -> bool {
    exists|i: int|
        0 <= i && i + part.len() <= whole.len() && #[trigger] whole.subrange(i, i + part.len())
            == part
}

/// The composed document holds the title and the fragment, each spliced in
/// at a fixed place of the template.
pub proof fn lemma_doc_embeds(title: Seq<char>, desc: Seq<char>, css: Seq<char>, html: Seq<char>)
    ensures
        occurs_in(title, doc_of(title, desc, css, html)),
        occurs_in(html, doc_of(title, desc, css, html)),
{
    let d = doc_of(title, desc, css, html);
    let p0 = "\n<!DOCTYPE html>\n<head>\n    <title>"@;
    let i = p0.len() as int;
    assert(d.subrange(i, i + title.len()) =~= title);
    let j = d.len() - "\n    </html>\n</body>"@.len() - html.len();
    assert(d.subrange(j, j + html.len()) =~= html);
}

/// Builds the full document around a rendered fragment. The first argument
/// is the display title.
pub fn format_html(page_name: &str, description: String, css: String, html: String) -> (r: String)
    ensures
        r@ == doc_of(page_name@, description@, css@, html@),
{
    let mut r = String::new();
    r.append("\n<!DOCTYPE html>\n<head>\n    <title>");
    r.append(page_name);
    r.append(
        "</title>\n    <meta charset='utf-8'>\n    <meta name=\"viewport\" content=\"width=device-width, initial-scale=1\">\n    <meta name=\"description\" content=\"",
    );
    r.append(description.as_str());
    r.append("\">\n    <meta property=\"og:title\" content=\"");
    r.append(page_name);
    r.append("\">\n    <meta property=\"og:description\" content=\"");
    r.append(description.as_str());
    r.append("\">\n\n    ");
    r.append(css.as_str());
    r.append("\n</head>\n\n<body>\n    <html lang=\"en\">\n");
    r.append(html.as_str());
    r.append("\n    </html>\n</body>");
    proof {
        assert(r@ =~= doc_of(page_name@, description@, css@, html@));
    }
    r
}

/// Frames a document as an HTTP response with its exact byte length.
fn respond(status: &str, body: &str) -> (r: String)
    ensures
        r@ == response_of(status@, body@),
{
    let mut r = String::new();
    r.append(status);
    r.append("\r\nContent-Length: ");
    let digits = crate::text::dec_str(body.len());
    r.append(digits.as_str());
    r.append("\r\n\r\n");
    r.append(body);
    proof {
        assert(r@ =~= response_of(status@, body@));
    }
    r
}

/// Composes the response for a page request. The caller supplies, besides
/// the loader, the raw description text, the raw source text of the resolved
/// page (empty when unreadable, used only for the title), the stylesheet,
/// and the renderer's outcome for the resolved source file — consulted only
/// where the freshness policy demands it (see `MarkdownLoader::needs_render`).
///
/// Only the existence check on the resolved file is left open: when the
/// file is missing the response is the fixed 404 document (never for the
/// empty key, which always exists); when it exists, the response follows
/// the cache policy exactly — a cached fragment off live mode yields the
/// 200 response untouched by `rendered`, and otherwise `rendered` decides
/// between the 200 response (entry overwritten) and the fixed
/// render-failure response (cache untouched).
pub fn compose_html(
    page_name: &str,
    markdown_loader: &mut MarkdownLoader,
    description: &str,
    source: &str,
    css: &str,
    rendered: Option<String>,
) -> (r: String)
    requires
        old(markdown_loader).wf(),
    ensures
        final(markdown_loader).wf(),
        final(markdown_loader).root() == old(markdown_loader).root(),
        final(markdown_loader).live() == old(markdown_loader).live(),
        ({
            ||| (r@ == not_found_response(trim_of(description@), css@) && page_name@.len() != 0
                && final(markdown_loader).cache_map() == old(markdown_loader).cache_map()
                && final(markdown_loader).render_count() == old(markdown_loader).render_count())
            ||| ({
                &&& (!old(markdown_loader).live()
                    && old(markdown_loader).cache_map().contains_key(page_name@)) ==> {
                    &&& r@ == ok_response(
                        title_of(source@),
                        trim_of(description@),
                        css@,
                        indent_of(old(markdown_loader).cache_map()[page_name@]),
                    )
                    &&& final(markdown_loader).cache_map() == old(markdown_loader).cache_map()
                    &&& final(markdown_loader).render_count()
                        == old(markdown_loader).render_count()
                }
                &&& (old(markdown_loader).live()
                    || !old(markdown_loader).cache_map().contains_key(page_name@)) ==> {
                    &&& final(markdown_loader).render_count()
                        == old(markdown_loader).render_count() + 1
                    &&& match rendered {
                        Some(html) => r@ == ok_response(
                            title_of(source@),
                            trim_of(description@),
                            css@,
                            indent_of(html@),
                        ) && final(markdown_loader).cache_map()
                            =~= old(markdown_loader).cache_map().insert(page_name@, html@),
                        None => r@ == error_response(trim_of(description@), css@)
                            && final(markdown_loader).cache_map()
                            == old(markdown_loader).cache_map(),
                    }
                }
            })
        }),
{
    let page_exists = markdown_loader.validate_page(page_name);
    let desc = crate::text::trim_spaces(description);
    if page_exists {
        let title = markdown_loader.get_page_name(source);
        match markdown_loader.load_page(page_name, rendered) {
            Ok(fragment) => {
                let doc = format_html(
                    title.as_str(),
                    desc,
                    String::from_str(css),
                    fragment,
                );
                respond("HTTP/1.1 200 OK", doc.as_str())
            },
            Err(_) => {
                let doc = format_html(
                    "500",
                    desc,
                    String::from_str(css),
                    String::from_str("<h1>Error: 500</h1><p>Failed to render the page.</p>"),
                );
                respond("HTTP/1.1 500 INTERNAL_SERVER_ERROR", doc.as_str())
            },
        }
    } else {
        let doc = format_html(
            "404",
            desc,
            String::from_str(css),
            String::from_str("<h1>Error: 404</h1><p>Page not found.</p>"),
        );
        respond("HTTP/1.1 404 PAGE_NOT_FOUND", doc.as_str())
    }
}

} // verus!
