use tweb::html_composer::{compose_html, format_html};
use tweb::markdown_loader::MarkdownLoader;
use tweb::text::{dec_str, trim_spaces};

fn expected_doc(title: &str, desc: &str, css: &str, html: &str) -> String {
    format!(
        "
<!DOCTYPE html>
<head>
    <title>{0}</title>
    <meta charset='utf-8'>
    <meta name=\"viewport\" content=\"width=device-width, initial-scale=1\">
    <meta name=\"description\" content=\"{1}\">
    <meta property=\"og:title\" content=\"{0}\">
    <meta property=\"og:description\" content=\"{1}\">

    {2}
</head>

<body>
    <html lang=\"en\">
{3}
    </html>
</body>",
        title, desc, css, html
    )
}

#[test]
fn the_template_is_filled_exactly() {
    let r = format_html(
        "My Title",
        String::from("a description"),
        String::from("<style></style>"),
        String::from("    <h1>hi</h1>\n"),
    );
    assert_eq!(r, expected_doc("My Title", "a description", "<style></style>", "    <h1>hi</h1>\n"));
}

#[test]
fn a_missing_page_gets_the_fixed_not_found_response() {
    let mut loader = MarkdownLoader::new(false);
    let r = compose_html("no_such_page_here", &mut loader, " some words \n", "", "css{}", None);
    let doc = expected_doc("404", "some words", "css{}", "<h1>Error: 404</h1><p>Page not found.</p>");
    let expected = format!("HTTP/1.1 404 PAGE_NOT_FOUND\r\nContent-Length: {}\r\n\r\n{}", doc.len(), doc);
    assert_eq!(r, expected);
}

#[test]
fn the_not_found_body_does_not_depend_on_the_key() {
    let mut loader = MarkdownLoader::new(false);
    let a = compose_html("missing_one", &mut loader, "d", "", "c", None);
    let b = compose_html("missing_two", &mut loader, "d", "", "c", None);
    assert_eq!(a, b);
}

#[test]
fn a_root_render_failure_gets_the_error_response() {
    let mut loader = MarkdownLoader::new(false);
    loader.set_path(String::from("no_such_root_here.md"));
    let r = compose_html("", &mut loader, "", "ignored source has no title\n", "c{}", None);
    let doc = expected_doc("500", "", "c{}", "<h1>Error: 500</h1><p>Failed to render the page.</p>");
    let expected = format!("HTTP/1.1 500 INTERNAL_SERVER_ERROR\r\nContent-Length: {}\r\n\r\n{}", doc.len(), doc);
    assert_eq!(r, expected);
}

#[test]
fn a_rendered_page_composes_to_the_exact_ok_response() {
    let mut loader = MarkdownLoader::new(false);
    let r = compose_html(
        "",
        &mut loader,
        " some words ",
        "# My Page\ntext",
        "c{}",
        Some(String::from("<p>body</p>")),
    );
    let doc = expected_doc("My Page", "some words", "c{}", "    <p>body</p>\n");
    let expected = format!("HTTP/1.1 200 OK\r\nContent-Length: {}\r\n\r\n{}", doc.len(), doc);
    assert_eq!(r, expected);
}

#[test]
fn a_warm_cache_makes_composing_idempotent() {
    let mut loader = MarkdownLoader::new(false);
    let first = compose_html("", &mut loader, "d", "# T\n", "c", Some(String::from("<p>x</p>")));
    // identical arguments, warm cache: the render outcome is not consulted
    let second = compose_html("", &mut loader, "d", "# T\n", "c", None);
    let third = compose_html("", &mut loader, "d", "# T\n", "c", Some(String::from("<p>y</p>")));
    assert_eq!(first, second);
    assert_eq!(first, third);
}

#[test]
fn content_length_counts_the_exact_body_bytes() {
    let mut loader = MarkdownLoader::new(false);
    let r = compose_html("no_such_page_here", &mut loader, "d\u{e9}sc", "", "c", None);
    let header_end = r.find("\r\n\r\n").expect("response has a blank line");
    let body = &r[header_end + 4..];
    let marker = "Content-Length: ";
    let start = r.find(marker).expect("response has a Content-Length header") + marker.len();
    let end = r[start..].find('\r').unwrap() + start;
    let declared: usize = r[start..end].parse().unwrap();
    assert_eq!(declared, body.len());
}

#[test]
fn surrounding_whitespace_is_trimmed() {
    assert_eq!(trim_spaces("  a b \t\r\n"), "a b");
    assert_eq!(trim_spaces("\u{a0}a b\u{3000}"), "a b");
    assert_eq!(trim_spaces(""), "");
    assert_eq!(trim_spaces(" \n "), "");
    assert_eq!(trim_spaces("x"), "x");
}

#[test]
fn lengths_are_rendered_in_decimal() {
    assert_eq!(dec_str(0), "0");
    assert_eq!(dec_str(7), "7");
    assert_eq!(dec_str(1234), "1234");
    assert_eq!(dec_str(1000000), "1000000");
}
