// These tests run the real renderer on a real on-disk file and hand its
// outcome to the library, as the server does. Any readable text file does
// as a root document: the empty page key always resolves to the configured
// root path, whatever it is.

use std::path::Path;
use tweb::html_composer::compose_html;
use tweb::markdown_loader::MarkdownLoader;

fn existing_source() -> String {
    let candidates = [
        "Cargo.toml",
        "crate/Cargo.toml",
        "../Cargo.toml",
        "../crate/Cargo.toml",
        "src/lib.rs",
        "../src/lib.rs",
        "tests/serving.rs",
    ];
    for c in candidates {
        if Path::new(c).is_file() {
            return String::from(c);
        }
    }
    panic!("no readable source file found near the test's working directory");
}

fn render(path: &str) -> Option<String> {
    markdown::file_to_html(Path::new(path)).ok()
}

#[test]
fn the_root_document_renders() {
    let root = existing_source();
    let mut loader = MarkdownLoader::new(false);
    loader.set_path(root.clone());
    let fragment = loader.load_page("", render(&root)).expect("the root document must render");
    assert!(!fragment.is_empty());
    for line in fragment.lines() {
        assert!(line.starts_with("    "), "every rendered line is indented");
    }
}

#[test]
fn repeated_loads_serve_identical_bytes() {
    let root = existing_source();
    let mut loader = MarkdownLoader::new(false);
    loader.set_path(root.clone());
    let first = loader.load_page("", render(&root)).expect("the root document must render");
    // the cache serves the second call; no render outcome is needed
    let second = loader.load_page("", None).expect("the cached document must be served");
    assert_eq!(first, second);
}

#[test]
fn live_mode_serves_the_fresh_render_every_time() {
    let root = existing_source();
    let mut loader = MarkdownLoader::new(true);
    loader.set_path(root.clone());
    let first = loader.load_page("", render(&root)).expect("the root document must render");
    let second = loader.load_page("", render(&root)).expect("the re-rendered document too");
    assert_eq!(first, second);
}

#[test]
fn an_existing_page_composes_to_a_full_ok_response() {
    let root = existing_source();
    let mut loader = MarkdownLoader::new(false);
    loader.set_path(root.clone());
    let r = compose_html("", &mut loader, " desc ", "# Hello World\nBody.\n", "css{}", render(&root));
    assert!(r.starts_with("HTTP/1.1 200 OK\r\nContent-Length: "));
    assert!(r.contains("<title>Hello World</title>"));
    let header_end = r.find("\r\n\r\n").unwrap();
    let body = &r[header_end + 4..];
    let marker = "Content-Length: ";
    let start = r.find(marker).unwrap() + marker.len();
    let end = r[start..].find('\r').unwrap() + start;
    let declared: usize = r[start..end].parse().unwrap();
    assert_eq!(declared, body.len());
}
