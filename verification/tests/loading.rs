use tweb::markdown_loader::{indent_fragment, LoadError, MarkdownLoader};

#[test]
fn empty_key_resolves_to_the_root_path() {
    let mut loader = MarkdownLoader::new(false);
    loader.set_path(String::from("root.md"));
    assert_eq!(loader.resolve(""), "root.md");
}

#[test]
fn keys_get_the_markup_extension_appended() {
    let loader = MarkdownLoader::new(false);
    assert_eq!(loader.resolve("page"), "page.md");
    assert_eq!(loader.resolve("page.md"), "page.md");
    assert_eq!(loader.resolve("md"), "md.md");
    assert_eq!(loader.resolve(".md"), ".md");
}

#[test]
fn the_empty_key_always_exists() {
    let loader = MarkdownLoader::new(false);
    assert!(loader.validate_page(""));
}

#[test]
fn a_missing_file_does_not_validate() {
    let loader = MarkdownLoader::new(false);
    assert!(!loader.validate_page("no_such_page_here"));
}

#[test]
fn a_failed_render_reports_and_leaves_the_cache_untouched() {
    let mut loader = MarkdownLoader::new(false);
    assert!(matches!(loader.load_page("page", None), Err(LoadError::RenderFailure)));
    assert!(matches!(loader.load_page("", None), Err(LoadError::RenderFailure)));
    let ok = loader.load_page("page", Some(String::from("<p>x</p>"))).unwrap();
    assert_eq!(ok, "    <p>x</p>\n");
}

#[test]
fn a_fresh_render_is_indented_and_cached() {
    let mut loader = MarkdownLoader::new(false);
    let first = loader.load_page("page", Some(String::from("<h1>hi</h1>"))).unwrap();
    assert_eq!(first, "    <h1>hi</h1>\n");
    // the cache now decides: a different render outcome is not consulted
    let second = loader.load_page("page", Some(String::from("<h1>other</h1>"))).unwrap();
    assert_eq!(second, "    <h1>hi</h1>\n");
    // nor is a failed one
    let third = loader.load_page("page", None).unwrap();
    assert_eq!(third, "    <h1>hi</h1>\n");
}

#[test]
fn live_mode_consumes_every_render_outcome() {
    let mut loader = MarkdownLoader::new(true);
    let first = loader.load_page("page", Some(String::from("<p>one</p>"))).unwrap();
    assert_eq!(first, "    <p>one</p>\n");
    let second = loader.load_page("page", Some(String::from("<p>two</p>"))).unwrap();
    assert_eq!(second, "    <p>two</p>\n");
    assert!(matches!(loader.load_page("page", None), Err(LoadError::RenderFailure)));
}

#[test]
fn needs_render_follows_the_freshness_policy() {
    let mut loader = MarkdownLoader::new(false);
    assert!(loader.needs_render("page"));
    loader.load_page("page", Some(String::from("<p>x</p>"))).unwrap();
    assert!(!loader.needs_render("page"));
    assert!(loader.needs_render("other"));
    let mut live = MarkdownLoader::new(true);
    live.load_page("page", Some(String::from("<p>x</p>"))).unwrap();
    assert!(live.needs_render("page"));
}

#[test]
fn titles_come_from_the_first_line_after_the_first_space() {
    let loader = MarkdownLoader::new(false);
    assert_eq!(loader.get_page_name("# Hello World"), "Hello World");
    assert_eq!(loader.get_page_name("# Hello World\nmore text"), "Hello World");
    assert_eq!(loader.get_page_name("# Hello World\r\nmore text"), "Hello World");
    assert_eq!(loader.get_page_name("a b c\nrest"), "b c");
}

#[test]
fn title_derivation_falls_back_to_the_default() {
    let loader = MarkdownLoader::new(false);
    assert_eq!(loader.get_page_name(""), "Default title");
    assert_eq!(loader.get_page_name("no-space-here"), "Default title");
    assert_eq!(loader.get_page_name("no-space-here\nsecond line"), "Default title");
}

#[test]
fn fragments_are_indented_line_by_line() {
    assert_eq!(indent_fragment(""), "");
    assert_eq!(indent_fragment("a"), "    a\n");
    assert_eq!(indent_fragment("a\nb"), "    a\n    b\n");
    assert_eq!(indent_fragment("a\r\nb\n"), "    a\n    b\n");
    assert_eq!(indent_fragment("\n"), "    \n");
}

#[test]
fn live_mode_is_recorded() {
    assert!(MarkdownLoader::new(true).live_mode());
    assert!(!MarkdownLoader::new(false).live_mode());
    assert!(!MarkdownLoader::default().live_mode());
}
