use tagu::builder;
use tagu::elem::Elem;
use tagu::render;
use tagu::render::{InlineController, InlineSigl};
use tagu::tools::WriteWrap;

#[test]
fn empty_attribute_value_keeps_quotes() {
    let mut s = String::new();
    render(builder::single("r").with(("id", "")), &mut s).unwrap();
    assert_eq!(s, "<r id=\"\" />\n\n");
}

#[test]
fn empty_iterator_renders_nothing_but_the_closing_newline() {
    let mut s = String::new();
    render(
        builder::from_iter(Vec::<tagu::elem::Single<()>>::new()),
        &mut s,
    )
    .unwrap();
    assert_eq!(s, "\n");
}

#[test]
fn empty_path_renders_empty_quotes() {
    let mut s = String::new();
    render(builder::single("p").with(tagu::attr::Path::new(vec![])), &mut s).unwrap();
    assert_eq!(s, "<p d=\"\" />\n\n");
}

#[test]
fn with_map_builds_the_attribute_lazily() {
    let mut s = String::new();
    render(builder::elem("a").with_map(|| ("id", "m")), &mut s).unwrap();
    assert_eq!(s, "<a id=\"m\" >\n</a>\n\n");
}

#[test]
fn some_wraps_an_element() {
    let mut s = String::new();
    render(builder::single("x").some(), &mut s).unwrap();
    assert_eq!(s, "<x />\n\n");
}

#[test]
fn owned_string_pairs_render_like_str_pairs() {
    let mut s = String::new();
    render(
        builder::single("r").with(("id".to_string(), "a".to_string())),
        &mut s,
    )
    .unwrap();
    assert_eq!(s, "<r id=\"a\" />\n\n");
}

#[test]
fn inline_sigl_reports_its_mode() {
    assert!(InlineSigl::Inline.as_bool());
    assert!(!InlineSigl::Pretty.as_bool());
}

#[test]
fn controller_start_and_end_manage_depth() {
    let mut c = InlineController::new();
    let mut w = WriteWrap::new();
    // Entering a pretty scope at depth zero writes no indentation yet;
    // the next indent is one level deep.
    let saved = c.start(&mut w, InlineSigl::Pretty);
    assert!(!saved.as_bool());
    c.tabs(&mut w);
    c.end(saved);
    c.tabs(&mut w);
    assert_eq!(w.into_string(), "\t");
}

#[test]
fn controller_inline_scope_suppresses_indentation() {
    let mut c = InlineController::new();
    let mut w = WriteWrap::new();
    let saved = c.start(&mut w, InlineSigl::Pretty);
    let saved_inner = c.start(&mut w, InlineSigl::Inline);
    c.tabs(&mut w);
    c.end_tag(&mut w);
    // Nothing was emitted inside the inline scope.
    assert!(!saved_inner.as_bool());
    c.end(saved_inner);
    c.end(saved);
    assert_eq!(w.into_string(), "");
}

#[test]
fn escapable_closure_element_writes_raw() {
    let c = tagu::builder::from_closure_escapable(|mut w| {
        w.write_str_escapable("<raw attr=\"1\"/>");
        w.write_str("a&b");
        (w, Ok(()))
    });
    let mut s = String::new();
    tagu::render_escapable(c, &mut s).unwrap();
    assert_eq!(s, "<raw attr=\"1\"/>a&amp;b\n");
}

#[test]
fn closure2_defers_element_construction() {
    let c = builder::from_closure2(|| builder::single("lazy"));
    let mut s = String::new();
    render(c, &mut s).unwrap();
    assert_eq!(s, "<lazy />\n\n");
}

#[test]
fn building_blocks_clone_for_reuse() {
    let e = builder::elem("a").with(("id".to_string(), "x".to_string() + "y"));
    let twice = tagu::chain(e.clone(), e);
    let mut s = String::new();
    render(twice, &mut s).unwrap();
    assert_eq!(s, "<a id=\"xy\" >\n</a>\n<a id=\"xy\" >\n</a>\n\n");
}
