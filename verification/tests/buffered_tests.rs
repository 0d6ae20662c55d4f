use tagu::builder;
use tagu::elem::BufferedElem;
use tagu::render::InlineController;
use tagu::render;

#[test]
fn buffered_replay_is_idempotent() {
    let buf = BufferedElem::new(builder::elem("b"), InlineController::new()).unwrap();
    let mut first = String::new();
    render(&buf, &mut first).unwrap();
    let mut second = String::new();
    render(&buf, &mut second).unwrap();
    assert_eq!(first, second);

    let mut fresh = String::new();
    render(builder::elem("b"), &mut fresh).unwrap();
    assert_eq!(first, fresh);
    assert_eq!(first, "<b >\n</b>\n\n");
}

#[test]
fn buffered_parts_hold_head_and_tail() {
    let buf = BufferedElem::new(builder::elem("b"), InlineController::new()).unwrap();
    let (head, tail) = buf.into_parts();
    assert_eq!(head, "<b >\n");
    assert_eq!(tail, "</b>\n");
}

#[test]
fn renderer_keeps_indentation_between_calls() {
    let mut renderer = tagu::render::Renderer::new();
    let mut s = String::new();
    renderer.render(builder::single("a"), &mut s).unwrap();
    renderer.render(builder::single("b"), &mut s).unwrap();
    assert_eq!(s, "<a />\n\n<b />\n\n");
}
