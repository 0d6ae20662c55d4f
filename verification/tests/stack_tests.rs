use tagu::RenderError;
use tagu::builder;
use tagu::render;

#[test]
fn stack_session_matches_nested_append() {
    let sess = builder::from_stack(|stack| {
        let stack = stack.push(builder::elem("a"))?;
        let mut stack = stack.push(builder::elem("b"))?;
        stack.put(builder::single("c")).unwrap();
        let stack = stack.pop()?;
        stack.pop()
    });
    let mut by_stack = String::new();
    render(sess, &mut by_stack).unwrap();

    let mut by_append = String::new();
    render(
        tagu::append(
            builder::elem("a"),
            tagu::append(builder::elem("b"), builder::single("c")),
        ),
        &mut by_append,
    )
    .unwrap();

    assert_eq!(by_stack, by_append);
    assert_eq!(by_stack, "<a >\n\t<b >\n\t\t<c />\n\t</b>\n</a>\n\n");
}

#[test]
fn stack_put_writes_complete_siblings() {
    let sess = builder::from_stack(|stack| {
        let mut stack = stack.push(builder::elem("list"))?;
        stack.put(builder::single("x0")).unwrap();
        stack.put(builder::single("x1")).unwrap();
        stack.pop()
    });
    let mut s = String::new();
    render(sess, &mut s).unwrap();
    assert_eq!(s, "<list >\n\t<x0 />\n\t<x1 />\n</list>\n\n");
}

#[test]
fn stack_session_failure_propagates() {
    let sess = builder::from_stack(|stack| {
        let stack = stack.push(builder::elem("a"))?;
        Err((stack.into_writer(), RenderError))
    });
    let mut s = String::new();
    assert_eq!(render(sess, &mut s), Err(RenderError));
    // The failure keeps everything written up to that point.
    assert_eq!(s, "<a >
");
}

#[test]
fn failed_session_keeps_the_existing_prefix() {
    let sess = builder::from_stack(|stack| {
        let mut stack = stack.push(builder::elem("a"))?;
        stack.put(builder::single("b")).unwrap();
        Err((stack.into_writer(), RenderError))
    });
    let mut s = String::from("prefix:");
    assert_eq!(render(sess, &mut s), Err(RenderError));
    assert_eq!(s, "prefix:<a >
	<b />
");
}

#[test]
fn escapable_stack_writes_raw_markup() {
    let sess = builder::from_stack_escapable(|mut stack| {
        stack.write_str_escapable("<raw/>");
        Ok(stack)
    });
    let mut s = String::new();
    tagu::render_escapable(sess, &mut s).unwrap();
    assert_eq!(s, "<raw/>\n");
}

#[test]
fn escapable_stack_hands_tails_to_the_caller() {
    let sess = builder::from_stack_escapable(|mut stack| {
        let tail = stack.render_head_escapable(builder::elem("held")).unwrap();
        stack.put(builder::single("inside")).unwrap();
        stack.render_tail_escapable(tail).unwrap();
        Ok(stack)
    });
    let mut s = String::new();
    tagu::render_escapable(sess, &mut s).unwrap();
    assert_eq!(s, "<held >\n\t<inside />\n</held>\n\n");
}

#[test]
fn stack_write_str_escapes_text() {
    let sess = builder::from_stack(|mut stack| {
        stack.write_str("a<b");
        Ok(stack)
    });
    let mut s = String::new();
    tagu::render(sess, &mut s).unwrap();
    assert_eq!(s, "a&lt;b\n");
}
