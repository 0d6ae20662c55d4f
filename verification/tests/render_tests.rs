use tagu::RenderError;
use tagu::elem::Elem;
use tagu::builder;
use tagu::render;
use tagu::render_escapable;

#[test]
fn paired_element_shape() {
    let mut s = String::new();
    render(builder::elem("a"), &mut s).unwrap();
    assert_eq!(s, "<a >\n</a>\n\n");
}

#[test]
fn self_closing_shape() {
    let mut s = String::new();
    render(builder::single("rect").with(("id", "a")), &mut s).unwrap();
    assert_eq!(s, "<rect id=\"a\" />\n\n");
}

#[test]
fn chain_is_sequencing() {
    let mut s = String::new();
    render(tagu::chain(builder::elem("a"), builder::elem("b")), &mut s).unwrap();
    assert_eq!(s, "<a >\n</a>\n<b >\n</b>\n\n");
}

#[test]
fn append_is_nesting() {
    let mut s = String::new();
    render(tagu::append(builder::elem("a"), builder::elem("b")), &mut s).unwrap();
    assert_eq!(s, "<a >\n\t<b >\n\t</b>\n</a>\n\n");
}

#[test]
fn chain_output_is_first_render_then_second() {
    // The chain output is the full render of the first element concatenated
    // with the full render of the second, both at top depth.
    let mut both = String::new();
    render(tagu::chain(builder::elem("a"), builder::elem("b")), &mut both).unwrap();
    let mut first = String::new();
    render(builder::elem("a"), &mut first).unwrap();
    let mut second = String::new();
    render(builder::elem("b"), &mut second).unwrap();
    // Drop each piece's closing document newline before comparing.
    assert_eq!(
        both,
        format!(
            "{}{}\n",
            first.strip_suffix('\n').unwrap(),
            second.strip_suffix('\n').unwrap()
        )
    );
}

#[test]
fn attribute_escaping_emits_each_entity_once() {
    let mut s = String::new();
    render(builder::elem("x").with(("k", "\"'<>&")), &mut s).unwrap();
    assert_eq!(s, "<x k=\"&quot;&apos;&lt;&gt;&amp;\" >\n</x>\n\n");
    assert_eq!(s.matches("&quot;").count(), 1);
    assert_eq!(s.matches("&apos;").count(), 1);
    assert_eq!(s.matches("&lt;").count(), 1);
    assert_eq!(s.matches("&gt;").count(), 1);
    assert_eq!(s.matches("&amp;").count(), 1);
}

fn decode_entities(s: &str) -> String {
    s.replace("&quot;", "\"")
        .replace("&apos;", "'")
        .replace("&lt;", "<")
        .replace("&gt;", ">")
        .replace("&amp;", "&")
}

#[test]
fn attribute_escaping_round_trip() {
    let value = "\"'<>& plain";
    let mut s = String::new();
    render(builder::elem("x").with(("k", value)), &mut s).unwrap();
    let open_quote = s.find('"').unwrap();
    let close_quote = s.rfind('"').unwrap();
    let encoded = &s[open_quote + 1..close_quote];
    assert_eq!(decode_entities(encoded), value);
}

#[test]
fn raw_text_is_escaped() {
    let mut s = String::new();
    render(tagu::append(builder::elem("p"), builder::raw("1 < 2")), &mut s).unwrap();
    assert_eq!(s, "<p >\n 1 &lt; 2\n</p>\n\n");
}

#[test]
fn raw_escapable_bypasses_escaping() {
    let mut s = String::new();
    render_escapable(builder::raw_escapable("<b>bold</b>"), &mut s).unwrap();
    assert_eq!(s, " <b>bold</b>\n\n");
}

#[test]
fn str_is_a_text_leaf() {
    let mut s = String::new();
    render(tagu::append(builder::elem("p"), "hi"), &mut s).unwrap();
    assert_eq!(s, "<p >\n hi\n</p>\n\n");
}

#[test]
fn inline_suppresses_layout() {
    let mut s = String::new();
    render(
        tagu::append(
            builder::elem("a"),
            tagu::append(builder::elem("b"), builder::single("c")).inline(),
        ),
        &mut s,
    )
    .unwrap();
    assert_eq!(s, "<a >\n\t<b ><c /></b>\n</a>\n\n");
}

#[test]
fn inline_suppression_is_idempotent() {
    let inner = || tagu::append(builder::elem("b"), builder::single("c"));
    let mut once = String::new();
    render(inner().inline(), &mut once).unwrap();
    let mut twice = String::new();
    render(inner().inline().inline(), &mut twice).unwrap();
    assert_eq!(once, twice);
    assert_eq!(once, "<b ><c /></b>\n\n");
}

#[test]
fn option_renders_when_present_only() {
    let mut with = String::new();
    render(Some(builder::single("x")), &mut with).unwrap();
    assert_eq!(with, "<x />\n\n");
    let mut without = String::new();
    render(None::<tagu::elem::Single<()>>, &mut without).unwrap();
    assert_eq!(without, "\n");
}

#[test]
fn from_iterator_renders_in_order_with_no_tail() {
    let mut s = String::new();
    render(
        builder::from_iter(vec![builder::elem("x0"), builder::elem("x1")]),
        &mut s,
    )
    .unwrap();
    assert_eq!(s, "<x0 >\n</x0>\n<x1 >\n</x1>\n\n");
    let mut chained = String::new();
    render(tagu::chain(builder::elem("x0"), builder::elem("x1")), &mut chained).unwrap();
    assert_eq!(s, chained);
}

#[test]
fn comment_uses_overridden_markers() {
    let mut s = String::new();
    render(tagu::comment("hello"), &mut s).unwrap();
    assert_eq!(s, "<!--hello -->\n\n");
}

#[test]
fn closure_element_failure_propagates() {
    let c = builder::from_closure(|mut w| {
        let r = w.render(builder::single("partial"));
        if r.is_err() {
            return (w, r);
        }
        (w, Err(RenderError))
    });
    let mut s = String::from("before:");
    assert_eq!(render(c, &mut s), Err(RenderError));
    // The failure keeps the existing prefix and everything written so far.
    assert_eq!(s, "before:<partial />
");
}

#[test]
fn closure_element_writes_through_the_writer() {
    let c = builder::from_closure(|mut w| {
        let r = w.render(builder::single("x"));
        (w, r)
    });
    let mut s = String::new();
    render(c, &mut s).unwrap();
    assert_eq!(s, "<x />\n\n");
}

#[test]
fn session_closes_the_element_after_the_closure() {
    let c = builder::from_closure(|w| {
        w.session(builder::elem("s")).build(|mut inner| {
            let r = inner.render(builder::single("i"));
            (inner, r)
        })
    });
    let mut s = String::new();
    render(c, &mut s).unwrap();
    assert_eq!(s, "<s >\n\t<i />\n</s>\n\n");
}

#[test]
fn render_map_builds_the_element_on_the_spot() {
    let c = builder::from_closure(|mut w| {
        let r = w.render_map(|| builder::single("mapped"));
        (w, r)
    });
    let mut s = String::new();
    render(c, &mut s).unwrap();
    assert_eq!(s, "<mapped />\n\n");
}

#[test]
fn session_map_builds_the_element_on_the_spot() {
    let c = builder::from_closure(|w| {
        w.session_map(|| builder::elem("s")).build(|mut inner| {
            let r = inner.render(builder::single("i"));
            (inner, r)
        })
    });
    let mut s = String::new();
    render(c, &mut s).unwrap();
    assert_eq!(s, "<s >\n\t<i />\n</s>\n\n");
}
