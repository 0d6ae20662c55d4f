use tagu::builder;
use tagu::render;

/// Scans markup text and checks every `<tag ...>` is closed by a matching
/// `</tag>` in LIFO order, ignoring self-closing `<... />` forms.
fn tags_balanced(s: &str) -> bool {
    let mut stack: Vec<String> = Vec::new();
    let mut rest = s;
    while let Some(open) = rest.find('<') {
        let after = &rest[open + 1..];
        let close = match after.find('>') {
            Some(c) => c,
            None => return false,
        };
        let body = &after[..close];
        if let Some(tag) = body.strip_prefix('/') {
            match stack.pop() {
                Some(top) if top == tag => {}
                _ => return false,
            }
        } else if !body.trim_end().ends_with('/') {
            let name: String = body
                .chars()
                .take_while(|c| !c.is_whitespace())
                .collect();
            stack.push(name);
        }
        rest = &after[close + 1..];
    }
    stack.is_empty()
}

#[test]
fn nested_render_is_balanced() {
    let doc = tagu::append(
        builder::elem("svg"),
        tagu::chain(
            builder::single("circle").with(("r", "5")),
            tagu::append(builder::elem("g"), builder::elem("text")),
        ),
    );
    let mut s = String::new();
    render(doc, &mut s).unwrap();
    assert!(tags_balanced(&s));
    assert_eq!(
        s,
        "<svg >\n\t<circle r=\"5\" />\n\t<g >\n\t\t<text >\n\t\t</text>\n\t</g>\n</svg>\n\n"
    );
}

#[test]
fn unbalanced_text_is_detected_by_the_checker() {
    assert!(!tags_balanced("<a ><b ></a></b>"));
    assert!(!tags_balanced("<a >"));
    assert!(tags_balanced("<a ><b ></b></a>"));
}
