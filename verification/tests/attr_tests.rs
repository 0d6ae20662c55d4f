use tagu::attr::PathCommand;
use tagu::attr::{Path, Points};
use tagu::builder;
use tagu::render;

#[test]
fn chained_attributes_concatenate_in_order() {
    let a = tagu::attr::chain(("id", "a"), ("class", "b"));
    let mut s = String::new();
    render(builder::single("rect").with(a), &mut s).unwrap();
    assert_eq!(s, "<rect id=\"a\" class=\"b\" />\n\n");
}

#[test]
fn optional_attribute_renders_nothing_when_absent() {
    let mut absent = String::new();
    render(builder::single("r").with(None::<(&str, &str)>), &mut absent).unwrap();
    assert_eq!(absent, "<r />\n\n");
    let mut present = String::new();
    render(builder::single("r").with(Some(("id", "a"))), &mut present).unwrap();
    assert_eq!(present, "<r id=\"a\" />\n\n");
}

#[test]
fn path_attribute_serializes_commands() {
    let p = Path::new(vec![
        PathCommand::M("0".to_string(), "0".to_string()),
        PathCommand::L("5".to_string(), "7".to_string()),
        PathCommand::Z(),
    ]);
    let mut s = String::new();
    render(builder::single("path").with(p), &mut s).unwrap();
    assert_eq!(s, "<path d=\" M 0 0 L 5 7 Z\" />\n\n");
}

#[test]
fn path_curve_commands_use_comma_groups() {
    let p = Path::new(vec![PathCommand::C(
        "1".to_string(),
        "2".to_string(),
        "3".to_string(),
        "4".to_string(),
        "5".to_string(),
        "6".to_string(),
    )]);
    let mut s = String::new();
    render(builder::single("path").with(p), &mut s).unwrap();
    assert_eq!(s, "<path d=\" C 1 2, 3 4, 5 6\" />\n\n");
}

#[test]
fn points_attribute_serializes_pairs() {
    let p = Points::new(vec![
        ("0".to_string(), "1".to_string()),
        ("2".to_string(), "3".to_string()),
    ]);
    let mut s = String::new();
    render(builder::single("polygon").with(p), &mut s).unwrap();
    assert_eq!(s, "<polygon points=\"0,1 2,3 \" />\n\n");
}

#[test]
fn path_closure_emits_commands_one_at_a_time() {
    let p = tagu::attr::PathClosure::new(|b| {
        let mut sink = b.start();
        let r = sink.put(PathCommand::M("0".to_string(), "0".to_string()));
        if r.is_err() {
            return (sink, r);
        }
        let r = sink.put(PathCommand::Z());
        (sink, r)
    });
    let mut s = String::new();
    render(builder::single("path").with(p), &mut s).unwrap();
    assert_eq!(s, "<path d=\" M 0 0 Z\" />\n\n");
}

#[test]
fn attr_closure_writes_fragments() {
    let a = builder::attr_from_closure(|mut w| {
        let r = w.render(("id", "a"));
        (w, r)
    });
    let mut s = String::new();
    render(builder::single("rect").with(a), &mut s).unwrap();
    assert_eq!(s, "<rect id=\"a\" />\n\n");
}
