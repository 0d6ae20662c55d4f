use tagu::tools::{EscapeGuard, WriteWrap, escape_guard};

#[test]
fn write_wrap_appends_verbatim() {
    let mut w = WriteWrap::new();
    w.write_str("a<b");
    w.write_str("&c");
    assert_eq!(w.into_string(), "a<b&c");
}

#[test]
fn escape_guard_escapes_all_five_reserved_characters() {
    let mut g = EscapeGuard::new(WriteWrap::new());
    g.write_str("\"'<>&");
    assert_eq!(g.into_inner().into_string(), "&quot;&apos;&lt;&gt;&amp;");
}

#[test]
fn escape_guard_passes_plain_text_through() {
    let mut g = escape_guard(WriteWrap::new());
    g.write_str("plain text 123");
    assert_eq!(g.into_inner().into_string(), "plain text 123");
}

#[test]
fn escape_guard_handles_multibyte_characters() {
    let mut g = escape_guard(WriteWrap::new());
    g.write_str("héllo<wörld>");
    assert_eq!(g.into_inner().into_string(), "héllo&lt;wörld&gt;");
}
