//! Build xml / html / svg markup by chaining element and attribute values
//! together, streaming the text out in one pass with no intermediate tree.
//!
//! Every renderable value splits into a *head* (the open side, written
//! before its children) and a *tail* (the pending obligation to close what
//! the head opened). Combinators sequence, nest, repeat or inline elements;
//! an imperative stack builder opens and closes nested elements with the
//! balance tracked in its type; and a pretty-print controller decides at
//! each write whether indentation and line breaks appear. Each element's
//! contract states exactly what text its render appends.
//!
//! One feature is deliberately absent: a type-erased element handle for
//! heterogeneous collections would need trait objects, which the verifier
//! does not support. Buffered elements cover re-rendering a fixed subtree,
//! and iteration covers homogeneous collections.

pub mod attr;
pub mod elem;
pub mod stack;
pub mod render;
pub mod tools;

pub mod builder;

pub use crate::elem::{append, chain};

use vstd::prelude::*;

use crate::elem::{Elem, Locked, Single, full_state, full_text};
use crate::render::{PrettyState, Renderer, nl_text, render_post, st_init};

verus! {

/// The one failure the streaming core can report: a write was rejected, by
/// a caller-supplied closure or by the sink it drives.
#[derive(Clone, Copy, Debug, PartialEq, Eq, Structural)]
pub struct RenderError;

/// What one top-level render guarantees: a fresh pretty-print controller is
/// driven through the element's head and tail, and on success one closing
/// line break ends the document.
pub open spec fn doc_post<E: Elem>(
    elem: E,
    out0: Seq<char>,
    out1: Seq<char>,
    r: Result<(), RenderError>,
) -> bool {
    exists|c1: PrettyState| #[trigger] render_post(elem, st_init(), out0, c1, out1, r)
}

/// For an exact element a top-level render cannot fail and appends exactly
/// the element's full text followed by one line break.
pub proof fn doc_exact_post<E: Elem>(
    elem: E,
    out0: Seq<char>,
    out1: Seq<char>,
    r: Result<(), RenderError>,
)
    requires
        elem.exact(),
        doc_post(elem, out0, out1, r),
    ensures
        r is Ok,
        out1 == out0 + full_text(elem, st_init()) + nl_text(full_state(elem, st_init())),
{
    let c1 = choose|c1: PrettyState| #[trigger] render_post(elem, st_init(), out0, c1, out1, r);
    crate::render::render_exact_post(elem, st_init(), out0, c1, out1, r);
}

/// Render an escaping-safe element to the end of `out`.
pub fn render<E: Elem + Locked>(elem: E, out: &mut String) -> (r: Result<(), RenderError>)
    ensures
        doc_post(elem, old(out)@, final(out)@, r),
{
    let mut renderer = Renderer::new();
    let ghost eg = elem;
    let ghost out0 = out@;
    let r = renderer.render(elem, out);
    proof {
        assert(render_post(eg, st_init(), out0, renderer@, out@, r));
    }
    r
}

/// Render any element, raw content included, to the end of `out`.
pub fn render_escapable<E: Elem>(elem: E, out: &mut String) -> (r: Result<(), RenderError>)
    ensures
        doc_post(elem, old(out)@, final(out)@, r),
{
    let mut renderer = Renderer::new();
    let ghost eg = elem;
    let ghost out0 = out@;
    let r = renderer.render_escapable(elem, out);
    proof {
        assert(render_post(eg, st_init(), out0, renderer@, out@, r));
    }
    r
}

/// A comment leaf: the self-closing form with `!--` and `--` markers, which
/// renders as `<!--text -->`.
pub fn comment(text: &str) -> (r: Single<()>)
    ensures
        r.tag@ == text@,
        r.attr == (),
        r.start@ == seq!['!', '-', '-'],
        r.ending@ == seq!['-', '-'],
{
    let s = Single::new(text).with_start("!--").with_ending("--");
    proof {
        reveal_strlit("!--");
        reveal_strlit("--");
        assert("!--"@ =~= seq!['!', '-', '-']);
        assert("--"@ =~= seq!['-', '-']);
    }
    s
}

} // verus!
