//! The pretty-print controller and the renderer entry points.
//!
//! The whitespace scheme is fixed as follows: every tag and leaf is
//! preceded by the current indentation (one tab per open level) and
//! followed by one line break; entering a scope emits no line break of its
//! own; inline mode suppresses all of this for a subtree; and a top-level
//! render ends with one closing line break. The golden outputs in the test
//! suite pin these choices byte for byte.

use vstd::prelude::*;

use crate::elem::{Elem, ElemWrite, Locked, WriterState, full_exact_post, full_post, full_state, full_text, render_full};
use crate::RenderError;
use crate::tools::WriteWrap;

verus! {

/// Ghost model of the pretty-print controller: the inline flag and the
/// current indentation depth.
pub struct PrettyState {
    pub inline: bool,
    pub tabs: nat,
}

/// The state a fresh controller starts in: pretty mode, depth zero.
pub open spec fn st_init() -> PrettyState {
    PrettyState { inline: false, tabs: 0 }
}

/// Entering a nested element: one level deeper, saturating at the machine
/// limit (which no real document reaches).
pub open spec fn st_push(c: PrettyState) -> PrettyState {
    PrettyState { inline: c.inline, tabs: if c.tabs < usize::MAX { (c.tabs + 1) as nat } else { c.tabs } }
}

/// Leaving a nested element: one level shallower, never below zero.
pub open spec fn st_pop(c: PrettyState) -> PrettyState {
    PrettyState { inline: c.inline, tabs: if c.tabs > 0 { (c.tabs - 1) as nat } else { 0 } }
}

pub open spec fn st_set_inline(c: PrettyState, val: bool) -> PrettyState {
    PrettyState { inline: val, tabs: c.tabs }
}

/// The indentation written before a tag: one tab per open level, or nothing
/// in inline mode.
pub open spec fn indent_text(c: PrettyState) -> Seq<char> {
    if c.inline {
        Seq::empty()
    } else {
        Seq::new(c.tabs, |i: int| '\t')
    }
}

/// The line break written after a tag or leaf: nothing in inline mode.
pub open spec fn nl_text(c: PrettyState) -> Seq<char> {
    if c.inline {
        Seq::empty()
    } else {
        seq!['\n']
    }
}

/// Signal for the pretty-print controller: force a subtree onto one line, or
/// keep the default pretty layout.
#[derive(Clone, Copy, Debug, PartialEq, Eq, Structural)]
pub enum InlineSigl {
    Inline,
    Pretty,
}

impl InlineSigl {
    pub fn as_bool(&self) -> (r: bool)
        ensures
            r == (*self is Inline),
    {
        match self {
            InlineSigl::Inline => true,
            InlineSigl::Pretty => false,
        }
    }
}

/// Decides, at each write, whether indentation and line breaks are emitted.
/// Tracks the indentation depth and whether an ancestor forced inline mode.
pub struct InlineController {
    inline: InlineSigl,
    tabs: usize,
}

impl View for InlineController {
    type V = PrettyState;

    closed spec fn view(&self) -> PrettyState {
        PrettyState { inline: self.inline is Inline, tabs: self.tabs as nat }
    }
}

impl InlineController {
    pub fn new() -> (r: InlineController)
        ensures
            r@ == st_init(),
    {
        InlineController { inline: InlineSigl::Pretty, tabs: 0 }
    }

    /// Enter a scope with the requested mode and hand back the mode to
    /// restore on exit. Inside an inline region nothing changes; a request
    /// for inline mode from pretty mode switches without emitting anything;
    /// a pretty scope inside a pretty region emits the current indentation
    /// and goes one level deeper.
    pub fn start(&mut self, w: &mut WriteWrap, inline: InlineSigl) -> (og: InlineSigl)
        ensures
            og == old(self).saved_sigl(),
            final(self)@ == st_start(old(self)@, inline is Inline),
            final(w)@ == old(w)@ + if old(self)@.inline || inline is Inline {
                Seq::<char>::empty()
            } else {
                indent_text(old(self)@)
            },
    {
        let og = if self.is_inline_mode() {
            InlineSigl::Inline
        } else {
            InlineSigl::Pretty
        };
        match inline {
            InlineSigl::Inline => {
                if !self.is_inline_mode() {
                    self.set_inline_mode(true);
                }
            },
            InlineSigl::Pretty => {
                if !self.is_inline_mode() {
                    self.tabs(w);
                    self.push();
                }
            },
        }
        og
    }

    /// The mode `start` reports to its caller.
    pub open spec fn saved_sigl(self) -> InlineSigl {
        if self@.inline {
            InlineSigl::Inline
        } else {
            InlineSigl::Pretty
        }
    }

    /// Leave a scope entered with `start`, restoring the saved mode. A scope
    /// whose saved mode was pretty gives one indentation level back.
    pub fn end(&mut self, original_inline: InlineSigl)
        ensures
            final(self)@ == st_end(old(self)@, original_inline is Inline),
    {
        match original_inline {
            InlineSigl::Pretty => {
                self.pop();
                self.set_inline_mode(false);
            },
            InlineSigl::Inline => {},
        }
    }

    /// One line break closes the document in pretty mode.
    pub fn reset_for_tail(&self, w: &mut WriteWrap)
        ensures
            final(w)@ == old(w)@ + nl_text(self@),
    {
        if !self.is_inline_mode_ref() {
            w.write_str("\n");
            proof {
                reveal_strlit("\n");
                assert("\n"@ =~= seq!['\n']);
            }
        }
    }

    /// Write the current indentation: one tab per open level, nothing in
    /// inline mode.
    pub fn tabs(&self, w: &mut WriteWrap)
        ensures
            final(w)@ == old(w)@ + indent_text(self@),
    {
        if !self.is_inline_mode_ref() {
            let n = self.tabs;
            let mut i: usize = 0;
            while i < n
                invariant
                    i <= n,
                    n == self@.tabs,
                    !self@.inline,
                    w@ == old(w)@ + Seq::new(i as nat, |k: int| '\t'),
                decreases n - i,
            {
                w.write_str("\t");
                proof {
                    reveal_strlit("\t");
                    assert("\t"@ =~= seq!['\t']);
                    assert(Seq::new(i as nat, |k: int| '\t') + seq!['\t'] =~= Seq::new(
                        (i + 1) as nat,
                        |k: int| '\t',
                    ));
                }
                i = i + 1;
            }
        } else {
            proof {
                assert(old(w)@ + Seq::<char>::empty() =~= old(w)@);
            }
        }
    }

    /// Write the line break that ends a tag or leaf, if pretty mode is on.
    pub fn end_tag(&self, w: &mut WriteWrap)
        ensures
            final(w)@ == old(w)@ + nl_text(self@),
    {
        if !self.is_inline_mode_ref() {
            w.write_str("\n");
            proof {
                reveal_strlit("\n");
                assert("\n"@ =~= seq!['\n']);
            }
        }
    }

    pub fn push(&mut self)
        ensures
            final(self)@ == st_push(old(self)@),
    {
        if self.tabs < usize::MAX {
            self.tabs = self.tabs + 1;
        }
    }

    pub fn pop(&mut self)
        ensures
            final(self)@ == st_pop(old(self)@),
    {
        if self.tabs > 0 {
            self.tabs = self.tabs - 1;
        }
    }

    pub fn set_inline_mode(&mut self, val: bool)
        ensures
            final(self)@ == st_set_inline(old(self)@, val),
    {
        self.inline = if val {
            InlineSigl::Inline
        } else {
            InlineSigl::Pretty
        };
    }

    pub fn is_inline_mode(&mut self) -> (r: bool)
        ensures
            r == old(self)@.inline,
            *final(self) == *old(self),
    {
        matches!(self.inline, InlineSigl::Inline)
    }

    fn is_inline_mode_ref(&self) -> (r: bool)
        ensures
            r == self@.inline,
    {
        matches!(self.inline, InlineSigl::Inline)
    }
}

/// What `start` does to the controller state.
pub open spec fn st_start(c: PrettyState, want_inline: bool) -> PrettyState {
    if c.inline {
        c
    } else if want_inline {
        st_set_inline(c, true)
    } else {
        st_push(c)
    }
}

/// What `end` does to the controller state.
pub open spec fn st_end(c: PrettyState, saved_inline: bool) -> PrettyState {
    if saved_inline {
        c
    } else {
        st_set_inline(st_pop(c), false)
    }
}

} // verus!

verus! {

/// What one renderer call guarantees: a full render of the element from the
/// controller state `c0` over the buffer `out0`, then — on success — the
/// closing line break.
pub open spec fn render_post<E: Elem>(
    elem: E,
    c0: PrettyState,
    out0: Seq<char>,
    c1: PrettyState,
    out1: Seq<char>,
    r: Result<(), RenderError>,
) -> bool {
    exists|q: WriterState, rr: Result<(), RenderError>|
        {
            &&& #[trigger] full_post(elem, WriterState { out: out0, fmt: c0 }, q, rr)
            &&& match rr {
                Result::Ok(u) => out1 == q.out + nl_text(q.fmt) && c1 == q.fmt && r is Ok,
                Result::Err(e) => out1 == q.out && c1 == q.fmt && r is Err,
            }
        }
}

/// For an exact element a render cannot fail, and the appended document is
/// the element's full text followed by the closing line break.
pub proof fn render_exact_post<E: Elem>(
    elem: E,
    c0: PrettyState,
    out0: Seq<char>,
    c1: PrettyState,
    out1: Seq<char>,
    r: Result<(), RenderError>,
)
    requires
        elem.exact(),
        render_post(elem, c0, out0, c1, out1, r),
    ensures
        r is Ok,
        out1 == out0 + full_text(elem, c0) + nl_text(full_state(elem, c0)),
        c1 == full_state(elem, c0),
{
    let (q, rr) = choose|q: WriterState, rr: Result<(), RenderError>|
        {
            &&& #[trigger] full_post(elem, WriterState { out: out0, fmt: c0 }, q, rr)
            &&& match rr {
                Result::Ok(u) => out1 == q.out + nl_text(q.fmt) && c1 == q.fmt && r is Ok,
                Result::Err(e) => out1 == q.out && c1 == q.fmt && r is Err,
            }
        };
    full_exact_post(elem, WriterState { out: out0, fmt: c0 }, q, rr);
    assert(out1 =~= out0 + full_text(elem, c0) + nl_text(full_state(elem, c0)));
}

/// Drives elements through a pretty-print controller that persists between
/// calls, so consecutive renders continue at the same indentation.
pub struct Renderer {
    fmt: InlineController,
}

impl View for Renderer {
    type V = PrettyState;

    closed spec fn view(&self) -> PrettyState {
        self.fmt@
    }
}

impl Renderer {
    pub fn new() -> (r: Renderer)
        ensures
            r@ == st_init(),
    {
        Renderer { fmt: InlineController::new() }
    }

    /// Render an escaping-safe element, appending to `out`.
    pub fn render<E: Elem + Locked>(&mut self, elem: E, out: &mut String) -> (r: Result<
        (),
        RenderError,
    >)
        ensures
            render_post(elem, old(self)@, old(out)@, final(self)@, final(out)@, r),
    {
        self.render_escapable(elem, out)
    }

    /// Render any element, raw content included, appending to `out`.
    pub fn render_escapable<E: Elem>(&mut self, elem: E, out: &mut String) -> (r: Result<
        (),
        RenderError,
    >)
        ensures
            render_post(elem, old(self)@, old(out)@, final(self)@, final(out)@, r),
    {
        let ghost eg = elem;
        let ghost c0 = self@;
        let ghost out0 = out@;
        let mut s = String::new();
        core::mem::swap(out, &mut s);
        let mut fmt = InlineController::new();
        core::mem::swap(&mut self.fmt, &mut fmt);
        let mut w = ElemWrite::new(WriteWrap::from_string(s), fmt);
        let rr = render_full(elem, &mut w);
        let ghost q = w@;
        let (mut wrap, mut fmt) = w.into_parts();
        match rr {
            Ok(u) => {
                fmt.reset_for_tail(&mut wrap);
                core::mem::swap(&mut self.fmt, &mut fmt);
                let mut s2 = wrap.into_string();
                core::mem::swap(out, &mut s2);
                proof {
                    assert(u == ());
                    assert(full_post(eg, WriterState { out: out0, fmt: c0 }, q, Ok::<
                        (),
                        RenderError,
                    >(())));
                }
                Ok(())
            },
            Err(e) => {
                core::mem::swap(&mut self.fmt, &mut fmt);
                let mut s2 = wrap.into_string();
                core::mem::swap(out, &mut s2);
                proof {
                    assert(e == RenderError);
                    assert(full_post(eg, WriterState { out: out0, fmt: c0 }, q, Err::<
                        (),
                        RenderError,
                    >(RenderError)));
                }
                Err(e)
            },
        }
    }
}

impl Default for Renderer {
    fn default() -> (r: Renderer)
        ensures
            r@ == st_init(),
    {
        Renderer::new()
    }
}

} // verus!
