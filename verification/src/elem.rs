//! The element protocol: every renderable value splits into a head (what is
//! written before its children) and a tail (the pending obligation to close
//! what the head opened).

use vstd::prelude::*;

use crate::RenderError;
use crate::attr::{Attr, AttrWrite};
use crate::render::{InlineController, PrettyState};
use crate::render::{indent_text, nl_text, st_pop, st_push, st_set_inline};
use crate::tools::{WriteWrap, angle_free, escape_seq, lemma_angle_free_cat, lemma_escape_seq_angle_free};

verus! {

/// Ghost view of a writer mid-render: the text emitted so far and the
/// pretty-print state.
pub struct WriterState {
    pub out: Seq<char>,
    pub fmt: PrettyState,
}

/// Writer passed to element renderers. It owns the output buffer and the
/// pretty-print controller; public writes are entity-escaped.
#[must_use]
pub struct ElemWrite {
    wrap: WriteWrap,
    fmt: InlineController,
}

impl View for ElemWrite {
    type V = WriterState;

    closed spec fn view(&self) -> WriterState {
        WriterState { out: self.wrap@, fmt: self.fmt@ }
    }
}

impl ElemWrite {
    pub(crate) fn new(wrap: WriteWrap, fmt: InlineController) -> (r: ElemWrite)
        ensures
            r@ == (WriterState { out: wrap@, fmt: fmt@ }),
    {
        ElemWrite { wrap, fmt }
    }

    pub(crate) fn into_parts(self) -> (r: (WriteWrap, InlineController))
        ensures
            r.0@ == self@.out,
            r.1@ == self@.fmt,
    {
        (self.wrap, self.fmt)
    }

    /// Append text with the reserved characters escaped.
    pub fn write_str(&mut self, s: &str)
        ensures
            final(self)@.out == old(self)@.out + escape_seq(s@),
            final(self)@.fmt == old(self)@.fmt,
    {
        let mut tmp = WriteWrap::new();
        core::mem::swap(&mut self.wrap, &mut tmp);
        let mut g = crate::tools::escape_guard(tmp);
        g.write_str(s);
        self.wrap = g.into_inner();
    }

    pub(crate) fn write_raw(&mut self, s: &str)
        ensures
            final(self)@.out == old(self)@.out + s@,
            final(self)@.fmt == old(self)@.fmt,
    {
        self.wrap.write_str(s);
    }

    pub(crate) fn tabs(&mut self)
        ensures
            final(self)@.out == old(self)@.out + indent_text(old(self)@.fmt),
            final(self)@.fmt == old(self)@.fmt,
    {
        self.fmt.tabs(&mut self.wrap);
    }

    pub(crate) fn end_tag(&mut self)
        ensures
            final(self)@.out == old(self)@.out + nl_text(old(self)@.fmt),
            final(self)@.fmt == old(self)@.fmt,
    {
        self.fmt.end_tag(&mut self.wrap);
    }

    pub(crate) fn push(&mut self)
        ensures
            final(self)@.out == old(self)@.out,
            final(self)@.fmt == st_push(old(self)@.fmt),
    {
        self.fmt.push();
    }

    pub(crate) fn pop(&mut self)
        ensures
            final(self)@.out == old(self)@.out,
            final(self)@.fmt == st_pop(old(self)@.fmt),
    {
        self.fmt.pop();
    }

    pub(crate) fn set_inline_mode(&mut self, val: bool)
        ensures
            final(self)@.out == old(self)@.out,
            final(self)@.fmt == st_set_inline(old(self)@.fmt, val),
    {
        self.fmt.set_inline_mode(val);
    }

    pub(crate) fn is_inline_mode(&mut self) -> (r: bool)
        ensures
            r == old(self)@.inline_flag(),
            *final(self) == *old(self),
    {
        self.fmt.is_inline_mode()
    }

    /// Render one attribute into the currently open start tag.
    pub(crate) fn render_attr<A: Attr>(&mut self, attr: A) -> (r: Result<(), RenderError>)
        ensures
            attr.attr_post(old(self)@.out, final(self)@.out, r),
            final(self)@.fmt == old(self)@.fmt,
    {
        let mut tmp = WriteWrap::new();
        core::mem::swap(&mut self.wrap, &mut tmp);
        let mut aw = AttrWrite::new(tmp);
        let r = aw.render(attr);
        self.wrap = aw.into_inner();
        r
    }
}

impl WriterState {
    pub open spec fn inline_flag(self) -> bool {
        self.fmt.inline
    }
}

/// The tail of an element: the deferred obligation to write whatever closes
/// what the element's head opened.
///
/// `tail_post` is the relation one render of the tail guarantees between the
/// writer before (`p`) and after (`q`) and the result. For an `exact` tail
/// the relation pins the output down: the appended text is `tail_text` and
/// the new pretty state is `tail_state`, both functions of the pretty state
/// the tail runs in; `tail_exact_post` proves that collapse.
pub trait ElemTail: Sized {
    spec fn tail_exact(self) -> bool;

    spec fn tail_text(self, c: PrettyState) -> Seq<char>;

    spec fn tail_state(self, c: PrettyState) -> PrettyState;

    spec fn tail_post(self, p: WriterState, q: WriterState, r: Result<(), RenderError>) -> bool;

    proof fn tail_exact_post(self, p: WriterState, q: WriterState, r: Result<(), RenderError>)
        requires
            self.tail_exact(),
            self.tail_post(p, q, r),
        ensures
            r is Ok,
            q.out == p.out + self.tail_text(p.fmt),
            q.fmt == self.tail_state(p.fmt),
    ;

    fn render(self, w: &mut ElemWrite) -> (r: Result<(), RenderError>)
        ensures
            self.tail_post(old(w)@, final(w)@, r),
    ;
}

/// The element building block trait: anything that can render a head and
/// hand back a tail.
///
/// `head_post` is the relation one render of the head guarantees. For an
/// `exact` element (everything but the closure forms) the relation pins the
/// render down: the head appends `head_text`, moves the pretty state to
/// `head_state` and returns exactly the `head_tail` tail, which is itself
/// exact; `head_exact_post` proves that collapse.
pub trait Elem: Sized {
    type Tail: ElemTail;

    spec fn exact(self) -> bool;

    spec fn head_text(self, c: PrettyState) -> Seq<char>;

    spec fn head_state(self, c: PrettyState) -> PrettyState;

    spec fn head_tail(self, c: PrettyState) -> Self::Tail;

    spec fn head_post(
        self,
        p: WriterState,
        q: WriterState,
        r: Result<Self::Tail, RenderError>,
    ) -> bool;

    proof fn head_exact_post(
        self,
        p: WriterState,
        q: WriterState,
        r: Result<Self::Tail, RenderError>,
    )
        requires
            self.exact(),
            self.head_post(p, q, r),
        ensures
            r is Ok,
            r->Ok_0 == self.head_tail(p.fmt),
            self.head_tail(p.fmt).tail_exact(),
            q.out == p.out + self.head_text(p.fmt),
            q.fmt == self.head_state(p.fmt),
    ;

    fn render_head(self, w: &mut ElemWrite) -> (r: Result<Self::Tail, RenderError>)
        ensures
            self.head_post(old(w)@, final(w)@, r),
    ;

    /// Force this element and its descendants onto one line.
    fn inline(self) -> (r: Inliner<Self>)
        ensures
            r.elem == self,
    {
        Inliner { elem: self }
    }

    fn some(self) -> (r: Option<Self>)
        ensures
            r == Some(self),
    {
        Some(self)
    }
}

/// Marks elements that cannot smuggle raw, unescaped markup into the output.
/// The default renderer accepts only such elements.
pub trait Locked {

}

/// The text a full render (head, then at once the tail) of an exact element
/// appends, starting from pretty state `c`.
pub open spec fn full_text<E: Elem>(e: E, c: PrettyState) -> Seq<char> {
    e.head_text(c) + e.head_tail(c).tail_text(e.head_state(c))
}

/// The pretty state after a full render of an exact element.
pub open spec fn full_state<E: Elem>(e: E, c: PrettyState) -> PrettyState {
    e.head_tail(c).tail_state(e.head_state(c))
}

/// The relation one full render (head immediately followed by tail)
/// guarantees.
pub open spec fn full_post<E: Elem>(
    e: E,
    p: WriterState,
    q: WriterState,
    r: Result<(), RenderError>,
) -> bool {
    ||| (e.head_post(p, q, Err(RenderError)) && r is Err)
    ||| (exists|m: WriterState, t: E::Tail|
        #[trigger] e.head_post(p, m, Ok(t)) && t.tail_post(m, q, r))
}

/// For an exact element the full-render relation collapses to the exact
/// text and state.
pub proof fn full_exact_post<E: Elem>(
    e: E,
    p: WriterState,
    q: WriterState,
    r: Result<(), RenderError>,
)
    requires
        e.exact(),
        full_post(e, p, q, r),
    ensures
        r is Ok,
        q.out == p.out + full_text(e, p.fmt),
        q.fmt == full_state(e, p.fmt),
{
    if e.head_post(p, q, Err(RenderError)) && r is Err {
        e.head_exact_post(p, q, Err(RenderError));
    } else {
        let (m, t) = choose|m: WriterState, t: E::Tail|
            #[trigger] e.head_post(p, m, Ok(t)) && t.tail_post(m, q, r);
        e.head_exact_post(p, m, Ok(t));
        t.tail_exact_post(m, q, r);
        assert(q.out =~= p.out + full_text(e, p.fmt));
    }
}

/// Render an element's head and then at once its tail.
pub(crate) fn render_full<E: Elem>(e: E, w: &mut ElemWrite) -> (r: Result<(), RenderError>)
    ensures
        full_post(e, old(w)@, final(w)@, r),
{
    let ghost eg = e;
    let ghost p = w@;
    let r1 = e.render_head(w);
    let ghost m = w@;
    match r1 {
        Ok(t) => {
            let ghost tg = t;
            let r = t.render(w);
            proof {
                assert(eg.head_post(p, m, Ok(tg)));
            }
            r
        },
        Err(e) => Err(e),
    }
}

/// The empty tail: leaf elements leave nothing to close.
impl ElemTail for () {
    open spec fn tail_exact(self) -> bool {
        true
    }

    open spec fn tail_text(self, c: PrettyState) -> Seq<char> {
        Seq::empty()
    }

    open spec fn tail_state(self, c: PrettyState) -> PrettyState {
        c
    }

    open spec fn tail_post(
        self,
        p: WriterState,
        q: WriterState,
        r: Result<(), RenderError>,
    ) -> bool {
        q == p && r is Ok
    }

    proof fn tail_exact_post(self, p: WriterState, q: WriterState, r: Result<(), RenderError>) {
        assert(p.out + Seq::<char>::empty() =~= p.out);
    }

    fn render(self, w: &mut ElemWrite) -> (r: Result<(), RenderError>) {
        Ok(())
    }
}

/// The text that opens a paired element, up to and including the space after
/// the tag name.
pub open spec fn open_pre_text(tag: Seq<char>, c: PrettyState) -> Seq<char> {
    indent_text(c) + seq!['<'] + escape_seq(tag) + seq![' ']
}

/// The whole opening side of a paired element with attribute fragment `at`.
pub open spec fn element_open_text(tag: Seq<char>, at: Seq<char>, c: PrettyState) -> Seq<char> {
    open_pre_text(tag, c) + at + seq!['>'] + nl_text(c)
}

/// The closing side of a paired element: indentation one level back out,
/// `</tag>`, and the end-of-element line break.
pub open spec fn element_close_text(tag: Seq<char>, c: PrettyState) -> Seq<char> {
    indent_text(st_pop(c)) + seq!['<', '/'] + escape_seq(tag) + seq!['>'] + nl_text(st_pop(c))
}

/// The tail of a paired element: writes the matching close tag.
#[must_use]
#[derive(Clone)]
pub struct ElementTail {
    pub tag: String,
}

impl ElemTail for ElementTail {
    open spec fn tail_exact(self) -> bool {
        true
    }

    open spec fn tail_text(self, c: PrettyState) -> Seq<char> {
        element_close_text(self.tag@, c)
    }

    open spec fn tail_state(self, c: PrettyState) -> PrettyState {
        st_pop(c)
    }

    open spec fn tail_post(
        self,
        p: WriterState,
        q: WriterState,
        r: Result<(), RenderError>,
    ) -> bool {
        q.out == p.out + element_close_text(self.tag@, p.fmt) && q.fmt == st_pop(p.fmt) && r is Ok
    }

    proof fn tail_exact_post(self, p: WriterState, q: WriterState, r: Result<(), RenderError>) {
    }

    fn render(self, w: &mut ElemWrite) -> (r: Result<(), RenderError>) {
        w.pop();
        w.tabs();
        w.write_raw("</");
        w.write_str(self.tag.as_str());
        w.write_raw(">");
        w.end_tag();
        proof {
            reveal_strlit("</");
            reveal_strlit(">");
            assert("</"@ =~= seq!['<', '/']);
            assert(">"@ =~= seq!['>']);
            assert(final(w)@.out =~= old(w)@.out + element_close_text(self.tag@, old(w)@.fmt));
        }
        Ok(())
    }
}

/// A paired element: `<tag attrs>` now, `</tag>` when its tail runs.
#[must_use]
#[derive(Clone)]
pub struct Element<A> {
    pub tag: String,
    pub attr: A,
}

impl<A: Attr> Locked for Element<A> {

}

impl<A: Attr> Element<A> {
    /// Replace the attribute block.
    pub fn with<AA: Attr>(self, attr: AA) -> (r: Element<AA>)
        ensures
            r.tag == self.tag,
            r.attr == attr,
    {
        Element { tag: self.tag, attr }
    }

    /// Replace the attribute block with one built on the spot.
    pub fn with_map<AA: Attr, F: FnOnce() -> AA>(self, attr: F) -> (r: Element<AA>)
        requires
            call_requires(attr, ()),
        ensures
            r.tag == self.tag,
            call_ensures(attr, (), r.attr),
    {
        let attr = attr();
        self.with(attr)
    }
}

impl Element<()> {
    pub fn new(tag: &str) -> (r: Element<()>)
        ensures
            r.tag@ == tag@,
            r.attr == (),
    {
        Element { tag: tag.to_owned(), attr: () }
    }
}

impl<A: Attr> Elem for Element<A> {
    type Tail = ElementTail;

    open spec fn exact(self) -> bool {
        self.attr.exact()
    }

    open spec fn head_text(self, c: PrettyState) -> Seq<char> {
        element_open_text(self.tag@, self.attr.attr_text(), c)
    }

    open spec fn head_state(self, c: PrettyState) -> PrettyState {
        st_push(c)
    }

    open spec fn head_tail(self, c: PrettyState) -> ElementTail {
        ElementTail { tag: self.tag }
    }

    open spec fn head_post(
        self,
        p: WriterState,
        q: WriterState,
        r: Result<ElementTail, RenderError>,
    ) -> bool {
        ||| (self.attr.attr_post(p.out + open_pre_text(self.tag@, p.fmt), q.out, Err(RenderError))
            && q.fmt == p.fmt && r is Err)
        ||| (exists|m: Seq<char>|
            {
                &&& #[trigger] self.attr.attr_post(
                    p.out + open_pre_text(self.tag@, p.fmt),
                    m,
                    Ok(()),
                )
                &&& q.out == m + seq!['>'] + nl_text(p.fmt)
                &&& q.fmt == st_push(p.fmt)
                &&& r == Ok::<ElementTail, RenderError>(ElementTail { tag: self.tag })
            })
    }

    proof fn head_exact_post(
        self,
        p: WriterState,
        q: WriterState,
        r: Result<ElementTail, RenderError>,
    ) {
        let pre = p.out + open_pre_text(self.tag@, p.fmt);
        if self.attr.attr_post(pre, q.out, Err(RenderError)) && q.fmt == p.fmt && r is Err {
            self.attr.attr_exact_post(pre, q.out, Err(RenderError));
        } else {
            let m = choose|m: Seq<char>|
                {
                    &&& #[trigger] self.attr.attr_post(pre, m, Ok(()))
                    &&& q.out == m + seq!['>'] + nl_text(p.fmt)
                    &&& q.fmt == st_push(p.fmt)
                    &&& r == Ok::<ElementTail, RenderError>(ElementTail { tag: self.tag })
                };
            self.attr.attr_exact_post(pre, m, Ok(()));
            assert(q.out =~= p.out + self.head_text(p.fmt));
        }
    }

    fn render_head(self, w: &mut ElemWrite) -> (r: Result<ElementTail, RenderError>) {
        let Element { tag, attr } = self;
        let ghost ag = attr;
        let ghost p = w@;
        w.tabs();
        w.write_raw("<");
        w.write_str(tag.as_str());
        w.write_raw(" ");
        proof {
            reveal_strlit("<");
            reveal_strlit(" ");
            assert("<"@ =~= seq!['<']);
            assert(" "@ =~= seq![' ']);
            assert(w@.out =~= p.out + open_pre_text(tag@, p.fmt));
        }
        let ra = w.render_attr(attr);
        let ghost m = w@.out;
        match ra {
            Ok(u) => {
                proof {
                    assert(u == ());
                    assert(ag.attr_post(p.out + open_pre_text(tag@, p.fmt), m, Ok(())));
                }
                w.write_raw(">");
                w.end_tag();
                w.push();
                proof {
                    reveal_strlit(">");
                    assert(">"@ =~= seq!['>']);
                    assert(final(w)@.out =~= m + seq!['>'] + nl_text(p.fmt));
                }
                Ok(ElementTail { tag })
            },
            Err(e) => Err(e),
        }
    }
}

/// The text of a self-closing element, with its configurable start and
/// ending markers.
pub open spec fn single_text(
    start: Seq<char>,
    tag: Seq<char>,
    at: Seq<char>,
    ending: Seq<char>,
    c: PrettyState,
) -> Seq<char> {
    indent_text(c) + seq!['<'] + escape_seq(start) + escape_seq(tag) + seq![' '] + at
        + escape_seq(ending) + seq!['>'] + nl_text(c)
}

/// The part of a self-closing element's text that precedes its attributes.
pub open spec fn single_pre_text(start: Seq<char>, tag: Seq<char>, c: PrettyState) -> Seq<char> {
    indent_text(c) + seq!['<'] + escape_seq(start) + escape_seq(tag) + seq![' ']
}

/// An element with no closing tag, such as `<rect />`. The start and ending
/// markers default to `""` and `"/"` and can be overridden to produce
/// comment- or doctype-like forms.
#[must_use]
#[derive(Clone)]
pub struct Single<A> {
    pub tag: String,
    pub attr: A,
    pub start: String,
    pub ending: String,
}

impl<A: Attr> Locked for Single<A> {

}

impl<A: Attr> Single<A> {
    /// Replace the attribute block.
    pub fn with<AA: Attr>(self, attr: AA) -> (r: Single<AA>)
        ensures
            r.tag == self.tag,
            r.attr == attr,
            r.start == self.start,
            r.ending == self.ending,
    {
        Single { tag: self.tag, attr, start: self.start, ending: self.ending }
    }

    /// Replace the attribute block with one built on the spot.
    pub fn with_map<AA: Attr, F: FnOnce() -> AA>(self, attr: F) -> (r: Single<AA>)
        requires
            call_requires(attr, ()),
        ensures
            r.tag == self.tag,
            r.start == self.start,
            r.ending == self.ending,
            call_ensures(attr, (), r.attr),
    {
        let attr = attr();
        self.with(attr)
    }

    /// Override the marker written just before the closing `>`.
    pub fn with_ending(self, ending: &str) -> (r: Single<A>)
        ensures
            r.tag == self.tag,
            r.attr == self.attr,
            r.start == self.start,
            r.ending@ == ending@,
    {
        Single { tag: self.tag, attr: self.attr, start: self.start, ending: ending.to_owned() }
    }

    /// Override the marker written just after the opening `<`.
    pub fn with_start(self, start: &str) -> (r: Single<A>)
        ensures
            r.tag == self.tag,
            r.attr == self.attr,
            r.start@ == start@,
            r.ending == self.ending,
    {
        Single { tag: self.tag, attr: self.attr, start: start.to_owned(), ending: self.ending }
    }
}

impl Single<()> {
    pub fn new(tag: &str) -> (r: Single<()>)
        ensures
            r.tag@ == tag@,
            r.attr == (),
            r.start@ == Seq::<char>::empty(),
            r.ending@ == seq!['/'],
    {
        let s = Single {
            tag: tag.to_owned(),
            attr: (),
            start: "".to_owned(),
            ending: "/".to_owned(),
        };
        proof {
            reveal_strlit("");
            reveal_strlit("/");
            assert(""@ =~= Seq::<char>::empty());
            assert("/"@ =~= seq!['/']);
        }
        s
    }
}

impl<A: Attr> Elem for Single<A> {
    type Tail = ();

    open spec fn exact(self) -> bool {
        self.attr.exact()
    }

    open spec fn head_text(self, c: PrettyState) -> Seq<char> {
        single_text(self.start@, self.tag@, self.attr.attr_text(), self.ending@, c)
    }

    open spec fn head_state(self, c: PrettyState) -> PrettyState {
        c
    }

    open spec fn head_tail(self, c: PrettyState) -> () {
        ()
    }

    open spec fn head_post(
        self,
        p: WriterState,
        q: WriterState,
        r: Result<(), RenderError>,
    ) -> bool {
        ||| (self.attr.attr_post(
            p.out + single_pre_text(self.start@, self.tag@, p.fmt),
            q.out,
            Err(RenderError),
        ) && q.fmt == p.fmt && r is Err)
        ||| (exists|m: Seq<char>|
            {
                &&& #[trigger] self.attr.attr_post(
                    p.out + single_pre_text(self.start@, self.tag@, p.fmt),
                    m,
                    Ok(()),
                )
                &&& q.out == m + escape_seq(self.ending@) + seq!['>'] + nl_text(p.fmt)
                &&& q.fmt == p.fmt
                &&& r is Ok
            })
    }

    proof fn head_exact_post(
        self,
        p: WriterState,
        q: WriterState,
        r: Result<(), RenderError>,
    ) {
        let pre = p.out + single_pre_text(self.start@, self.tag@, p.fmt);
        if self.attr.attr_post(pre, q.out, Err(RenderError)) && q.fmt == p.fmt && r is Err {
            self.attr.attr_exact_post(pre, q.out, Err(RenderError));
        } else {
            let m = choose|m: Seq<char>|
                {
                    &&& #[trigger] self.attr.attr_post(pre, m, Ok(()))
                    &&& q.out == m + escape_seq(self.ending@) + seq!['>'] + nl_text(p.fmt)
                    &&& q.fmt == p.fmt
                    &&& r is Ok
                };
            self.attr.attr_exact_post(pre, m, Ok(()));
            assert(q.out =~= p.out + self.head_text(p.fmt));
        }
    }

    fn render_head(self, w: &mut ElemWrite) -> (r: Result<(), RenderError>) {
        let Single { tag, attr, start, ending } = self;
        let ghost ag = attr;
        let ghost p = w@;
        w.tabs();
        w.write_raw("<");
        w.write_str(start.as_str());
        w.write_str(tag.as_str());
        w.write_raw(" ");
        proof {
            reveal_strlit("<");
            reveal_strlit(" ");
            assert("<"@ =~= seq!['<']);
            assert(" "@ =~= seq![' ']);
            assert(w@.out =~= p.out + single_pre_text(start@, tag@, p.fmt));
        }
        let ra = w.render_attr(attr);
        let ghost m = w@.out;
        match ra {
            Ok(u) => {
                proof {
                    assert(u == ());
                    assert(ag.attr_post(p.out + single_pre_text(start@, tag@, p.fmt), m, Ok(())));
                }
                w.write_str(ending.as_str());
                w.write_raw(">");
                w.end_tag();
                proof {
                    reveal_strlit(">");
                    assert(">"@ =~= seq!['>']);
                    assert(final(w)@.out =~= m + escape_seq(ending@) + seq!['>'] + nl_text(p.fmt));
                }
                Ok(())
            },
            Err(e) => Err(e),
        }
    }
}

/// The text a raw leaf appends: a separating space, the escaped text, and
/// the end-of-element line break.
pub open spec fn raw_text(data: Seq<char>, c: PrettyState) -> Seq<char> {
    seq![' '] + escape_seq(data) + nl_text(c)
}

/// The text an escapable raw leaf appends: the data passes through
/// unchanged.
pub open spec fn raw_escapable_text(data: Seq<char>, c: PrettyState) -> Seq<char> {
    seq![' '] + data + nl_text(c)
}

/// A leaf of escaped text.
#[must_use]
#[derive(Clone)]
pub struct Raw {
    pub data: String,
}

impl Raw {
    pub fn new(data: &str) -> (r: Raw)
        ensures
            r.data@ == data@,
    {
        Raw { data: data.to_owned() }
    }
}

impl Locked for Raw {

}

impl Elem for Raw {
    type Tail = ();

    open spec fn exact(self) -> bool {
        true
    }

    open spec fn head_text(self, c: PrettyState) -> Seq<char> {
        raw_text(self.data@, c)
    }

    open spec fn head_state(self, c: PrettyState) -> PrettyState {
        c
    }

    open spec fn head_tail(self, c: PrettyState) -> () {
        ()
    }

    open spec fn head_post(
        self,
        p: WriterState,
        q: WriterState,
        r: Result<(), RenderError>,
    ) -> bool {
        q.out == p.out + raw_text(self.data@, p.fmt) && q.fmt == p.fmt && r is Ok
    }

    proof fn head_exact_post(self, p: WriterState, q: WriterState, r: Result<(), RenderError>) {
    }

    fn render_head(self, w: &mut ElemWrite) -> (r: Result<(), RenderError>) {
        render_raw_leaf(self.data.as_str(), w);
        Ok(())
    }
}

/// A raw leaf of text that already holds straight strings.
impl<'a> Locked for &'a str {

}

impl<'a> Elem for &'a str {
    type Tail = ();

    open spec fn exact(self) -> bool {
        true
    }

    open spec fn head_text(self, c: PrettyState) -> Seq<char> {
        raw_text(self@, c)
    }

    open spec fn head_state(self, c: PrettyState) -> PrettyState {
        c
    }

    open spec fn head_tail(self, c: PrettyState) -> () {
        ()
    }

    open spec fn head_post(
        self,
        p: WriterState,
        q: WriterState,
        r: Result<(), RenderError>,
    ) -> bool {
        q.out == p.out + raw_text(self@, p.fmt) && q.fmt == p.fmt && r is Ok
    }

    proof fn head_exact_post(self, p: WriterState, q: WriterState, r: Result<(), RenderError>) {
    }

    fn render_head(self, w: &mut ElemWrite) -> (r: Result<(), RenderError>) {
        render_raw_leaf(self, w);
        Ok(())
    }
}

fn render_raw_leaf(data: &str, w: &mut ElemWrite)
    ensures
        final(w)@.out == old(w)@.out + raw_text(data@, old(w)@.fmt),
        final(w)@.fmt == old(w)@.fmt,
{
    w.write_raw(" ");
    w.write_str(data);
    w.end_tag();
    proof {
        reveal_strlit(" ");
        assert(" "@ =~= seq![' ']);
        assert(final(w)@.out =~= old(w)@.out + raw_text(data@, old(w)@.fmt));
    }
}

/// A leaf whose text reaches the output unescaped: the caller asserts the
/// content is trusted markup.
#[must_use]
#[derive(Clone)]
pub struct RawEscapable {
    pub data: String,
}

impl RawEscapable {
    pub fn new(data: &str) -> (r: RawEscapable)
        ensures
            r.data@ == data@,
    {
        RawEscapable { data: data.to_owned() }
    }
}

impl Elem for RawEscapable {
    type Tail = ();

    open spec fn exact(self) -> bool {
        true
    }

    open spec fn head_text(self, c: PrettyState) -> Seq<char> {
        raw_escapable_text(self.data@, c)
    }

    open spec fn head_state(self, c: PrettyState) -> PrettyState {
        c
    }

    open spec fn head_tail(self, c: PrettyState) -> () {
        ()
    }

    open spec fn head_post(
        self,
        p: WriterState,
        q: WriterState,
        r: Result<(), RenderError>,
    ) -> bool {
        q.out == p.out + raw_escapable_text(self.data@, p.fmt) && q.fmt == p.fmt && r is Ok
    }

    proof fn head_exact_post(self, p: WriterState, q: WriterState, r: Result<(), RenderError>) {
    }

    fn render_head(self, w: &mut ElemWrite) -> (r: Result<(), RenderError>) {
        w.write_raw(" ");
        w.write_raw(self.data.as_str());
        w.end_tag();
        proof {
            reveal_strlit(" ");
            assert(" "@ =~= seq![' ']);
            assert(final(w)@.out =~= old(w)@.out + raw_escapable_text(
                self.data@,
                old(w)@.fmt,
            ));
        }
        Ok(())
    }
}

} // verus!

verus! {

/// Render all of `top` (head and tail), then the head of `bottom`; the
/// pending tail is `bottom`'s. Flattens two trees as siblings.
#[must_use]
#[derive(Clone, Copy)]
pub struct Chain<A, B> {
    pub top: A,
    pub bottom: B,
}

impl<A: Locked, B: Locked> Locked for Chain<A, B> {

}

/// Sibling sequencing: render all of `a`, then start `b`.
pub fn chain<A: Elem, B: Elem>(top: A, bottom: B) -> (r: Chain<A, B>)
    ensures
        r.top == top,
        r.bottom == bottom,
{
    Chain { top, bottom }
}

impl<A: Elem, B: Elem> Elem for Chain<A, B> {
    type Tail = B::Tail;

    open spec fn exact(self) -> bool {
        self.top.exact() && self.bottom.exact()
    }

    open spec fn head_text(self, c: PrettyState) -> Seq<char> {
        full_text(self.top, c) + self.bottom.head_text(full_state(self.top, c))
    }

    open spec fn head_state(self, c: PrettyState) -> PrettyState {
        self.bottom.head_state(full_state(self.top, c))
    }

    open spec fn head_tail(self, c: PrettyState) -> B::Tail {
        self.bottom.head_tail(full_state(self.top, c))
    }

    open spec fn head_post(
        self,
        p: WriterState,
        q: WriterState,
        r: Result<B::Tail, RenderError>,
    ) -> bool {
        ||| (full_post(self.top, p, q, Err(RenderError)) && r is Err)
        ||| (exists|m: WriterState|
            #[trigger] full_post(self.top, p, m, Ok(())) && self.bottom.head_post(m, q, r))
    }

    proof fn head_exact_post(
        self,
        p: WriterState,
        q: WriterState,
        r: Result<B::Tail, RenderError>,
    ) {
        if full_post(self.top, p, q, Err(RenderError)) && r is Err {
            full_exact_post(self.top, p, q, Err(RenderError));
        } else {
            let m = choose|m: WriterState|
                #[trigger] full_post(self.top, p, m, Ok(())) && self.bottom.head_post(m, q, r);
            full_exact_post(self.top, p, m, Ok(()));
            self.bottom.head_exact_post(m, q, r);
            assert(q.out =~= p.out + self.head_text(p.fmt));
        }
    }

    fn render_head(self, w: &mut ElemWrite) -> (r: Result<B::Tail, RenderError>) {
        let Chain { top, bottom } = self;
        let ghost tg = top;
        let ghost p = w@;
        let r1 = render_full(top, w);
        let ghost m = w@;
        match r1 {
            Ok(u) => {
                proof {
                    assert(u == ());
                    assert(full_post(tg, p, m, Ok(())));
                }
                bottom.render_head(w)
            },
            Err(e) => Err(e),
        }
    }
}

/// Render the head of `top`, then all of `bottom` nested inside it; the
/// pending tail is `top`'s, so `top` stays open until its tail runs.
#[must_use]
#[derive(Clone, Copy)]
pub struct Append<A, B> {
    pub top: A,
    pub bottom: B,
}

impl<A: Locked, B: Locked> Locked for Append<A, B> {

}

impl<A: Elem, B: Elem> Elem for Append<A, B> {
    type Tail = A::Tail;

    open spec fn exact(self) -> bool {
        self.top.exact() && self.bottom.exact()
    }

    open spec fn head_text(self, c: PrettyState) -> Seq<char> {
        self.top.head_text(c) + full_text(self.bottom, self.top.head_state(c))
    }

    open spec fn head_state(self, c: PrettyState) -> PrettyState {
        full_state(self.bottom, self.top.head_state(c))
    }

    open spec fn head_tail(self, c: PrettyState) -> A::Tail {
        self.top.head_tail(c)
    }

    open spec fn head_post(
        self,
        p: WriterState,
        q: WriterState,
        r: Result<A::Tail, RenderError>,
    ) -> bool {
        ||| (self.top.head_post(p, q, Err(RenderError)) && r is Err)
        ||| (exists|m: WriterState, ta: A::Tail|
            {
                &&& #[trigger] self.top.head_post(p, m, Ok(ta))
                &&& {
                    ||| (full_post(self.bottom, m, q, Err(RenderError)) && r is Err)
                    ||| (full_post(self.bottom, m, q, Ok(())) && r == Ok::<A::Tail, RenderError>(ta))
                }
            })
    }

    proof fn head_exact_post(
        self,
        p: WriterState,
        q: WriterState,
        r: Result<A::Tail, RenderError>,
    ) {
        if self.top.head_post(p, q, Err(RenderError)) && r is Err {
            self.top.head_exact_post(p, q, Err(RenderError));
        } else {
            let (m, ta) = choose|m: WriterState, ta: A::Tail|
                {
                    &&& #[trigger] self.top.head_post(p, m, Ok(ta))
                    &&& {
                        ||| (full_post(self.bottom, m, q, Err(RenderError)) && r is Err)
                        ||| (full_post(self.bottom, m, q, Ok(())) && r == Ok::<A::Tail, RenderError>(ta))
                    }
                };
            self.top.head_exact_post(p, m, Ok(ta));
            if full_post(self.bottom, m, q, Err(RenderError)) && r is Err {
                full_exact_post(self.bottom, m, q, Err(RenderError));
            } else {
                full_exact_post(self.bottom, m, q, Ok(()));
                assert(q.out =~= p.out + self.head_text(p.fmt));
            }
        }
    }

    fn render_head(self, w: &mut ElemWrite) -> (r: Result<A::Tail, RenderError>) {
        let Append { top, bottom } = self;
        let ghost tg = top;
        let ghost bg = bottom;
        let ghost p = w@;
        let r1 = top.render_head(w);
        let ghost m = w@;
        match r1 {
            Ok(ta) => {
                let ghost tag = ta;
                let r2 = render_full(bottom, w);
                let ghost q = w@;
                match r2 {
                    Ok(u) => {
                        proof {
                            assert(u == ());
                            assert(tg.head_post(p, m, Ok(tag)));
                            assert(full_post(bg, m, q, Ok(())));
                        }
                        Ok(ta)
                    },
                    Err(e) => {
                        proof {
                            assert(tg.head_post(p, m, Ok(tag)));
                            assert(full_post(bg, m, q, Err(RenderError)));
                        }
                        Err(e)
                    },
                }
            },
            Err(e) => Err(e),
        }
    }
}

/// Nest `bottom` fully inside `top`, keeping `top`'s tail pending.
pub fn append<R: Elem, K: Elem>(top: R, bottom: K) -> (r: Append<R, K>)
    ensures
        r.top == top,
        r.bottom == bottom,
{
    Append { top, bottom }
}

/// An absent tail closes nothing.
impl<T: ElemTail> ElemTail for Option<T> {
    open spec fn tail_exact(self) -> bool {
        match self {
            Option::Some(t) => t.tail_exact(),
            Option::None => true,
        }
    }

    open spec fn tail_text(self, c: PrettyState) -> Seq<char> {
        match self {
            Option::Some(t) => t.tail_text(c),
            Option::None => Seq::empty(),
        }
    }

    open spec fn tail_state(self, c: PrettyState) -> PrettyState {
        match self {
            Option::Some(t) => t.tail_state(c),
            Option::None => c,
        }
    }

    open spec fn tail_post(
        self,
        p: WriterState,
        q: WriterState,
        r: Result<(), RenderError>,
    ) -> bool {
        match self {
            Option::Some(t) => t.tail_post(p, q, r),
            Option::None => q == p && r is Ok,
        }
    }

    proof fn tail_exact_post(self, p: WriterState, q: WriterState, r: Result<(), RenderError>) {
        match self {
            Option::Some(t) => t.tail_exact_post(p, q, r),
            Option::None => {
                assert(p.out + Seq::<char>::empty() =~= p.out);
            },
        }
    }

    fn render(self, w: &mut ElemWrite) -> (r: Result<(), RenderError>) {
        match self {
            Option::Some(t) => t.render(w),
            Option::None => Ok(()),
        }
    }
}

impl<A: Locked> Locked for Option<A> {

}

/// An absent element renders nothing.
impl<A: Elem> Elem for Option<A> {
    type Tail = Option<A::Tail>;

    open spec fn exact(self) -> bool {
        match self {
            Option::Some(a) => a.exact(),
            Option::None => true,
        }
    }

    open spec fn head_text(self, c: PrettyState) -> Seq<char> {
        match self {
            Option::Some(a) => a.head_text(c),
            Option::None => Seq::empty(),
        }
    }

    open spec fn head_state(self, c: PrettyState) -> PrettyState {
        match self {
            Option::Some(a) => a.head_state(c),
            Option::None => c,
        }
    }

    open spec fn head_tail(self, c: PrettyState) -> Option<A::Tail> {
        match self {
            Option::Some(a) => Some(a.head_tail(c)),
            Option::None => None,
        }
    }

    open spec fn head_post(
        self,
        p: WriterState,
        q: WriterState,
        r: Result<Option<A::Tail>, RenderError>,
    ) -> bool {
        match self {
            Option::Some(a) => exists|ra: Result<A::Tail, RenderError>|
                {
                    &&& #[trigger] a.head_post(p, q, ra)
                    &&& {
                        ||| (ra is Ok && r is Ok && r->Ok_0 == Some(ra->Ok_0))
                        ||| (ra is Err && r is Err)
                    }
                },
            Option::None => q == p && r is Ok && r->Ok_0 is None,
        }
    }

    proof fn head_exact_post(
        self,
        p: WriterState,
        q: WriterState,
        r: Result<Option<A::Tail>, RenderError>,
    ) {
        match self {
            Option::Some(a) => {
                let ra = choose|ra: Result<A::Tail, RenderError>|
                    {
                        &&& #[trigger] a.head_post(p, q, ra)
                        &&& {
                            ||| (ra is Ok && r is Ok && r->Ok_0 == Some(ra->Ok_0))
                            ||| (ra is Err && r is Err)
                        }
                    };
                a.head_exact_post(p, q, ra);
            },
            Option::None => {
                assert(p.out + Seq::<char>::empty() =~= p.out);
            },
        }
    }

    fn render_head(self, w: &mut ElemWrite) -> (r: Result<Option<A::Tail>, RenderError>) {
        match self {
            Option::Some(a) => {
                let ghost ag = a;
                let ghost p = w@;
                let ra = a.render_head(w);
                let ghost q = w@;
                match ra {
                    Ok(t) => {
                        proof {
                            assert(ag.head_post(p, q, Ok(t)));
                        }
                        Ok(Some(t))
                    },
                    Err(e) => {
                        proof {
                            assert(ag.head_post(p, q, Err(RenderError)));
                        }
                        Err(e)
                    },
                }
            },
            Option::None => Ok(None),
        }
    }
}

} // verus!

verus! {

/// The tail of an inline-forced subtree: renders the inner tail, then, if
/// this wrapper was the one that switched inline mode on, switches it back
/// off and ends the line.
pub struct InlinerTail<K> {
    pub reset: bool,
    pub tail: K,
}

impl<K: ElemTail> ElemTail for InlinerTail<K> {
    open spec fn tail_exact(self) -> bool {
        self.tail.tail_exact()
    }

    open spec fn tail_text(self, c: PrettyState) -> Seq<char> {
        if self.reset {
            self.tail.tail_text(c) + seq!['\n']
        } else {
            self.tail.tail_text(c)
        }
    }

    open spec fn tail_state(self, c: PrettyState) -> PrettyState {
        if self.reset {
            st_set_inline(self.tail.tail_state(c), false)
        } else {
            self.tail.tail_state(c)
        }
    }

    open spec fn tail_post(
        self,
        p: WriterState,
        q: WriterState,
        r: Result<(), RenderError>,
    ) -> bool {
        ||| (self.tail.tail_post(p, q, Err(RenderError)) && r is Err)
        ||| (exists|m: WriterState|
            {
                &&& #[trigger] self.tail.tail_post(p, m, Ok(()))
                &&& if self.reset {
                    q.out == m.out + seq!['\n'] && q.fmt == st_set_inline(m.fmt, false)
                } else {
                    q == m
                }
                &&& r is Ok
            })
    }

    proof fn tail_exact_post(self, p: WriterState, q: WriterState, r: Result<(), RenderError>) {
        if self.tail.tail_post(p, q, Err(RenderError)) && r is Err {
            self.tail.tail_exact_post(p, q, Err(RenderError));
        } else {
            let m = choose|m: WriterState|
                {
                    &&& #[trigger] self.tail.tail_post(p, m, Ok(()))
                    &&& if self.reset {
                        q.out == m.out + seq!['\n'] && q.fmt == st_set_inline(m.fmt, false)
                    } else {
                        q == m
                    }
                    &&& r is Ok
                };
            self.tail.tail_exact_post(p, m, Ok(()));
            assert(q.out =~= p.out + self.tail_text(p.fmt));
        }
    }

    fn render(self, w: &mut ElemWrite) -> (r: Result<(), RenderError>) {
        let InlinerTail { reset, tail } = self;
        let ghost tg = tail;
        let ghost p = w@;
        let r1 = tail.render(w);
        let ghost m = w@;
        match r1 {
            Ok(u) => {
                proof {
                    assert(u == ());
                    assert(tg.tail_post(p, m, Ok(())));
                }
                if reset {
                    w.set_inline_mode(false);
                    w.end_tag();
                    proof {
                        assert(nl_text(st_set_inline(m.fmt, false)) =~= seq!['\n']);
                    }
                }
                Ok(())
            },
            Err(e) => Err(e),
        }
    }
}

/// Forces its subtree into inline mode: no indentation and no line breaks
/// until this wrapper's own tail restores the previous mode. Inside an
/// already inline region it does nothing at all.
#[must_use]
#[derive(Clone, Copy)]
pub struct Inliner<E> {
    pub elem: E,
}

impl<E> Locked for Inliner<E> {

}

impl<E: Elem> Elem for Inliner<E> {
    type Tail = InlinerTail<E::Tail>;

    open spec fn exact(self) -> bool {
        self.elem.exact()
    }

    open spec fn head_text(self, c: PrettyState) -> Seq<char> {
        if c.inline {
            self.elem.head_text(c)
        } else {
            indent_text(c) + self.elem.head_text(st_set_inline(c, true))
        }
    }

    open spec fn head_state(self, c: PrettyState) -> PrettyState {
        if c.inline {
            self.elem.head_state(c)
        } else {
            self.elem.head_state(st_set_inline(c, true))
        }
    }

    open spec fn head_tail(self, c: PrettyState) -> InlinerTail<E::Tail> {
        if c.inline {
            InlinerTail { reset: false, tail: self.elem.head_tail(c) }
        } else {
            InlinerTail { reset: true, tail: self.elem.head_tail(st_set_inline(c, true)) }
        }
    }

    open spec fn head_post(
        self,
        p: WriterState,
        q: WriterState,
        r: Result<InlinerTail<E::Tail>, RenderError>,
    ) -> bool {
        if p.fmt.inline {
            exists|re: Result<E::Tail, RenderError>|
                {
                    &&& #[trigger] self.elem.head_post(p, q, re)
                    &&& {
                        ||| (re is Ok && r is Ok && r->Ok_0 == (InlinerTail {
                            reset: false,
                            tail: re->Ok_0,
                        }))
                        ||| (re is Err && r is Err)
                    }
                }
        } else {
            exists|re: Result<E::Tail, RenderError>|
                {
                    &&& #[trigger] self.elem.head_post(
                        WriterState {
                            out: p.out + indent_text(p.fmt),
                            fmt: st_set_inline(p.fmt, true),
                        },
                        q,
                        re,
                    )
                    &&& {
                        ||| (re is Ok && r is Ok && r->Ok_0 == (InlinerTail {
                            reset: true,
                            tail: re->Ok_0,
                        }))
                        ||| (re is Err && r is Err)
                    }
                }
        }
    }

    proof fn head_exact_post(
        self,
        p: WriterState,
        q: WriterState,
        r: Result<InlinerTail<E::Tail>, RenderError>,
    ) {
        if p.fmt.inline {
            let re = choose|re: Result<E::Tail, RenderError>|
                {
                    &&& #[trigger] self.elem.head_post(p, q, re)
                    &&& {
                        ||| (re is Ok && r is Ok && r->Ok_0 == (InlinerTail {
                            reset: false,
                            tail: re->Ok_0,
                        }))
                        ||| (re is Err && r is Err)
                    }
                };
            self.elem.head_exact_post(p, q, re);
        } else {
            let p2 = WriterState {
                out: p.out + indent_text(p.fmt),
                fmt: st_set_inline(p.fmt, true),
            };
            let re = choose|re: Result<E::Tail, RenderError>|
                {
                    &&& #[trigger] self.elem.head_post(p2, q, re)
                    &&& {
                        ||| (re is Ok && r is Ok && r->Ok_0 == (InlinerTail {
                            reset: true,
                            tail: re->Ok_0,
                        }))
                        ||| (re is Err && r is Err)
                    }
                };
            self.elem.head_exact_post(p2, q, re);
            assert(q.out =~= p.out + self.head_text(p.fmt));
        }
    }

    fn render_head(self, w: &mut ElemWrite) -> (r: Result<InlinerTail<E::Tail>, RenderError>) {
        let Inliner { elem } = self;
        let ghost eg = elem;
        let ghost p = w@;
        let reset = if w.is_inline_mode() {
            false
        } else {
            w.tabs();
            w.set_inline_mode(true);
            true
        };
        let ghost p2 = w@;
        let r1 = elem.render_head(w);
        let ghost q = w@;
        match r1 {
            Ok(t) => {
                proof {
                    assert(eg.head_post(p2, q, Ok(t)));
                }
                Ok(InlinerTail { reset, tail: t })
            },
            Err(e) => {
                proof {
                    assert(eg.head_post(p2, q, Err(RenderError)));
                }
                Err(e)
            },
        }
    }
}

/// The relation rendering a sequence of elements in order (each head
/// immediately followed by its tail) guarantees.
pub open spec fn iter_post<E: Elem>(
    s: Seq<E>,
    p: WriterState,
    q: WriterState,
    r: Result<(), RenderError>,
) -> bool
    decreases s.len(),
{
    if s.len() == 0 {
        q == p && r is Ok
    } else {
        ||| (full_post(s[0], p, q, Err(RenderError)) && r is Err)
        ||| (exists|m: WriterState|
            #[trigger] full_post(s[0], p, m, Ok(())) && iter_post(s.drop_first(), m, q, r))
    }
}

/// The text rendering a sequence of exact elements appends.
pub open spec fn iter_text<E: Elem>(s: Seq<E>, c: PrettyState) -> Seq<char>
    decreases s.len(),
{
    if s.len() == 0 {
        Seq::empty()
    } else {
        full_text(s[0], c) + iter_text(s.drop_first(), full_state(s[0], c))
    }
}

/// The pretty state after rendering a sequence of exact elements.
pub open spec fn iter_state<E: Elem>(s: Seq<E>, c: PrettyState) -> PrettyState
    decreases s.len(),
{
    if s.len() == 0 {
        c
    } else {
        iter_state(s.drop_first(), full_state(s[0], c))
    }
}

pub open spec fn all_exact<E: Elem>(s: Seq<E>) -> bool {
    forall|i: int| 0 <= i < s.len() ==> (#[trigger] s[i]).exact()
}

/// For a sequence of exact elements the iteration relation collapses to the
/// exact text and state.
pub proof fn iter_exact_post<E: Elem>(
    s: Seq<E>,
    p: WriterState,
    q: WriterState,
    r: Result<(), RenderError>,
)
    requires
        all_exact(s),
        iter_post(s, p, q, r),
    ensures
        r is Ok,
        q.out == p.out + iter_text(s, p.fmt),
        q.fmt == iter_state(s, p.fmt),
    decreases s.len(),
{
    if s.len() == 0 {
        assert(p.out + Seq::<char>::empty() =~= p.out);
    } else {
        if full_post(s[0], p, q, Err(RenderError)) && r is Err {
            full_exact_post(s[0], p, q, Err(RenderError));
        } else {
            let m = choose|m: WriterState|
                #[trigger] full_post(s[0], p, m, Ok(())) && iter_post(s.drop_first(), m, q, r);
            full_exact_post(s[0], p, m, Ok(()));
            assert(all_exact(s.drop_first()));
            iter_exact_post(s.drop_first(), m, q, r);
            assert(q.out =~= p.out + iter_text(s, p.fmt));
        }
    }
}

/// Extending a successful iteration by one more successful element.
proof fn lemma_iter_post_snoc<E: Elem>(s: Seq<E>, x: E, p: WriterState, m: WriterState, q: WriterState)
    requires
        iter_post(s, p, m, Ok(())),
        full_post(x, m, q, Ok(())),
    ensures
        iter_post(s.push(x), p, q, Ok(())),
    decreases s.len(),
{
    if s.len() == 0 {
        assert(s.push(x)[0] == x);
        assert(s.push(x).drop_first() =~= Seq::<E>::empty());
        assert(iter_post(s.push(x).drop_first(), q, q, Ok(())));
    } else {
        let m1 = choose|m1: WriterState|
            #[trigger] full_post(s[0], p, m1, Ok(())) && iter_post(s.drop_first(), m1, m, Ok(()));
        lemma_iter_post_snoc(s.drop_first(), x, m1, m, q);
        assert(s.push(x)[0] == s[0]);
        assert(s.push(x).drop_first() =~= s.drop_first().push(x));
    }
}

/// A successful iteration followed by one failing element fails, whatever
/// elements would have come after.
proof fn lemma_iter_post_err<E: Elem>(
    s: Seq<E>,
    x: E,
    rest: Seq<E>,
    p: WriterState,
    m: WriterState,
    q: WriterState,
)
    requires
        iter_post(s, p, m, Ok(())),
        full_post(x, m, q, Err(RenderError)),
    ensures
        iter_post(s + seq![x] + rest, p, q, Err(RenderError)),
    decreases s.len(),
{
    if s.len() == 0 {
        assert((s + seq![x] + rest)[0] == x);
        assert(s + seq![x] + rest =~= seq![x] + rest);
    } else {
        let m1 = choose|m1: WriterState|
            #[trigger] full_post(s[0], p, m1, Ok(())) && iter_post(s.drop_first(), m1, m, Ok(()));
        lemma_iter_post_err(s.drop_first(), x, rest, m1, m, q);
        assert((s + seq![x] + rest)[0] == s[0]);
        assert((s + seq![x] + rest).drop_first() =~= s.drop_first() + seq![x] + rest);
    }
}

/// Renders each element of a vector in order, head and tail together; the
/// pending tail is empty, so iteration flattens same-level siblings.
#[must_use]
#[derive(Clone)]
pub struct Iter<E> {
    pub elems: Vec<E>,
}

impl<E: Elem> Iter<E> {
    pub fn new(elems: Vec<E>) -> (r: Iter<E>)
        ensures
            r.elems == elems,
    {
        Iter { elems }
    }
}

impl<E: Elem + Locked> Locked for Iter<E> {

}

impl<E: Elem> Elem for Iter<E> {
    type Tail = ();

    open spec fn exact(self) -> bool {
        all_exact(self.elems@)
    }

    open spec fn head_text(self, c: PrettyState) -> Seq<char> {
        iter_text(self.elems@, c)
    }

    open spec fn head_state(self, c: PrettyState) -> PrettyState {
        iter_state(self.elems@, c)
    }

    open spec fn head_tail(self, c: PrettyState) -> () {
        ()
    }

    open spec fn head_post(
        self,
        p: WriterState,
        q: WriterState,
        r: Result<(), RenderError>,
    ) -> bool {
        iter_post(self.elems@, p, q, r)
    }

    proof fn head_exact_post(self, p: WriterState, q: WriterState, r: Result<(), RenderError>) {
        iter_exact_post(self.elems@, p, q, r);
    }

    #[verifier::loop_isolation(false)]
    fn render_head(self, w: &mut ElemWrite) -> (r: Result<(), RenderError>) {
        let ghost sg = self;
        let Iter { elems } = self;
        let mut elems = elems;
        let ghost s0 = elems@;
        let ghost p = w@;
        let n = elems.len();
        let mut i: usize = 0;
        while i < n
            invariant
                i <= n,
                n == s0.len(),
                elems@ == s0.subrange(i as int, n as int),
                iter_post(s0.subrange(0, i as int), p, w@, Ok(())),
            decreases n - i,
        {
            let e = elems.remove(0);
            let ghost eg = e;
            let ghost m = w@;
            let r1 = render_full(e, w);
            let ghost q = w@;
            match r1 {
                Ok(u) => {
                    proof {
                        assert(u == ());
                        assert(full_post(eg, m, q, Ok(())));
                        lemma_iter_post_snoc(s0.subrange(0, i as int), eg, p, m, q);
                        assert(s0.subrange(0, i as int).push(eg) =~= s0.subrange(0, i + 1));
                        assert(elems@ =~= s0.subrange(i + 1, n as int));
                    }
                    i = i + 1;
                },
                Err(er) => {
                    proof {
                        assert(full_post(eg, m, q, Err(RenderError)));
                        lemma_iter_post_err(
                            s0.subrange(0, i as int),
                            eg,
                            s0.subrange(i + 1, n as int),
                            p,
                            m,
                            q,
                        );
                        assert(s0.subrange(0, i as int) + seq![eg] + s0.subrange(i + 1, n as int)
                            =~= s0);
                        assert(er == RenderError);
                    }
                    return Err(er);
                },
            }
        }
        proof {
            assert(s0.subrange(0, n as int) =~= s0);
        }
        Ok(())
    }
}

} // verus!

verus! {

impl ElemWrite {
    /// Drive one escaping-safe element through this writer, head and tail.
    pub fn render<E: Elem + Locked>(&mut self, elem: E) -> (r: Result<(), RenderError>)
        ensures
            full_post(elem, old(self)@, final(self)@, r),
    {
        render_full(elem, self)
    }

    /// Build the element on the spot, then render it fully.
    pub fn render_map<E: Elem + Locked, F: FnOnce() -> E>(&mut self, func: F) -> (r: Result<
        (),
        RenderError,
    >)
        requires
            call_requires(func, ()),
        ensures
            exists|e: E|
                #[trigger] call_ensures(func, (), e) && full_post(e, old(self)@, final(self)@, r),
    {
        let e = func();
        let ghost eg = e;
        let ghost p = self@;
        let r = render_full(e, self);
        proof {
            assert(call_ensures(func, (), eg) && full_post(eg, p, self@, r));
        }
        r
    }

    /// Open an element and hand the writer to a closure that fills in its
    /// children; the element is closed when the session ends.
    pub fn session<E: Elem + Locked>(self, elem: E) -> (r: Session<E>)
        ensures
            r.elem == elem,
            r.writer@ == self@,
    {
        Session { elem, writer: self }
    }

    /// As `session`, with the element built on the spot.
    pub fn session_map<E: Elem + Locked, F: FnOnce() -> E>(self, func: F) -> (r: Session<E>)
        requires
            call_requires(func, ()),
        ensures
            call_ensures(func, (), r.elem),
            r.writer@ == self@,
    {
        let elem = func();
        Session { elem, writer: self }
    }

    pub(crate) fn into_escapable(self) -> (r: ElemWriteEscapable)
        ensures
            r@ == self@,
    {
        ElemWriteEscapable { inner: self }
    }
}

/// Writer passed to escapable closure elements: it can also write raw,
/// unescaped markup.
#[must_use]
pub struct ElemWriteEscapable {
    inner: ElemWrite,
}

impl View for ElemWriteEscapable {
    type V = WriterState;

    closed spec fn view(&self) -> WriterState {
        self.inner@
    }
}

impl ElemWriteEscapable {
    /// Append text with the reserved characters escaped.
    pub fn write_str(&mut self, s: &str)
        ensures
            final(self)@.out == old(self)@.out + escape_seq(s@),
            final(self)@.fmt == old(self)@.fmt,
    {
        self.inner.write_str(s);
    }

    /// Append text unchanged: the caller asserts it is trusted markup.
    pub fn write_str_escapable(&mut self, s: &str)
        ensures
            final(self)@.out == old(self)@.out + s@,
            final(self)@.fmt == old(self)@.fmt,
    {
        self.inner.write_raw(s);
    }

    /// Drive any element through this writer, head and tail.
    pub fn render<E: Elem>(&mut self, elem: E) -> (r: Result<(), RenderError>)
        ensures
            full_post(elem, old(self)@, final(self)@, r),
    {
        render_full(elem, &mut self.inner)
    }

    /// Build the element on the spot, then render it fully.
    pub fn render_map<E: Elem, F: FnOnce() -> E>(&mut self, func: F) -> (r: Result<
        (),
        RenderError,
    >)
        requires
            call_requires(func, ()),
        ensures
            exists|e: E|
                #[trigger] call_ensures(func, (), e) && full_post(e, old(self)@, final(self)@, r),
    {
        let e = func();
        let ghost eg = e;
        let ghost p = self@;
        let r = render_full(e, &mut self.inner);
        proof {
            assert(call_ensures(func, (), eg) && full_post(eg, p, self@, r));
        }
        r
    }

    /// Open an element and hand the writer to a closure that fills in its
    /// children; the element is closed when the session ends.
    pub fn session<E: Elem>(self, elem: E) -> (r: SessionEscapable<E>)
        ensures
            r.elem == elem,
            r.writer@ == self@,
    {
        SessionEscapable { elem, writer: self }
    }

    /// As `session`, with the element built on the spot.
    pub fn session_map<E: Elem, F: FnOnce() -> E>(self, func: F) -> (r: SessionEscapable<E>)
        requires
            call_requires(func, ()),
        ensures
            call_ensures(func, (), r.elem),
            r.writer@ == self@,
    {
        let elem = func();
        SessionEscapable { elem, writer: self }
    }

    pub(crate) fn into_elem_write(self) -> (r: ElemWrite)
        ensures
            r@ == self@,
    {
        self.inner
    }
}

/// What a session guarantees: the element's head ran, then the closure with
/// the writer, then (if the closure succeeded) the element's tail.
pub open spec fn session_post<E: Elem, F: FnOnce(ElemWrite) -> (ElemWrite, Result<(), RenderError>)>(
    elem: E,
    func: F,
    p: WriterState,
    w_out: ElemWrite,
    r: Result<(), RenderError>,
) -> bool {
    ||| (elem.head_post(p, w_out@, Err(RenderError)) && r is Err)
    ||| (exists|t: E::Tail, m: ElemWrite, m2: ElemWrite, rf: Result<(), RenderError>|
        {
            &&& #[trigger] elem.head_post(p, m@, Ok(t))
            &&& #[trigger] call_ensures(func, (m,), (m2, rf))
            &&& match rf {
                Result::Ok(u) => t.tail_post(m2@, w_out@, r),
                Result::Err(e) => w_out == m2 && r is Err,
            }
        })
}

/// A pending closure session over an escaping-safe element.
#[must_use]
pub struct Session<E> {
    pub elem: E,
    pub writer: ElemWrite,
}

impl<E: Elem> Session<E> {
    /// Render the element's head, run the closure to emit its children, and
    /// close the element. The writer comes back with the result.
    pub fn build<F: FnOnce(ElemWrite) -> (ElemWrite, Result<(), RenderError>)>(
        self,
        func: F,
    ) -> (res: (ElemWrite, Result<(), RenderError>))
        requires
            forall|ew: ElemWrite| call_requires(func, (ew,)),
        ensures
            session_post(self.elem, func, self.writer@, res.0, res.1),
    {
        let Session { elem, mut writer } = self;
        let ghost eg = elem;
        let ghost p = writer@;
        let r1 = elem.render_head(&mut writer);
        match r1 {
            Ok(t) => {
                let ghost tg = t;
                let ghost m = writer;
                let (mut w2, rf) = func(writer);
                let ghost m2 = w2;
                proof {
                    assert(eg.head_post(p, m@, Ok(tg)));
                }
                match rf {
                    Ok(u) => {
                        let rt = t.render(&mut w2);
                        proof {
                            assert(call_ensures(func, (m,), (m2, Ok::<(), RenderError>(()))));
                        }
                        (w2, rt)
                    },
                    Err(e) => {
                        proof {
                            assert(call_ensures(func, (m,), (m2, Err::<(), RenderError>(e))));
                            assert(e == RenderError);
                        }
                        (w2, Err(e))
                    },
                }
            },
            Err(e) => (writer, Err(e)),
        }
    }
}

/// What an escapable session guarantees.
pub open spec fn session_escapable_post<
    E: Elem,
    F: FnOnce(ElemWriteEscapable) -> (ElemWriteEscapable, Result<(), RenderError>),
>(
    elem: E,
    func: F,
    p: WriterState,
    w_out: ElemWriteEscapable,
    r: Result<(), RenderError>,
) -> bool {
    ||| (elem.head_post(p, w_out@, Err(RenderError)) && r is Err)
    ||| (exists|t: E::Tail, m: ElemWriteEscapable, m2: ElemWriteEscapable, rf: Result<
        (),
        RenderError,
    >|
        {
            &&& #[trigger] elem.head_post(p, m@, Ok(t))
            &&& #[trigger] call_ensures(func, (m,), (m2, rf))
            &&& match rf {
                Result::Ok(u) => t.tail_post(m2@, w_out@, r),
                Result::Err(e) => w_out == m2 && r is Err,
            }
        })
}

/// A pending closure session that may also write raw markup.
#[must_use]
pub struct SessionEscapable<E> {
    pub elem: E,
    pub writer: ElemWriteEscapable,
}

impl<E: Elem> SessionEscapable<E> {
    /// Render the element's head, run the closure to emit its children, and
    /// close the element. The writer comes back with the result.
    pub fn build<F: FnOnce(ElemWriteEscapable) -> (ElemWriteEscapable, Result<(), RenderError>)>(
        self,
        func: F,
    ) -> (res: (ElemWriteEscapable, Result<(), RenderError>))
        requires
            forall|ew: ElemWriteEscapable| call_requires(func, (ew,)),
        ensures
            session_escapable_post(self.elem, func, self.writer@, res.0, res.1),
    {
        let SessionEscapable { elem, writer } = self;
        let ghost eg = elem;
        let ghost p = writer@;
        let mut inner = writer.into_elem_write();
        let r1 = elem.render_head(&mut inner);
        let writer = inner.into_escapable();
        match r1 {
            Ok(t) => {
                let ghost tg = t;
                let ghost m = writer;
                let (w2, rf) = func(writer);
                let ghost m2 = w2;
                proof {
                    assert(eg.head_post(p, m@, Ok(tg)));
                }
                match rf {
                    Ok(u) => {
                        let mut inner2 = w2.into_elem_write();
                        let rt = t.render(&mut inner2);
                        let w3 = inner2.into_escapable();
                        proof {
                            assert(call_ensures(func, (m,), (m2, Ok::<(), RenderError>(()))));
                            assert(tg.tail_post(m2@, w3@, rt));
                        }
                        (w3, rt)
                    },
                    Err(e) => {
                        proof {
                            assert(call_ensures(func, (m,), (m2, Err::<(), RenderError>(e))));
                            assert(e == RenderError);
                        }
                        (w2, Err(e))
                    },
                }
            },
            Err(e) => (writer, Err(e)),
        }
    }
}

} // verus!

verus! {

/// An element whose head is a caller-supplied closure over the escaping-safe
/// writer. What it renders is whatever the closure's own contract says; its
/// tail is empty.
#[must_use]
pub struct Closure<F: FnOnce(ElemWrite) -> (ElemWrite, Result<(), RenderError>)> {
    func: F,
}

impl<F: FnOnce(ElemWrite) -> (ElemWrite, Result<(), RenderError>)> Closure<F> {
    #[verifier::type_invariant]
    spec fn wf(self) -> bool {
        forall|ew: ElemWrite| call_requires(self.func, (ew,))
    }

    /// The closure this element runs, for use in contracts.
    pub closed spec fn func_spec(self) -> F {
        self.func
    }

    pub fn new(func: F) -> (r: Closure<F>)
        requires
            forall|ew: ElemWrite| call_requires(func, (ew,)),
        ensures
            r.func_spec() == func,
    {
        Closure { func }
    }
}

impl<F: FnOnce(ElemWrite) -> (ElemWrite, Result<(), RenderError>)> Locked for Closure<F> {

}

impl<F: FnOnce(ElemWrite) -> (ElemWrite, Result<(), RenderError>)> Elem for Closure<F> {
    type Tail = ();

    open spec fn exact(self) -> bool {
        false
    }

    open spec fn head_text(self, c: PrettyState) -> Seq<char> {
        Seq::empty()
    }

    open spec fn head_state(self, c: PrettyState) -> PrettyState {
        c
    }

    open spec fn head_tail(self, c: PrettyState) -> () {
        ()
    }

    open spec fn head_post(
        self,
        p: WriterState,
        q: WriterState,
        r: Result<(), RenderError>,
    ) -> bool {
        exists|w1: ElemWrite, w2: ElemWrite|
            {
                &&& w1@ == p
                &&& w2@ == q
                &&& #[trigger] call_ensures(self.func_spec(), (w1,), (w2, r))
            }
    }

    proof fn head_exact_post(self, p: WriterState, q: WriterState, r: Result<(), RenderError>) {
    }

    fn render_head(self, w: &mut ElemWrite) -> (r: Result<(), RenderError>) {
        proof {
            use_type_invariant(&self);
        }
        let ghost selfg = self;
        let mut tmp = ElemWrite::new(WriteWrap::new(), InlineController::new());
        core::mem::swap(w, &mut tmp);
        let ghost w1 = tmp;
        let (mut out, r) = (self.func)(tmp);
        core::mem::swap(w, &mut out);
        proof {
            assert(call_ensures(selfg.func_spec(), (w1,), (*w, r)));
        }
        r
    }
}

/// An element whose head is a caller-supplied closure over the escapable
/// writer, so it may emit raw markup; its tail is empty.
#[must_use]
pub struct ClosureEscapable<
    F: FnOnce(ElemWriteEscapable) -> (ElemWriteEscapable, Result<(), RenderError>),
> {
    func: F,
}

impl<F: FnOnce(ElemWriteEscapable) -> (ElemWriteEscapable, Result<(), RenderError>)> ClosureEscapable<F> {
    #[verifier::type_invariant]
    spec fn wf(self) -> bool {
        forall|ew: ElemWriteEscapable| call_requires(self.func, (ew,))
    }

    /// The closure this element runs, for use in contracts.
    pub closed spec fn func_spec(self) -> F {
        self.func
    }

    pub fn new(func: F) -> (r: ClosureEscapable<F>)
        requires
            forall|ew: ElemWriteEscapable| call_requires(func, (ew,)),
        ensures
            r.func_spec() == func,
    {
        ClosureEscapable { func }
    }
}

impl<F: FnOnce(ElemWriteEscapable) -> (ElemWriteEscapable, Result<(), RenderError>)> Elem for ClosureEscapable<F> {
    type Tail = ();

    open spec fn exact(self) -> bool {
        false
    }

    open spec fn head_text(self, c: PrettyState) -> Seq<char> {
        Seq::empty()
    }

    open spec fn head_state(self, c: PrettyState) -> PrettyState {
        c
    }

    open spec fn head_tail(self, c: PrettyState) -> () {
        ()
    }

    open spec fn head_post(
        self,
        p: WriterState,
        q: WriterState,
        r: Result<(), RenderError>,
    ) -> bool {
        exists|w1: ElemWriteEscapable, w2: ElemWriteEscapable|
            {
                &&& w1@ == p
                &&& w2@ == q
                &&& #[trigger] call_ensures(self.func_spec(), (w1,), (w2, r))
            }
    }

    proof fn head_exact_post(self, p: WriterState, q: WriterState, r: Result<(), RenderError>) {
    }

    fn render_head(self, w: &mut ElemWrite) -> (r: Result<(), RenderError>) {
        proof {
            use_type_invariant(&self);
        }
        let ghost selfg = self;
        let mut tmp = ElemWrite::new(WriteWrap::new(), InlineController::new());
        core::mem::swap(w, &mut tmp);
        let esc = tmp.into_escapable();
        let ghost w1 = esc;
        let (out, r) = (self.func)(esc);
        let ghost w2 = out;
        let mut inner = out.into_elem_write();
        core::mem::swap(w, &mut inner);
        proof {
            assert(call_ensures(selfg.func_spec(), (w1,), (w2, r)));
        }
        r
    }
}

/// An element built on the spot by a closure that returns another element.
#[must_use]
#[verifier::reject_recursive_types(E)]
pub struct Closure2<E: Elem, F: FnOnce() -> E> {
    func: F,
    _p: core::marker::PhantomData<E>,
}

impl<E: Elem, F: FnOnce() -> E> Closure2<E, F> {
    #[verifier::type_invariant]
    spec fn wf(self) -> bool {
        call_requires(self.func, ())
    }

    /// The closure this element runs, for use in contracts.
    pub closed spec fn func_spec(self) -> F {
        self.func
    }

    pub fn new(func: F) -> (r: Closure2<E, F>)
        requires
            call_requires(func, ()),
        ensures
            r.func_spec() == func,
    {
        Closure2 { func, _p: core::marker::PhantomData }
    }
}

impl<E: Elem, F: FnOnce() -> E> Locked for Closure2<E, F> {

}

impl<E: Elem, F: FnOnce() -> E> Elem for Closure2<E, F> {
    type Tail = E::Tail;

    open spec fn exact(self) -> bool {
        false
    }

    open spec fn head_text(self, c: PrettyState) -> Seq<char> {
        Seq::empty()
    }

    open spec fn head_state(self, c: PrettyState) -> PrettyState {
        c
    }

    open spec fn head_tail(self, c: PrettyState) -> E::Tail {
        vstd::pervasive::arbitrary()
    }

    open spec fn head_post(
        self,
        p: WriterState,
        q: WriterState,
        r: Result<E::Tail, RenderError>,
    ) -> bool {
        exists|e: E|
            #[trigger] call_ensures(self.func_spec(), (), e) && e.head_post(p, q, r)
    }

    proof fn head_exact_post(self, p: WriterState, q: WriterState, r: Result<E::Tail, RenderError>) {
    }

    fn render_head(self, w: &mut ElemWrite) -> (r: Result<E::Tail, RenderError>) {
        proof {
            use_type_invariant(&self);
        }
        let ghost selfg = self;
        let ghost p = w@;
        let e = (self.func)();
        let ghost eg = e;
        let r = e.render_head(w);
        proof {
            assert(call_ensures(selfg.func_spec(), (), eg) && eg.head_post(p, w@, r));
        }
        r
    }
}

} // verus!

verus! {

/// What `BufferedElem::new` guarantees: the head buffer holds one head
/// render of the element from an empty sink, and the tail buffer holds the
/// matching tail render, with the pretty state carried across.
pub open spec fn buffered_new_post<E: Elem>(
    elem: E,
    c: PrettyState,
    r: Result<BufferedElem, RenderError>,
) -> bool {
    let start = WriterState { out: Seq::empty(), fmt: c };
    ||| (exists|m: WriterState, tl: E::Tail, q: WriterState|
        {
            &&& #[trigger] elem.head_post(start, m, Ok(tl))
            &&& #[trigger] tl.tail_post(WriterState { out: Seq::empty(), fmt: m.fmt }, q, Ok(()))
            &&& r is Ok
            &&& r->Ok_0.head@ == m.out
            &&& r->Ok_0.tail@ == q.out
        })
    ||| (elem.head_post(start, choose|m: WriterState| elem.head_post(start, m, Err(RenderError)), Err(RenderError)) && r is Err)
    ||| (exists|m: WriterState, tl: E::Tail, q: WriterState|
        {
            &&& #[trigger] elem.head_post(start, m, Ok(tl))
            &&& #[trigger] tl.tail_post(WriterState { out: Seq::empty(), fmt: m.fmt }, q, Err(RenderError))
            &&& r is Err
        })
}

/// For an exact element, buffering always succeeds and the two buffers hold
/// exactly the element's head and tail texts.
pub proof fn buffered_new_exact_post<E: Elem>(
    elem: E,
    c: PrettyState,
    r: Result<BufferedElem, RenderError>,
)
    requires
        elem.exact(),
        buffered_new_post(elem, c, r),
    ensures
        r is Ok,
        r->Ok_0.head@ == elem.head_text(c),
        r->Ok_0.tail@ == elem.head_tail(c).tail_text(elem.head_state(c)),
{
    let start = WriterState { out: Seq::empty(), fmt: c };
    if exists|m: WriterState, tl: E::Tail, q: WriterState|
        {
            &&& #[trigger] elem.head_post(start, m, Ok(tl))
            &&& #[trigger] tl.tail_post(WriterState { out: Seq::empty(), fmt: m.fmt }, q, Ok(()))
            &&& r is Ok
            &&& r->Ok_0.head@ == m.out
            &&& r->Ok_0.tail@ == q.out
        } {
        let (m, tl, q) = choose|m: WriterState, tl: E::Tail, q: WriterState|
            {
                &&& #[trigger] elem.head_post(start, m, Ok(tl))
                &&& #[trigger] tl.tail_post(
                    WriterState { out: Seq::empty(), fmt: m.fmt },
                    q,
                    Ok(()),
                )
                &&& r is Ok
                &&& r->Ok_0.head@ == m.out
                &&& r->Ok_0.tail@ == q.out
            };
        elem.head_exact_post(start, m, Ok(tl));
        tl.tail_exact_post(WriterState { out: Seq::empty(), fmt: m.fmt }, q, Ok(()));
        assert(Seq::<char>::empty() + elem.head_text(c) =~= elem.head_text(c));
        assert(Seq::<char>::empty() + tl.tail_text(m.fmt) =~= tl.tail_text(m.fmt));
    } else if r is Err {
        if elem.head_post(
            start,
            choose|m: WriterState| elem.head_post(start, m, Err(RenderError)),
            Err(RenderError),
        ) {
            elem.head_exact_post(
                start,
                choose|m: WriterState| elem.head_post(start, m, Err(RenderError)),
                Err(RenderError),
            );
        } else {
            let (m, tl, q) = choose|m: WriterState, tl: E::Tail, q: WriterState|
                {
                    &&& #[trigger] elem.head_post(start, m, Ok(tl))
                    &&& #[trigger] tl.tail_post(
                        WriterState { out: Seq::empty(), fmt: m.fmt },
                        q,
                        Err(RenderError),
                    )
                    &&& r is Err
                };
            elem.head_exact_post(start, m, Ok(tl));
            tl.tail_exact_post(WriterState { out: Seq::empty(), fmt: m.fmt }, q, Err(RenderError));
        }
    }
}

/// An element pre-rendered to two strings: replaying them trades memory for
/// speed when the same subtree is emitted over and over.
#[derive(Clone)]
pub struct BufferedElem {
    pub head: String,
    pub tail: String,
}

impl BufferedElem {
    /// Render the element's head and tail once each into buffers, carrying
    /// the given pretty-print controller through both phases.
    pub fn new<E: Elem + Locked>(elem: E, fmt: InlineController) -> (r: Result<
        BufferedElem,
        RenderError,
    >)
        ensures
            buffered_new_post(elem, fmt@, r),
    {
        let ghost eg = elem;
        let ghost c = fmt@;
        let mut w = ElemWrite::new(WriteWrap::new(), fmt);
        let r1 = elem.render_head(&mut w);
        let (head_wrap, fmt2) = w.into_parts();
        match r1 {
            Ok(t) => {
                let ghost tg = t;
                let ghost m = WriterState { out: head_wrap@, fmt: fmt2@ };
                let mut w2 = ElemWrite::new(WriteWrap::new(), fmt2);
                let r2 = t.render(&mut w2);
                let (tail_wrap, _fmt3) = w2.into_parts();
                match r2 {
                    Ok(u) => {
                        let b = BufferedElem {
                            head: head_wrap.into_string(),
                            tail: tail_wrap.into_string(),
                        };
                        proof {
                            assert(u == ());
                            assert(eg.head_post(
                                WriterState { out: Seq::empty(), fmt: c },
                                m,
                                Ok(tg),
                            ));
                            assert(tg.tail_post(
                                WriterState { out: Seq::empty(), fmt: m.fmt },
                                WriterState { out: b.tail@, fmt: _fmt3@ },
                                Ok(()),
                            ));
                        }
                        Ok(b)
                    },
                    Err(e) => {
                        proof {
                            assert(e == RenderError);
                            assert(eg.head_post(
                                WriterState { out: Seq::empty(), fmt: c },
                                m,
                                Ok(tg),
                            ));
                            assert(tg.tail_post(
                                WriterState { out: Seq::empty(), fmt: m.fmt },
                                WriterState { out: tail_wrap@, fmt: _fmt3@ },
                                Err(RenderError),
                            ));
                        }
                        Err(e)
                    },
                }
            },
            Err(e) => {
                proof {
                    assert(e == RenderError);
                    assert(eg.head_post(
                        WriterState { out: Seq::empty(), fmt: c },
                        WriterState { out: head_wrap@, fmt: fmt2@ },
                        Err(RenderError),
                    ));
                }
                Err(e)
            },
        }
    }

    pub fn into_parts(self) -> (r: (String, String))
        ensures
            r.0 == self.head,
            r.1 == self.tail,
    {
        (self.head, self.tail)
    }
}

/// The tail of a buffered element: replays the buffered closing text.
pub struct BufferedTail<'a> {
    pub tail: &'a String,
}

impl<'a> ElemTail for BufferedTail<'a> {
    open spec fn tail_exact(self) -> bool {
        true
    }

    open spec fn tail_text(self, c: PrettyState) -> Seq<char> {
        self.tail@
    }

    open spec fn tail_state(self, c: PrettyState) -> PrettyState {
        c
    }

    open spec fn tail_post(
        self,
        p: WriterState,
        q: WriterState,
        r: Result<(), RenderError>,
    ) -> bool {
        q.out == p.out + self.tail@ && q.fmt == p.fmt && r is Ok
    }

    proof fn tail_exact_post(self, p: WriterState, q: WriterState, r: Result<(), RenderError>) {
    }

    fn render(self, w: &mut ElemWrite) -> (r: Result<(), RenderError>) {
        w.write_raw(self.tail.as_str());
        Ok(())
    }
}

impl<'a> Locked for &'a BufferedElem {

}

/// Replaying a buffered element: the head buffer verbatim now, the tail
/// buffer verbatim when the tail runs; the pretty state is untouched.
impl<'a> Elem for &'a BufferedElem {
    type Tail = BufferedTail<'a>;

    open spec fn exact(self) -> bool {
        true
    }

    open spec fn head_text(self, c: PrettyState) -> Seq<char> {
        self.head@
    }

    open spec fn head_state(self, c: PrettyState) -> PrettyState {
        c
    }

    open spec fn head_tail(self, c: PrettyState) -> BufferedTail<'a> {
        BufferedTail { tail: &self.tail }
    }

    open spec fn head_post(
        self,
        p: WriterState,
        q: WriterState,
        r: Result<BufferedTail<'a>, RenderError>,
    ) -> bool {
        q.out == p.out + self.head@ && q.fmt == p.fmt && r == Ok::<BufferedTail<'a>, RenderError>(
            BufferedTail { tail: &self.tail },
        )
    }

    proof fn head_exact_post(
        self,
        p: WriterState,
        q: WriterState,
        r: Result<BufferedTail<'a>, RenderError>,
    ) {
    }

    fn render_head(self, w: &mut ElemWrite) -> (r: Result<BufferedTail<'a>, RenderError>) {
        w.write_raw(self.head.as_str());
        Ok(BufferedTail { tail: &self.tail })
    }
}

} // verus!

verus! {

/// Balanced tags: a paired element's render is its open tag `<tag ...>`,
/// then exactly its nested children one level deeper, then the close tag of
/// the same `tag` — so every open tag is matched by its own close tag
/// around precisely its children. When the children leave the pretty state
/// as they found it, the whole element does too.
pub proof fn lemma_balanced_tags<A: Attr, K: Elem>(tag: String, attr: A, child: K, c: PrettyState)
    requires
        attr.exact(),
        child.exact(),
    ensures
        full_text((Append { top: Element { tag, attr }, bottom: child }), c)
            == element_open_text(tag@, attr.attr_text(), c) + full_text(child, st_push(c))
            + element_close_text(tag@, full_state(child, st_push(c))),
        full_state((Append { top: Element { tag, attr }, bottom: child }), c)
            == st_pop(full_state(child, st_push(c))),
        c.tabs < usize::MAX && full_state(child, st_push(c)) == st_push(c) ==> full_state(
            (Append { top: Element { tag, attr }, bottom: child }),
            c,
        ) == c,
{
    let e = Append { top: Element { tag, attr }, bottom: child };
    assert(full_text(e, c) =~= element_open_text(tag@, attr.attr_text(), c) + full_text(
        child,
        st_push(c),
    ) + element_close_text(tag@, full_state(child, st_push(c))));
}

/// Sequencing: `chain(a, b)` renders all of `a`, then the head of `b`; the
/// pending tail is `b`'s, and a full render is `a`'s full render followed by
/// `b`'s.
pub proof fn lemma_chain_sequencing<A: Elem, B: Elem>(a: A, b: B, c: PrettyState)
    ensures
        (Chain { top: a, bottom: b }).head_text(c) == full_text(a, c) + b.head_text(
            full_state(a, c),
        ),
        (Chain { top: a, bottom: b }).head_tail(c) == b.head_tail(full_state(a, c)),
        full_text((Chain { top: a, bottom: b }), c) == full_text(a, c) + full_text(
            b,
            full_state(a, c),
        ),
{
    assert(full_text(Chain { top: a, bottom: b }, c) =~= full_text(a, c) + full_text(
        b,
        full_state(a, c),
    ));
}

/// Nesting: `append(a, b)` renders `a`'s head, then all of `b` inside it;
/// the pending tail is `a`'s, so `a` closes only after `b` is done.
pub proof fn lemma_append_nesting<A: Elem, B: Elem>(a: A, b: B, c: PrettyState)
    ensures
        (Append { top: a, bottom: b }).head_text(c) == a.head_text(c) + full_text(
            b,
            a.head_state(c),
        ),
        (Append { top: a, bottom: b }).head_tail(c) == a.head_tail(c),
        full_text((Append { top: a, bottom: b }), c) == a.head_text(c) + full_text(
            b,
            a.head_state(c),
        ) + a.head_tail(c).tail_text(full_state(b, a.head_state(c))),
{
    assert(full_text(Append { top: a, bottom: b }, c) =~= a.head_text(c) + full_text(
        b,
        a.head_state(c),
    ) + a.head_tail(c).tail_text(full_state(b, a.head_state(c))));
}

/// Inline suppression is idempotent: wrapping a subtree in two inline
/// wrappers renders exactly as one wrapper does, and leaves the same state.
/// The inner wrapper sees inline mode already forced and does nothing.
pub proof fn lemma_inline_idempotent<E: Elem>(e: E, c: PrettyState)
    ensures
        full_text((Inliner { elem: Inliner { elem: e } }), c) == full_text((Inliner { elem: e }), c),
        full_state((Inliner { elem: Inliner { elem: e } }), c) == full_state(
            (Inliner { elem: e }),
            c,
        ),
{
    assert(full_text(Inliner { elem: Inliner { elem: e } }, c) =~= full_text(
        Inliner { elem: e },
        c,
    ));
}

/// Iteration splits at any boundary: rendering `s1 + s2` in order appends
/// `s1`'s text, then `s2`'s from the state `s1` left behind.
pub proof fn lemma_iter_text_append<E: Elem>(s1: Seq<E>, s2: Seq<E>, c: PrettyState)
    ensures
        iter_text(s1 + s2, c) == iter_text(s1, c) + iter_text(s2, iter_state(s1, c)),
        iter_state(s1 + s2, c) == iter_state(s2, iter_state(s1, c)),
    decreases s1.len(),
{
    if s1.len() == 0 {
        assert(s1 + s2 =~= s2);
        assert(iter_text(s1, c) + iter_text(s2, c) =~= iter_text(s2, c));
    } else {
        assert((s1 + s2)[0] == s1[0]);
        assert((s1 + s2).drop_first() =~= s1.drop_first() + s2);
        lemma_iter_text_append(s1.drop_first(), s2, full_state(s1[0], c));
        assert(iter_text(s1 + s2, c) =~= iter_text(s1, c) + iter_text(s2, iter_state(s1, c)));
    }
}

/// Iterating two elements renders both in order with no pending tail, equal
/// to chaining them directly.
pub proof fn lemma_iter_matches_chain<E: Elem>(a: E, b: E, c: PrettyState)
    ensures
        iter_text(seq![a, b], c) == full_text((Chain { top: a, bottom: b }), c),
        iter_state(seq![a, b], c) == full_state((Chain { top: a, bottom: b }), c),
{
    let s = seq![a, b];
    let c2 = full_state(a, c);
    assert(s[0] == a);
    assert(s.drop_first() =~= seq![b]);
    assert(seq![b].drop_first() =~= Seq::<E>::empty());
    assert(iter_text(Seq::<E>::empty(), full_state(b, c2)) == Seq::<char>::empty());
    assert(iter_state(Seq::<E>::empty(), full_state(b, c2)) == full_state(b, c2));
    assert(iter_text(seq![b], c2) =~= full_text(b, c2));
    assert(iter_state(seq![b], c2) == full_state(b, c2));
    assert(iter_text(s, c) =~= full_text(a, c) + full_text(b, c2));
    assert(full_text(Chain { top: a, bottom: b }, c) =~= full_text(a, c) + full_text(b, c2));
    assert(iter_state(s, c) == full_state(b, c2));
}

/// Replaying a buffered element is idempotent: each replay appends the same
/// bytes — the element's own full text — and leaves the pretty state
/// untouched, so rendering it twice equals rendering the element fresh
/// twice whenever the element itself restores the inline flag.
pub proof fn lemma_buffered_replay<E: Elem>(e: E, b: &BufferedElem, c: PrettyState)
    requires
        e.exact(),
        b.head@ == e.head_text(c),
        b.tail@ == e.head_tail(c).tail_text(e.head_state(c)),
    ensures
        full_text(b, c) == full_text(e, c),
        full_state(b, c) == c,
        full_state(e, c).inline == c.inline ==> full_text(b, c) + nl_text(full_state(b, c))
            == full_text(e, c) + nl_text(full_state(e, c)),
{
    assert(full_text(b, c) =~= full_text(e, c));
}

} // verus!

verus! {

/// An abstract grammar of well-nested markup text. A string belongs to the
/// language when some tree of this grammar renders to it; in a `Node` the
/// open tag and the close tag carry the same name around exactly the node's
/// body, so membership is the string-level statement of tag balance.
pub enum Markup {
    /// Text with no angle brackets at all.
    Free(Seq<char>),
    /// `<` inner `>` with an angle-free inner: a self-closing or single tag.
    SelfTag(Seq<char>),
    /// `<` name rest `>` body `</` name `>`: a paired tag around its body.
    Node(Seq<char>, Seq<char>, Box<Markup>),
    /// Two well-nested pieces side by side.
    Cat(Box<Markup>, Box<Markup>),
}

pub open spec fn wf_markup(m: Markup) -> bool
    decreases m,
{
    match m {
        Markup::Free(s) => angle_free(s),
        Markup::SelfTag(s) => angle_free(s),
        Markup::Node(name, rest, body) => angle_free(name) && angle_free(rest) && wf_markup(
            *body,
        ),
        Markup::Cat(a, b) => wf_markup(*a) && wf_markup(*b),
    }
}

pub open spec fn markup_text(m: Markup) -> Seq<char>
    decreases m,
{
    match m {
        Markup::Free(s) => s,
        Markup::SelfTag(s) => seq!['<'] + s + seq!['>'],
        Markup::Node(name, rest, body) => seq!['<'] + name + rest + seq!['>'] + markup_text(*body)
            + seq!['<', '/'] + name + seq!['>'],
        Markup::Cat(a, b) => markup_text(*a) + markup_text(*b),
    }
}

/// The string-level balance predicate: the text is generated by the
/// well-nested markup grammar, so every `<TAG ...>` in it is closed by its
/// own `</TAG>`, properly nested.
pub open spec fn balanced_markup(s: Seq<char>) -> bool {
    exists|m: Markup| wf_markup(m) && #[trigger] markup_text(m) == s
}

pub proof fn lemma_balanced_free(s: Seq<char>)
    requires
        angle_free(s),
    ensures
        balanced_markup(s),
{
    assert(wf_markup(Markup::Free(s)) && markup_text(Markup::Free(s)) == s);
}

pub proof fn lemma_balanced_cat(s1: Seq<char>, s2: Seq<char>)
    requires
        balanced_markup(s1),
        balanced_markup(s2),
    ensures
        balanced_markup(s1 + s2),
{
    let m1 = choose|m: Markup| wf_markup(m) && #[trigger] markup_text(m) == s1;
    let m2 = choose|m: Markup| wf_markup(m) && #[trigger] markup_text(m) == s2;
    let m = Markup::Cat(Box::new(m1), Box::new(m2));
    assert(wf_markup(m) && markup_text(m) == s1 + s2);
}

/// The indentation and line-break filler never holds an angle bracket.
pub proof fn lemma_layout_angle_free(c: PrettyState)
    ensures
        angle_free(indent_text(c)),
        angle_free(nl_text(c)),
{
    assert forall|i: int| 0 <= i < indent_text(c).len() implies (#[trigger] indent_text(c)[i])
        != '<' && indent_text(c)[i] != '>' by {
        assert(indent_text(c)[i] == '\t');
    }
}

/// A raw text leaf is balanced markup: its text is escaped, so it holds no
/// angle bracket at all.
pub proof fn lemma_raw_text_balanced(data: Seq<char>, c: PrettyState)
    ensures
        balanced_markup(raw_text(data, c)),
{
    lemma_escape_seq_angle_free(data);
    lemma_layout_angle_free(c);
    assert(angle_free(seq![' ']));
    lemma_angle_free_cat(seq![' '], escape_seq(data));
    lemma_angle_free_cat(seq![' '] + escape_seq(data), nl_text(c));
    lemma_balanced_free(raw_text(data, c));
}

/// A self-closing element is balanced markup: one tag, nothing to close.
pub proof fn lemma_single_text_balanced(
    start: Seq<char>,
    tag: Seq<char>,
    at: Seq<char>,
    ending: Seq<char>,
    c: PrettyState,
)
    requires
        angle_free(at),
    ensures
        balanced_markup(single_text(start, tag, at, ending, c)),
{
    lemma_escape_seq_angle_free(start);
    lemma_escape_seq_angle_free(tag);
    lemma_escape_seq_angle_free(ending);
    lemma_layout_angle_free(c);
    let inner = escape_seq(start) + escape_seq(tag) + seq![' '] + at + escape_seq(ending);
    lemma_angle_free_cat(escape_seq(start), escape_seq(tag));
    lemma_angle_free_cat(escape_seq(start) + escape_seq(tag), seq![' ']);
    lemma_angle_free_cat(escape_seq(start) + escape_seq(tag) + seq![' '], at);
    lemma_angle_free_cat(escape_seq(start) + escape_seq(tag) + seq![' '] + at, escape_seq(ending));
    let mtag = Markup::SelfTag(inner);
    let mnl = Markup::Free(nl_text(c));
    let mright = Markup::Cat(Box::new(mtag), Box::new(mnl));
    let mind = Markup::Free(indent_text(c));
    let m = Markup::Cat(Box::new(mind), Box::new(mright));
    assert(wf_markup(mtag) && wf_markup(mnl) && wf_markup(mind));
    assert(wf_markup(mright));
    assert(wf_markup(m));
    assert(markup_text(mtag) == seq!['<'] + inner + seq!['>']);
    assert(markup_text(mright) == markup_text(mtag) + markup_text(mnl));
    assert(markup_text(m) == markup_text(mind) + markup_text(mright));
    assert(markup_text(m) =~= single_text(start, tag, at, ending, c));
}

/// A paired element around a balanced body is balanced markup: the open tag
/// and the close tag carry the same name, whatever states the two ends are
/// written in.
#[verifier::rlimit(60)]
#[verifier::spinoff_prover]
pub proof fn lemma_element_text_balanced(
    tag: Seq<char>,
    at: Seq<char>,
    body: Seq<char>,
    c: PrettyState,
    c2: PrettyState,
)
    requires
        angle_free(at),
        balanced_markup(body),
    ensures
        balanced_markup(
            element_open_text(tag, at, c) + body + element_close_text(tag, c2),
        ),
{
    lemma_escape_seq_angle_free(tag);
    lemma_layout_angle_free(c);
    lemma_layout_angle_free(st_pop(c2));
    let mb = choose|m: Markup| wf_markup(m) && #[trigger] markup_text(m) == body;
    lemma_angle_free_cat(seq![' '], at);
    let mnl = Markup::Free(nl_text(c));
    let mind2 = Markup::Free(indent_text(st_pop(c2)));
    let mtail = Markup::Cat(Box::new(mb), Box::new(mind2));
    let nbody = Markup::Cat(Box::new(mnl), Box::new(mtail));
    let node = Markup::Node(escape_seq(tag), seq![' '] + at, Box::new(nbody));
    let mnl2 = Markup::Free(nl_text(st_pop(c2)));
    let mright = Markup::Cat(Box::new(node), Box::new(mnl2));
    let mind = Markup::Free(indent_text(c));
    let m = Markup::Cat(Box::new(mind), Box::new(mright));
    assert(wf_markup(mnl) && wf_markup(mind2) && wf_markup(mnl2) && wf_markup(mind));
    assert(wf_markup(mtail));
    assert(wf_markup(nbody));
    assert(wf_markup(node));
    assert(wf_markup(mright));
    assert(wf_markup(m));
    assert(markup_text(mnl) == nl_text(c));
    assert(markup_text(mind2) == indent_text(st_pop(c2)));
    assert(markup_text(mnl2) == nl_text(st_pop(c2)));
    assert(markup_text(mind) == indent_text(c));
    assert(markup_text(mtail) == body + indent_text(st_pop(c2)));
    assert(markup_text(nbody) == nl_text(c) + markup_text(mtail));
    assert(markup_text(node) == seq!['<'] + escape_seq(tag) + (seq![' '] + at) + seq!['>']
        + markup_text(nbody) + seq!['<', '/'] + escape_seq(tag) + seq!['>']);
    assert(markup_text(mright) == markup_text(node) + nl_text(st_pop(c2)));
    assert(markup_text(m) == indent_text(c) + markup_text(mright));
    assert(markup_text(m) =~= element_open_text(tag, at, c) + body + element_close_text(tag, c2));
}

/// Balanced tags, stated over the output string: a paired element whose
/// attributes are angle-free and whose nested children render to balanced
/// markup renders to balanced markup itself — its open tag is closed by the
/// matching `</tag>`, correctly nested around exactly its children.
pub proof fn lemma_balanced_tags_string<A: Attr, K: Elem>(
    tag: String,
    attr: A,
    child: K,
    c: PrettyState,
)
    requires
        attr.exact(),
        child.exact(),
        angle_free(attr.attr_text()),
        balanced_markup(full_text(child, st_push(c))),
    ensures
        balanced_markup(
            full_text((Append { top: Element { tag, attr }, bottom: child }), c),
        ),
{
    lemma_balanced_tags(tag, attr, child, c);
    lemma_element_text_balanced(
        tag@,
        attr.attr_text(),
        full_text(child, st_push(c)),
        c,
        full_state(child, st_push(c)),
    );
}

/// A childless paired element renders to balanced markup.
pub proof fn lemma_element_only_balanced<A: Attr>(tag: String, attr: A, c: PrettyState)
    requires
        attr.exact(),
        angle_free(attr.attr_text()),
    ensures
        balanced_markup(full_text((Element { tag, attr }), c)),
{
    lemma_balanced_free(Seq::<char>::empty());
    lemma_element_text_balanced(
        tag@,
        attr.attr_text(),
        Seq::empty(),
        c,
        st_push(c),
    );
    assert(element_open_text(tag@, attr.attr_text(), c) + Seq::<char>::empty()
        + element_close_text(tag@, st_push(c)) =~= full_text((Element { tag, attr }), c));
}

/// Chaining balanced pieces is balanced.
pub proof fn lemma_chain_text_balanced<A: Elem, B: Elem>(a: A, b: B, c: PrettyState)
    requires
        balanced_markup(full_text(a, c)),
        balanced_markup(full_text(b, full_state(a, c))),
    ensures
        balanced_markup(full_text((Chain { top: a, bottom: b }), c)),
{
    lemma_chain_sequencing(a, b, c);
    lemma_balanced_cat(full_text(a, c), full_text(b, full_state(a, c)));
}

/// An inline-forced subtree is balanced when the subtree is: the wrapper
/// only adds angle-free layout around it.
pub proof fn lemma_inline_text_balanced<E: Elem>(e: E, c: PrettyState)
    requires
        balanced_markup(full_text(e, st_start_state(c))),
    ensures
        balanced_markup(full_text((Inliner { elem: e }), c)),
{
    if c.inline {
        assert(full_text(Inliner { elem: e }, c) =~= full_text(e, c));
    } else {
        let c2 = st_set_inline(c, true);
        lemma_layout_angle_free(c);
        lemma_balanced_free(indent_text(c));
        lemma_balanced_free(seq!['\n']);
        lemma_balanced_cat(indent_text(c), full_text(e, c2));
        lemma_balanced_cat(indent_text(c) + full_text(e, c2), seq!['\n']);
        assert(full_text(Inliner { elem: e }, c) =~= indent_text(c) + full_text(e, c2)
            + seq!['\n']);
    }
}

/// The pretty state an inline wrapper runs its subtree in.
pub open spec fn st_start_state(c: PrettyState) -> PrettyState {
    if c.inline {
        c
    } else {
        st_set_inline(c, true)
    }
}

/// Iterated elements are balanced when each element renders to balanced
/// markup from every state.
pub proof fn lemma_iter_text_balanced<E: Elem>(s: Seq<E>, c: PrettyState)
    requires
        forall|i: int, st: PrettyState| 0 <= i < s.len() ==> balanced_markup(
            #[trigger] full_text(s[i], st),
        ),
    ensures
        balanced_markup(iter_text(s, c)),
    decreases s.len(),
{
    if s.len() == 0 {
        assert(angle_free(Seq::<char>::empty()));
        lemma_balanced_free(Seq::<char>::empty());
    } else {
        lemma_iter_text_balanced(s.drop_first(), full_state(s[0], c));
        lemma_balanced_cat(full_text(s[0], c), iter_text(s.drop_first(), full_state(s[0], c)));
    }
}

} // verus!
