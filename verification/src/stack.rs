//! The imperative stack builder: push opens an element and records its tail
//! in the handle's type, pop closes the innermost one. The chain's static
//! shape counts the pending closes, so popping past the sentinel does not
//! compile. A failing step hands the writer back inside the error, so the
//! output written before the failure is never lost.

use vstd::prelude::*;

use crate::RenderError;
use crate::elem::{
    Elem, ElemTail, ElemWrite, Locked, WriterState, full_post, render_full,
};
use crate::render::{InlineController, PrettyState};
use crate::tools::{WriteWrap, escape_seq};

verus! {

/// The chain with no frames open: a fresh session starts here and must end
/// here.
pub struct Sentinel {
    _p: (),
}

/// A chain that still has an innermost frame to close.
pub trait Pop: Sized {
    type Curr: ElemTail;

    type Last;

    spec fn curr_spec(self) -> Self::Curr;

    spec fn last_spec(self) -> Self::Last;

    fn next(self) -> (r: (Self::Curr, Self::Last))
        ensures
            r.0 == self.curr_spec(),
            r.1 == self.last_spec(),
    ;
}

/// One pending frame: the innermost tail, ahead of whatever was already
/// pending.
pub struct Popper<E, O> {
    pub elem: E,
    pub last: O,
}

impl<E: ElemTail, O> Pop for Popper<E, O> {
    type Curr = E;

    type Last = O;

    open spec fn curr_spec(self) -> E {
        self.elem
    }

    open spec fn last_spec(self) -> O {
        self.last
    }

    fn next(self) -> (r: (E, O)) {
        (self.elem, self.last)
    }
}

/// The escapable stack handle: a writer plus the chain of pending tails.
#[must_use]
pub struct ElemStackEscapable<T> {
    pub writer: ElemWrite,
    pub inner: T,
}

impl<T> View for ElemStackEscapable<T> {
    type V = WriterState;

    closed spec fn view(&self) -> WriterState {
        self.writer@
    }
}

impl<T> ElemStackEscapable<T> {
    /// Render a complete sibling (head and tail) at the current depth; the
    /// pending frame count does not change.
    pub fn put<E: Elem>(&mut self, elem: E) -> (r: Result<(), RenderError>)
        ensures
            full_post(elem, old(self)@, final(self)@, r),
            final(self).inner == old(self).inner,
    {
        render_full(elem, &mut self.writer)
    }

    /// Render the element's head now and prepend its tail to the chain: the
    /// element stays open until the matching `pop`. On failure the writer
    /// comes back in the error, with everything written so far intact.
    pub fn push<E: Elem>(self, elem: E) -> (r: Result<
        ElemStackEscapable<Popper<E::Tail, T>>,
        (ElemWrite, RenderError),
    >)
        ensures
            match r {
                Result::Ok(k2) => elem.head_post(self@, k2@, Ok(k2.inner.elem))
                    && k2.inner.last == self.inner,
                Result::Err(pair) => elem.head_post(self@, pair.0@, Err(RenderError)),
            },
    {
        let ghost sg = self;
        let ElemStackEscapable { mut writer, inner } = self;
        let ghost eg = elem;
        let ghost p = writer@;
        proof {
            assert(p == sg@);
        }
        let r1 = elem.render_head(&mut writer);
        match r1 {
            Ok(tail) => Ok(ElemStackEscapable { writer, inner }.push_tail(tail)),
            Err(e) => {
                proof {
                    assert(eg.head_post(p, writer@, Err(RenderError)));
                }
                Err((writer, e))
            },
        }
    }

    /// Record a tail the caller already holds as the new innermost frame.
    fn push_tail<O>(self, tail: O) -> (r: ElemStackEscapable<Popper<O, T>>)
        ensures
            r@ == self@,
            r.inner.elem == tail,
            r.inner.last == self.inner,
    {
        ElemStackEscapable { writer: self.writer, inner: Popper { elem: tail, last: self.inner } }
    }

    /// Render an element's head through this handle's writer, handing the
    /// tail back to the caller instead of recording it.
    pub fn render_head_escapable<E: Elem>(&mut self, e: E) -> (r: Result<E::Tail, RenderError>)
        ensures
            e.head_post(old(self)@, final(self)@, r),
            final(self).inner == old(self).inner,
    {
        e.render_head(&mut self.writer)
    }

    /// Render a tail the caller has been holding on to.
    pub fn render_tail_escapable<E: ElemTail>(&mut self, e: E) -> (r: Result<(), RenderError>)
        ensures
            e.tail_post(old(self)@, final(self)@, r),
            final(self).inner == old(self).inner,
    {
        e.render(&mut self.writer)
    }

    /// Append text with the reserved characters escaped.
    pub fn write_str(&mut self, s: &str)
        ensures
            final(self)@.out == old(self)@.out + escape_seq(s@),
            final(self)@.fmt == old(self)@.fmt,
            final(self).inner == old(self).inner,
    {
        self.writer.write_str(s);
    }

    /// Append text unchanged: the caller asserts it is trusted markup.
    pub fn write_str_escapable(&mut self, s: &str)
        ensures
            final(self)@.out == old(self)@.out + s@,
            final(self)@.fmt == old(self)@.fmt,
            final(self).inner == old(self).inner,
    {
        self.writer.write_raw(s);
    }

    /// Abandon the session: pending frames are dropped unclosed, and the
    /// writer — with everything written so far — is handed back. For
    /// signalling failure from inside a stack closure.
    pub fn into_writer(self) -> (r: ElemWrite)
        ensures
            r@ == self@,
    {
        self.writer
    }
}

impl<P: Pop> ElemStackEscapable<P> {
    /// Close the innermost open element: its tail is rendered and removed
    /// from the chain. Only a handle whose type shows a pending frame has
    /// this method, so popping past the sentinel is rejected at compile
    /// time. On failure the writer comes back in the error, with everything
    /// written so far intact.
    pub fn pop(self) -> (r: Result<ElemStackEscapable<P::Last>, (ElemWrite, RenderError)>)
        ensures
            match r {
                Result::Ok(k2) => self.inner.curr_spec().tail_post(self@, k2@, Ok(()))
                    && k2.inner == self.inner.last_spec(),
                Result::Err(pair) => self.inner.curr_spec().tail_post(
                    self@,
                    pair.0@,
                    Err(RenderError),
                ),
            },
    {
        let ghost sg = self;
        let ElemStackEscapable { mut writer, inner } = self;
        let ghost sg_inner = inner;
        let (e, l) = inner.next();
        let ghost tg = e;
        let ghost p = writer@;
        proof {
            assert(p == sg@);
        }
        let r1 = e.render(&mut writer);
        match r1 {
            Ok(u) => {
                let k2 = ElemStackEscapable { writer, inner: l };
                proof {
                    assert(u == ());
                    assert(tg == sg_inner.curr_spec());
                    assert(tg.tail_post(p, k2@, Ok(())));
                    assert(k2.inner == sg_inner.last_spec());
                }
                Ok(k2)
            },
            Err(er) => {
                proof {
                    assert(tg.tail_post(p, writer@, Err(RenderError)));
                }
                Err((writer, er))
            },
        }
    }
}

/// The escaping-safe stack handle: as the escapable one, but it accepts only
/// escaping-safe elements and offers no raw writes.
#[must_use]
pub struct ElemStack<T> {
    pub base: ElemStackEscapable<T>,
}

impl<T> View for ElemStack<T> {
    type V = WriterState;

    closed spec fn view(&self) -> WriterState {
        self.base@
    }
}

impl<T> ElemStack<T> {
    /// Render a complete sibling (head and tail) at the current depth.
    pub fn put<E: Elem + Locked>(&mut self, elem: E) -> (r: Result<(), RenderError>)
        ensures
            full_post(elem, old(self)@, final(self)@, r),
            final(self).base.inner == old(self).base.inner,
    {
        self.base.put(elem)
    }

    /// Open an element; it stays open until the matching `pop`. On failure
    /// the writer comes back in the error, with everything written so far
    /// intact.
    pub fn push<E: Elem + Locked>(self, elem: E) -> (r: Result<
        ElemStack<Popper<E::Tail, T>>,
        (ElemWrite, RenderError),
    >)
        ensures
            match r {
                Result::Ok(k2) => elem.head_post(self@, k2@, Ok(k2.base.inner.elem))
                    && k2.base.inner.last == self.base.inner,
                Result::Err(pair) => elem.head_post(self@, pair.0@, Err(RenderError)),
            },
    {
        let ghost sg = self;
        let ghost eg = elem;
        let r1 = self.base.push(elem);
        proof {
            assert(sg@ == sg.base@);
        }
        match r1 {
            Ok(base) => {
                let k2 = ElemStack { base };
                proof {
                    assert(k2@ == base@);
                }
                Ok(k2)
            },
            Err(pair) => Err(pair),
        }
    }

    /// Append text with the reserved characters escaped.
    pub fn write_str(&mut self, s: &str)
        ensures
            final(self)@.out == old(self)@.out + escape_seq(s@),
            final(self)@.fmt == old(self)@.fmt,
            final(self).base.inner == old(self).base.inner,
    {
        self.base.write_str(s);
    }

    /// Abandon the session: pending frames are dropped unclosed, and the
    /// writer — with everything written so far — is handed back. For
    /// signalling failure from inside a stack closure.
    pub fn into_writer(self) -> (r: ElemWrite)
        ensures
            r@ == self@,
    {
        self.base.into_writer()
    }
}

impl<P: Pop> ElemStack<P> {
    /// Close the innermost open element. On failure the writer comes back
    /// in the error, with everything written so far intact.
    pub fn pop(self) -> (r: Result<ElemStack<P::Last>, (ElemWrite, RenderError)>)
        ensures
            match r {
                Result::Ok(k2) => self.base.inner.curr_spec().tail_post(self@, k2@, Ok(()))
                    && k2.base.inner == self.base.inner.last_spec(),
                Result::Err(pair) => self.base.inner.curr_spec().tail_post(
                    self@,
                    pair.0@,
                    Err(RenderError),
                ),
            },
    {
        let ghost sg = self;
        let r1 = self.base.pop();
        proof {
            assert(sg@ == sg.base@);
        }
        match r1 {
            Ok(base) => {
                let k2 = ElemStack { base };
                proof {
                    assert(k2@ == base@);
                }
                Ok(k2)
            },
            Err(pair) => Err(pair),
        }
    }
}

/// An element whose children are written by a closure over a stack handle.
/// The closure starts and must end with the zero-frame sentinel, so every
/// push it makes is popped before the session ends.
#[must_use]
pub struct Sess<F: FnOnce(ElemStack<Sentinel>) -> Result<ElemStack<Sentinel>, (ElemWrite, RenderError)>> {
    func: F,
}

impl<F: FnOnce(ElemStack<Sentinel>) -> Result<ElemStack<Sentinel>, (ElemWrite, RenderError)>> Sess<F> {
    #[verifier::type_invariant]
    spec fn wf(self) -> bool {
        forall|k: ElemStack<Sentinel>| call_requires(self.func, (k,))
    }

    /// The closure this session runs, for use in contracts.
    pub closed spec fn func_spec(self) -> F {
        self.func
    }

    pub fn new(func: F) -> (r: Sess<F>)
        requires
            forall|k: ElemStack<Sentinel>| call_requires(func, (k,)),
        ensures
            r.func_spec() == func,
    {
        Sess { func }
    }
}

impl<F: FnOnce(ElemStack<Sentinel>) -> Result<ElemStack<Sentinel>, (ElemWrite, RenderError)>> Locked for Sess<
    F,
> {

}

impl<F: FnOnce(ElemStack<Sentinel>) -> Result<ElemStack<Sentinel>, (ElemWrite, RenderError)>> Elem for Sess<F> {
    type Tail = ();

    open spec fn exact(self) -> bool {
        false
    }

    open spec fn head_text(self, c: PrettyState) -> Seq<char> {
        Seq::empty()
    }

    open spec fn head_state(self, c: PrettyState) -> PrettyState {
        c
    }

    open spec fn head_tail(self, c: PrettyState) -> () {
        ()
    }

    open spec fn head_post(
        self,
        p: WriterState,
        q: WriterState,
        r: Result<(), RenderError>,
    ) -> bool {
        exists|
            k1: ElemStack<Sentinel>,
            rk: Result<ElemStack<Sentinel>, (ElemWrite, RenderError)>,
        |
            {
                &&& k1@ == p
                &&& #[trigger] call_ensures(self.func_spec(), (k1,), rk)
                &&& match rk {
                    Result::Ok(k2) => q == k2@ && r is Ok,
                    Result::Err(pair) => q == pair.0@ && r is Err,
                }
            }
    }

    proof fn head_exact_post(self, p: WriterState, q: WriterState, r: Result<(), RenderError>) {
    }

    fn render_head(self, w: &mut ElemWrite) -> (r: Result<(), RenderError>) {
        proof {
            use_type_invariant(&self);
        }
        let ghost selfg = self;
        let mut tmp = ElemWrite::new(WriteWrap::new(), InlineController::new());
        core::mem::swap(w, &mut tmp);
        let k = ElemStack {
            base: ElemStackEscapable { writer: tmp, inner: Sentinel { _p: () } },
        };
        let ghost k1 = k;
        let rk = (self.func)(k);
        match rk {
            Ok(k2) => {
                let ghost k2g = k2;
                let mut inner = k2.base.writer;
                core::mem::swap(w, &mut inner);
                proof {
                    assert(call_ensures(
                        selfg.func_spec(),
                        (k1,),
                        Ok::<ElemStack<Sentinel>, (ElemWrite, RenderError)>(k2g),
                    ));
                }
                Ok(())
            },
            Err(pair) => {
                let ghost pairg = pair;
                let (mut ew, e) = pair;
                core::mem::swap(w, &mut ew);
                proof {
                    assert(e == RenderError);
                    assert(call_ensures(
                        selfg.func_spec(),
                        (k1,),
                        Err::<ElemStack<Sentinel>, (ElemWrite, RenderError)>(pairg),
                    ));
                }
                Err(e)
            },
        }
    }
}

/// The stack session over the escapable handle.
#[must_use]
pub struct SessEscapable<
    F: FnOnce(ElemStackEscapable<Sentinel>) -> Result<ElemStackEscapable<Sentinel>, (ElemWrite, RenderError)>,
> {
    func: F,
}

impl<
    F: FnOnce(ElemStackEscapable<Sentinel>) -> Result<ElemStackEscapable<Sentinel>, (ElemWrite, RenderError)>,
> SessEscapable<F> {
    #[verifier::type_invariant]
    spec fn wf(self) -> bool {
        forall|k: ElemStackEscapable<Sentinel>| call_requires(self.func, (k,))
    }

    /// The closure this session runs, for use in contracts.
    pub closed spec fn func_spec(self) -> F {
        self.func
    }

    pub fn new(func: F) -> (r: SessEscapable<F>)
        requires
            forall|k: ElemStackEscapable<Sentinel>| call_requires(func, (k,)),
        ensures
            r.func_spec() == func,
    {
        SessEscapable { func }
    }
}

impl<
    F: FnOnce(ElemStackEscapable<Sentinel>) -> Result<ElemStackEscapable<Sentinel>, (ElemWrite, RenderError)>,
> Elem for SessEscapable<F> {
    type Tail = ();

    open spec fn exact(self) -> bool {
        false
    }

    open spec fn head_text(self, c: PrettyState) -> Seq<char> {
        Seq::empty()
    }

    open spec fn head_state(self, c: PrettyState) -> PrettyState {
        c
    }

    open spec fn head_tail(self, c: PrettyState) -> () {
        ()
    }

    open spec fn head_post(
        self,
        p: WriterState,
        q: WriterState,
        r: Result<(), RenderError>,
    ) -> bool {
        exists|
            k1: ElemStackEscapable<Sentinel>,
            rk: Result<ElemStackEscapable<Sentinel>, (ElemWrite, RenderError)>,
        |
            {
                &&& k1@ == p
                &&& #[trigger] call_ensures(self.func_spec(), (k1,), rk)
                &&& match rk {
                    Result::Ok(k2) => q == k2@ && r is Ok,
                    Result::Err(pair) => q == pair.0@ && r is Err,
                }
            }
    }

    proof fn head_exact_post(self, p: WriterState, q: WriterState, r: Result<(), RenderError>) {
    }

    fn render_head(self, w: &mut ElemWrite) -> (r: Result<(), RenderError>) {
        proof {
            use_type_invariant(&self);
        }
        let ghost selfg = self;
        let mut tmp = ElemWrite::new(WriteWrap::new(), InlineController::new());
        core::mem::swap(w, &mut tmp);
        let k = ElemStackEscapable { writer: tmp, inner: Sentinel { _p: () } };
        let ghost k1 = k;
        let rk = (self.func)(k);
        match rk {
            Ok(k2) => {
                let ghost k2g = k2;
                let mut inner = k2.writer;
                core::mem::swap(w, &mut inner);
                proof {
                    assert(call_ensures(
                        selfg.func_spec(),
                        (k1,),
                        Ok::<ElemStackEscapable<Sentinel>, (ElemWrite, RenderError)>(k2g),
                    ));
                }
                Ok(())
            },
            Err(pair) => {
                let ghost pairg = pair;
                let (mut ew, e) = pair;
                core::mem::swap(w, &mut ew);
                proof {
                    assert(e == RenderError);
                    assert(call_ensures(
                        selfg.func_spec(),
                        (k1,),
                        Err::<ElemStackEscapable<Sentinel>, (ElemWrite, RenderError)>(pairg),
                    ));
                }
                Err(e)
            },
        }
    }
}

} // verus!

verus! {

/// Stack balance: a session that pushes `a`, pushes `b` inside it, writes
/// the leaf at the innermost level, and then pops twice in LIFO order —
/// the five steps below are the contracts of `push`, `push`, `put`, `pop`
/// and `pop` on their success paths — reproduces exactly the output of the
/// equivalent purely nested chain `append(a, append(b, leaf))`. The
/// elements are arbitrary, so deeper sessions are instances: a session of N
/// pushes is this law with `b` itself a nested chain (the handle's type
/// spells out N, so no one lemma can quantify over it). Popping more often
/// than was pushed needs a handle whose type still shows a pending frame,
/// so it is rejected when the session is compiled, never silently ignored.
pub proof fn lemma_stack_balance<A: Elem, B: Elem, L: Elem>(
    a: A,
    b: B,
    leaf: L,
    ta: A::Tail,
    tb: B::Tail,
    p: WriterState,
    q1: WriterState,
    q2: WriterState,
    q3: WriterState,
    q4: WriterState,
    q5: WriterState,
)
    requires
        a.exact(),
        b.exact(),
        leaf.exact(),
        a.head_post(p, q1, Ok(ta)),
        b.head_post(q1, q2, Ok(tb)),
        full_post(leaf, q2, q3, Ok(())),
        tb.tail_post(q3, q4, Ok(())),
        ta.tail_post(q4, q5, Ok(())),
    ensures
        q5.out == p.out + crate::elem::full_text(
            (crate::elem::Append {
                top: a,
                bottom: (crate::elem::Append { top: b, bottom: leaf }),
            }),
            p.fmt,
        ),
        q5.fmt == crate::elem::full_state(
            (crate::elem::Append {
                top: a,
                bottom: (crate::elem::Append { top: b, bottom: leaf }),
            }),
            p.fmt,
        ),
{
    a.head_exact_post(p, q1, Ok(ta));
    b.head_exact_post(q1, q2, Ok(tb));
    crate::elem::full_exact_post(leaf, q2, q3, Ok(()));
    tb.tail_exact_post(q3, q4, Ok(()));
    ta.tail_exact_post(q4, q5, Ok(()));
    let inner = crate::elem::Append { top: b, bottom: leaf };
    let outer = crate::elem::Append { top: a, bottom: inner };
    assert(q5.out =~= p.out + crate::elem::full_text(outer, p.fmt));
}

} // verus!
