//! Short constructors for the element and attribute building blocks.

use vstd::prelude::*;

use crate::RenderError;
use crate::attr::{AttrWrite, AttrClosure};
use crate::elem::{
    Closure, Closure2, ClosureEscapable, Elem, ElemWrite, ElemWriteEscapable, Element, Iter, Raw,
    RawEscapable, Single,
};
use crate::stack::{ElemStack, ElemStackEscapable, Sentinel, Sess, SessEscapable};

verus! {

/// A paired element `<tag>...</tag>`.
pub fn elem(tag: &str) -> (r: Element<()>)
    ensures
        r.tag@ == tag@,
        r.attr == (),
{
    Element::new(tag)
}

/// A self-closing element `<tag />`.
pub fn single(tag: &str) -> (r: Single<()>)
    ensures
        r.tag@ == tag@,
        r.attr == (),
        r.start@ == Seq::<char>::empty(),
        r.ending@ == seq!['/'],
{
    Single::new(tag)
}

/// An escaped text leaf.
pub fn raw(data: &str) -> (r: Raw)
    ensures
        r.data@ == data@,
{
    Raw::new(data)
}

/// A raw markup leaf that bypasses escaping.
pub fn raw_escapable(data: &str) -> (r: RawEscapable)
    ensures
        r.data@ == data@,
{
    RawEscapable::new(data)
}

/// Same-level siblings rendered in order from a vector.
pub fn from_iter<E: Elem>(elems: Vec<E>) -> (r: Iter<E>)
    ensures
        r.elems == elems,
{
    Iter::new(elems)
}

/// An element from a closure over the escaping-safe writer.
pub fn from_closure<F: FnOnce(ElemWrite) -> (ElemWrite, Result<(), RenderError>)>(func: F) -> (r:
    Closure<F>)
    requires
        forall|ew: ElemWrite| call_requires(func, (ew,)),
    ensures
        r.func_spec() == func,
{
    Closure::new(func)
}

/// An element from a closure over the escapable writer.
pub fn from_closure_escapable<
    F: FnOnce(ElemWriteEscapable) -> (ElemWriteEscapable, Result<(), RenderError>),
>(func: F) -> (r: ClosureEscapable<F>)
    requires
        forall|ew: ElemWriteEscapable| call_requires(func, (ew,)),
    ensures
        r.func_spec() == func,
{
    ClosureEscapable::new(func)
}

/// An element built on the spot by a closure that returns another element.
pub fn from_closure2<E: Elem, F: FnOnce() -> E>(func: F) -> (r: Closure2<E, F>)
    requires
        call_requires(func, ()),
    ensures
        r.func_spec() == func,
{
    Closure2::new(func)
}

/// An element whose children are pushed and popped imperatively on a stack.
/// A failing step hands the writer back inside the error, so the output
/// written so far survives.
pub fn from_stack<
    F: FnOnce(ElemStack<Sentinel>) -> Result<ElemStack<Sentinel>, (ElemWrite, RenderError)>,
>(func: F) -> (r: Sess<F>)
    requires
        forall|k: ElemStack<Sentinel>| call_requires(func, (k,)),
    ensures
        r.func_spec() == func,
{
    Sess::new(func)
}

/// The stack form over the escapable writer.
pub fn from_stack_escapable<
    F: FnOnce(ElemStackEscapable<Sentinel>) -> Result<
        ElemStackEscapable<Sentinel>,
        (ElemWrite, RenderError),
    >,
>(func: F) -> (r: SessEscapable<F>)
    requires
        forall|k: ElemStackEscapable<Sentinel>| call_requires(func, (k,)),
    ensures
        r.func_spec() == func,
{
    SessEscapable::new(func)
}

/// An attribute from a closure over the attribute writer.
pub fn attr_from_closure<F: FnOnce(AttrWrite) -> (AttrWrite, Result<(), RenderError>)>(func: F) -> (r:
    AttrClosure<F>)
    requires
        forall|aw: AttrWrite| call_requires(func, (aw,)),
    ensures
        r.func_spec() == func,
{
    AttrClosure::new(func)
}

} // verus!
