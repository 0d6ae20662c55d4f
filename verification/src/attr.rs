//! Attribute building blocks: single-phase fragments written inside an open
//! start tag.

use vstd::prelude::*;

use crate::RenderError;
use crate::tools::{EscapeGuard, WriteWrap, angle_free, escape_guard, escape_seq, lemma_angle_free_cat, lemma_escape_seq_angle_free};

verus! {

/// The writer handed to attribute renderers. It appends to the start tag
/// that is currently open; public writes are entity-escaped.
pub struct AttrWrite {
    wrap: WriteWrap,
}

impl View for AttrWrite {
    type V = Seq<char>;

    closed spec fn view(&self) -> Seq<char> {
        self.wrap@
    }
}

impl AttrWrite {
    pub fn new(wrap: WriteWrap) -> (r: AttrWrite)
        ensures
            r@ == wrap@,
    {
        AttrWrite { wrap }
    }

    pub fn into_inner(self) -> (r: WriteWrap)
        ensures
            r@ == self@,
    {
        self.wrap
    }

    /// Drive one attribute through this writer.
    pub fn render<E: Attr>(&mut self, attr: E) -> (r: Result<(), RenderError>)
        ensures
            attr.attr_post(old(self)@, final(self)@, r),
    {
        attr.render(self)
    }

    /// Append text with the reserved characters escaped.
    pub fn write_str(&mut self, s: &str)
        ensures
            final(self)@ == old(self)@ + escape_seq(s@),
    {
        let mut tmp = WriteWrap::new();
        core::mem::swap(&mut self.wrap, &mut tmp);
        let mut g = escape_guard(tmp);
        g.write_str(s);
        self.wrap = g.into_inner();
    }

    pub(crate) fn write_raw(&mut self, s: &str)
        ensures
            final(self)@ == old(self)@ + s@,
    {
        self.wrap.write_str(s);
    }
}

/// The attribute building block trait. An attribute is a single-phase
/// emission: it appends fragments to the open start tag and leaves no tail.
///
/// `attr_post` is what one render of the attribute guarantees, relating the
/// tag text before (`p`) and after (`q`) and the result. For an `exact`
/// attribute the relation pins the appended text down to `attr_text`, which
/// `attr_exact_post` proves; closure attributes are not exact and promise
/// only what their closure ensures.
pub trait Attr: Sized {
    spec fn exact(self) -> bool;

    spec fn attr_text(self) -> Seq<char>;

    spec fn attr_post(self, p: Seq<char>, q: Seq<char>, r: Result<(), RenderError>) -> bool;

    proof fn attr_exact_post(self, p: Seq<char>, q: Seq<char>, r: Result<(), RenderError>)
        requires
            self.exact(),
            self.attr_post(p, q, r),
        ensures
            r is Ok,
            q == p + self.attr_text(),
    ;

    fn render(self, w: &mut AttrWrite) -> (r: Result<(), RenderError>)
        ensures
            self.attr_post(old(w)@, final(w)@, r),
    ;

    fn some(self) -> (r: Option<Self>)
        ensures
            r == Some(self),
    {
        Some(self)
    }
}

/// Chain two attributes: ordered concatenation of their fragments.
pub fn chain<A: Attr, B: Attr>(first: A, second: B) -> (r: AttrChain<A, B>)
    ensures
        r.first == first,
        r.second == second,
{
    AttrChain { first, second }
}

/// The attribute that writes nothing.
impl Attr for () {
    open spec fn exact(self) -> bool {
        true
    }

    open spec fn attr_text(self) -> Seq<char> {
        Seq::empty()
    }

    open spec fn attr_post(self, p: Seq<char>, q: Seq<char>, r: Result<(), RenderError>) -> bool {
        q == p && r is Ok
    }

    proof fn attr_exact_post(self, p: Seq<char>, q: Seq<char>, r: Result<(), RenderError>) {
        assert(p + Seq::<char>::empty() =~= p);
    }

    fn render(self, w: &mut AttrWrite) -> (r: Result<(), RenderError>) {
        Ok(())
    }
}

/// An absent attribute writes nothing; a present one renders its content.
impl<A: Attr> Attr for Option<A> {
    open spec fn exact(self) -> bool {
        match self {
            Option::Some(a) => a.exact(),
            Option::None => true,
        }
    }

    open spec fn attr_text(self) -> Seq<char> {
        match self {
            Option::Some(a) => a.attr_text(),
            Option::None => Seq::empty(),
        }
    }

    open spec fn attr_post(self, p: Seq<char>, q: Seq<char>, r: Result<(), RenderError>) -> bool {
        match self {
            Option::Some(a) => a.attr_post(p, q, r),
            Option::None => q == p && r is Ok,
        }
    }

    proof fn attr_exact_post(self, p: Seq<char>, q: Seq<char>, r: Result<(), RenderError>) {
        match self {
            Option::Some(a) => a.attr_exact_post(p, q, r),
            Option::None => {
                assert(p + Seq::<char>::empty() =~= p);
            },
        }
    }

    fn render(self, w: &mut AttrWrite) -> (r: Result<(), RenderError>) {
        match self {
            Option::Some(a) => a.render(w),
            Option::None => Ok(()),
        }
    }
}

/// Two attributes rendered in order.
#[must_use]
#[derive(Clone, Copy)]
pub struct AttrChain<A, B> {
    pub first: A,
    pub second: B,
}

impl<A: Attr, B: Attr> Attr for AttrChain<A, B> {
    open spec fn exact(self) -> bool {
        self.first.exact() && self.second.exact()
    }

    open spec fn attr_text(self) -> Seq<char> {
        self.first.attr_text() + self.second.attr_text()
    }

    open spec fn attr_post(self, p: Seq<char>, q: Seq<char>, r: Result<(), RenderError>) -> bool {
        ||| (self.first.attr_post(p, q, Err(RenderError)) && r is Err)
        ||| (exists|m: Seq<char>|
            #[trigger] self.first.attr_post(p, m, Ok(())) && self.second.attr_post(m, q, r))
    }

    proof fn attr_exact_post(self, p: Seq<char>, q: Seq<char>, r: Result<(), RenderError>) {
        if self.first.attr_post(p, q, Err(RenderError)) && r is Err {
            self.first.attr_exact_post(p, q, Err(RenderError));
        } else {
            let m = choose|m: Seq<char>|
                #[trigger] self.first.attr_post(p, m, Ok(())) && self.second.attr_post(m, q, r);
            self.first.attr_exact_post(p, m, Ok(()));
            self.second.attr_exact_post(m, q, r);
            assert(p + self.first.attr_text() + self.second.attr_text() =~= p
                + self.attr_text());
        }
    }

    fn render(self, w: &mut AttrWrite) -> (r: Result<(), RenderError>) {
        let AttrChain { first, second } = self;
        let ghost fg = first;
        let ghost p = w@;
        let r1 = first.render(w);
        let ghost m = w@;
        match r1 {
            Ok(u) => {
                proof {
                    assert(u == ());
                    assert(fg.attr_post(p, m, Ok(())));
                }
                second.render(w)
            },
            Err(e) => Err(e),
        }
    }
}

/// The fragment a key/value pair appends: the escaped key, `="`, the escaped
/// value, a closing quote and one trailing space. The space that separates
/// the first attribute from the tag name belongs to the tag, so fragments
/// carry their separator behind them.
pub open spec fn pair_attr_text(k: Seq<char>, v: Seq<char>) -> Seq<char> {
    escape_seq(k) + seq!['=', '"'] + escape_seq(v) + seq!['"', ' ']
}

impl<'a> Attr for (&'a str, &'a str) {
    open spec fn exact(self) -> bool {
        true
    }

    open spec fn attr_text(self) -> Seq<char> {
        pair_attr_text(self.0@, self.1@)
    }

    open spec fn attr_post(self, p: Seq<char>, q: Seq<char>, r: Result<(), RenderError>) -> bool {
        q == p + pair_attr_text(self.0@, self.1@) && r is Ok
    }

    proof fn attr_exact_post(self, p: Seq<char>, q: Seq<char>, r: Result<(), RenderError>) {
    }

    fn render(self, w: &mut AttrWrite) -> (r: Result<(), RenderError>) {
        render_pair(self.0, self.1, w)
    }
}

impl Attr for (String, String) {
    open spec fn exact(self) -> bool {
        true
    }

    open spec fn attr_text(self) -> Seq<char> {
        pair_attr_text(self.0@, self.1@)
    }

    open spec fn attr_post(self, p: Seq<char>, q: Seq<char>, r: Result<(), RenderError>) -> bool {
        q == p + pair_attr_text(self.0@, self.1@) && r is Ok
    }

    proof fn attr_exact_post(self, p: Seq<char>, q: Seq<char>, r: Result<(), RenderError>) {
    }

    fn render(self, w: &mut AttrWrite) -> (r: Result<(), RenderError>) {
        render_pair(self.0.as_str(), self.1.as_str(), w)
    }
}

fn render_pair(k: &str, v: &str, w: &mut AttrWrite) -> (r: Result<(), RenderError>)
    ensures
        final(w)@ == old(w)@ + pair_attr_text(k@, v@),
        r is Ok,
{
    w.write_str(k);
    w.write_raw("=\"");
    w.write_str(v);
    w.write_raw("\" ");
    proof {
        reveal_strlit("=\"");
        reveal_strlit("\" ");
        assert("=\""@ =~= seq!['=', '"']);
        assert("\" "@ =~= seq!['"', ' ']);
        assert(old(w)@ + escape_seq(k@) + seq!['=', '"'] + escape_seq(v@) + seq!['"', ' ']
            =~= old(w)@ + pair_attr_text(k@, v@));
    }
    Ok(())
}

} // verus!

verus! {

/// An attribute written by a caller-supplied closure over the attribute
/// writer. What it emits is whatever the closure's own contract says.
#[must_use]
pub struct AttrClosure<F: FnOnce(AttrWrite) -> (AttrWrite, Result<(), RenderError>)> {
    func: F,
}

impl<F: FnOnce(AttrWrite) -> (AttrWrite, Result<(), RenderError>)> AttrClosure<F> {
    #[verifier::type_invariant]
    spec fn wf(self) -> bool {
        forall|aw: AttrWrite| call_requires(self.func, (aw,))
    }

    /// The closure this attribute runs, for use in contracts.
    pub closed spec fn func_spec(self) -> F {
        self.func
    }

    pub fn new(func: F) -> (r: AttrClosure<F>)
        requires
            forall|aw: AttrWrite| call_requires(func, (aw,)),
        ensures
            r.func_spec() == func,
    {
        AttrClosure { func }
    }
}

impl<F: FnOnce(AttrWrite) -> (AttrWrite, Result<(), RenderError>)> Attr for AttrClosure<F> {
    open spec fn exact(self) -> bool {
        false
    }

    open spec fn attr_text(self) -> Seq<char> {
        Seq::empty()
    }

    open spec fn attr_post(self, p: Seq<char>, q: Seq<char>, r: Result<(), RenderError>) -> bool {
        exists|a1: AttrWrite, a2: AttrWrite|
            {
                &&& a1@ == p
                &&& a2@ == q
                &&& #[trigger] call_ensures(self.func_spec(), (a1,), (a2, r))
            }
    }

    proof fn attr_exact_post(self, p: Seq<char>, q: Seq<char>, r: Result<(), RenderError>) {
    }

    fn render(self, w: &mut AttrWrite) -> (r: Result<(), RenderError>) {
        proof {
            use_type_invariant(&self);
        }
        let ghost selfg = self;
        let mut tmp = AttrWrite::new(WriteWrap::new());
        core::mem::swap(w, &mut tmp);
        let ghost a1 = tmp;
        let (mut out, r) = (self.func)(tmp);
        core::mem::swap(w, &mut out);
        proof {
            assert(call_ensures(selfg.func_spec(), (a1,), (*w, r)));
        }
        r
    }
}

} // verus!

verus! {

/// One instruction of the path mini-language, with its coordinates already
/// formatted as text. The trailing underscore marks the relative variant of
/// each command.
#[must_use]
#[derive(Clone)]
pub enum PathCommand {
    /// move to
    M(String, String),
    /// relative move to
    M_(String, String),
    /// line to
    L(String, String),
    /// relative line to
    L_(String, String),
    /// horizontal to
    H(String),
    /// relative horizontal to
    H_(String),
    /// vertical to
    V(String),
    /// relative vertical to
    V_(String),
    /// curve to
    C(String, String, String, String, String, String),
    /// relative curve to
    C_(String, String, String, String, String, String),
    /// shorthand curve to
    S(String, String, String, String),
    /// relative shorthand curve to
    S_(String, String, String, String),
    /// quadratic bezier curve to
    Q(String, String, String, String),
    /// relative quadratic bezier curve to
    Q_(String, String, String, String),
    /// shorthand quadratic bezier curve to
    T(String, String),
    /// relative shorthand quadratic bezier curve to
    T_(String, String),
    /// elliptical arc
    A(String, String, String, String, String, String, String),
    /// relative elliptical arc
    A_(String, String, String, String, String, String, String),
    /// close path
    Z(),
}

/// The token each path command serializes to, its payloads escaped.
pub open spec fn path_command_text(c: PathCommand) -> Seq<char> {
    match c {
        PathCommand::M(x, y) => " M "@ + escape_seq(x@) + " "@ + escape_seq(y@),
        PathCommand::M_(x, y) => " m "@ + escape_seq(x@) + " "@ + escape_seq(y@),
        PathCommand::L(x, y) => " L "@ + escape_seq(x@) + " "@ + escape_seq(y@),
        PathCommand::L_(x, y) => " l "@ + escape_seq(x@) + " "@ + escape_seq(y@),
        PathCommand::H(a) => " H "@ + escape_seq(a@),
        PathCommand::H_(a) => " h "@ + escape_seq(a@),
        PathCommand::V(a) => " V "@ + escape_seq(a@),
        PathCommand::V_(a) => " v "@ + escape_seq(a@),
        PathCommand::C(x1, y1, x2, y2, x, y) => " C "@ + escape_seq(x1@) + " "@ + escape_seq(y1@)
            + ", "@ + escape_seq(x2@) + " "@ + escape_seq(y2@) + ", "@ + escape_seq(x@) + " "@
            + escape_seq(y@),
        PathCommand::C_(x1, y1, x2, y2, x, y) => " c "@ + escape_seq(x1@) + " "@ + escape_seq(y1@)
            + ", "@ + escape_seq(x2@) + " "@ + escape_seq(y2@) + ", "@ + escape_seq(x@) + " "@
            + escape_seq(y@),
        PathCommand::S(x2, y2, x, y) => " S "@ + escape_seq(x2@) + ","@ + escape_seq(y2@) + " "@
            + escape_seq(x@) + " "@ + escape_seq(y@),
        PathCommand::S_(x2, y2, x, y) => " s "@ + escape_seq(x2@) + ","@ + escape_seq(y2@) + " "@
            + escape_seq(x@) + " "@ + escape_seq(y@),
        PathCommand::Q(x1, y1, x, y) => " Q "@ + escape_seq(x1@) + " "@ + escape_seq(y1@) + ", "@
            + escape_seq(x@) + " "@ + escape_seq(y@),
        PathCommand::Q_(x1, y1, x, y) => " q "@ + escape_seq(x1@) + " "@ + escape_seq(y1@) + ", "@
            + escape_seq(x@) + " "@ + escape_seq(y@),
        PathCommand::T(x, y) => " T "@ + escape_seq(x@) + " "@ + escape_seq(y@),
        PathCommand::T_(x, y) => " t "@ + escape_seq(x@) + " "@ + escape_seq(y@),
        PathCommand::A(rx, ry, rot, laf, sf, x, y) => " A "@ + escape_seq(rx@) + " "@ + escape_seq(
            ry@,
        ) + " "@ + escape_seq(rot@) + " "@ + escape_seq(laf@) + " "@ + escape_seq(sf@) + " "@
            + escape_seq(x@) + " "@ + escape_seq(y@),
        PathCommand::A_(rx, ry, rot, laf, sf, x, y) => " a "@ + escape_seq(rx@) + " "@
            + escape_seq(ry@) + " "@ + escape_seq(rot@) + " "@ + escape_seq(laf@) + " "@
            + escape_seq(sf@) + " "@ + escape_seq(x@) + " "@ + escape_seq(y@),
        PathCommand::Z() => " Z"@,
    }
}

fn put_two(w: &mut AttrWrite, pre: &str, x: &str, y: &str)
    ensures
        final(w)@ == old(w)@ + pre@ + escape_seq(x@) + " "@ + escape_seq(y@),
{
    w.write_raw(pre);
    w.write_str(x);
    w.write_raw(" ");
    w.write_str(y);
    proof {
        assert(final(w)@ =~= old(w)@ + pre@ + escape_seq(x@) + " "@ + escape_seq(y@));
    }
}

fn put_pair_comma(w: &mut AttrWrite, x: &str, y: &str)
    ensures
        final(w)@ == old(w)@ + escape_seq(x@) + " "@ + escape_seq(y@) + ", "@,
{
    w.write_str(x);
    w.write_raw(" ");
    w.write_str(y);
    w.write_raw(", ");
    proof {
        assert(final(w)@ =~= old(w)@ + escape_seq(x@) + " "@ + escape_seq(y@) + ", "@);
    }
}

impl PathCommand {
    /// Serialize this command through the attribute writer.
    #[verifier::rlimit(80)]
    #[verifier::spinoff_prover]
    pub fn write(&self, w: &mut AttrWrite) -> (r: Result<(), RenderError>)
        ensures
            final(w)@ == old(w)@ + path_command_text(*self),
            r is Ok,
    {
        match self {
            PathCommand::M(x, y) => put_two(w, " M ", x.as_str(), y.as_str()),
            PathCommand::M_(x, y) => put_two(w, " m ", x.as_str(), y.as_str()),
            PathCommand::L(x, y) => put_two(w, " L ", x.as_str(), y.as_str()),
            PathCommand::L_(x, y) => put_two(w, " l ", x.as_str(), y.as_str()),
            PathCommand::H(a) => {
                w.write_raw(" H ");
                w.write_str(a.as_str());
            },
            PathCommand::H_(a) => {
                w.write_raw(" h ");
                w.write_str(a.as_str());
            },
            PathCommand::V(a) => {
                w.write_raw(" V ");
                w.write_str(a.as_str());
            },
            PathCommand::V_(a) => {
                w.write_raw(" v ");
                w.write_str(a.as_str());
            },
            PathCommand::C(x1, y1, x2, y2, x, y) => {
                w.write_raw(" C ");
                put_pair_comma(w, x1.as_str(), y1.as_str());
                put_pair_comma(w, x2.as_str(), y2.as_str());
                w.write_str(x.as_str());
                w.write_raw(" ");
                w.write_str(y.as_str());
                proof {
                    assert(final(w)@ =~= old(w)@ + path_command_text(*self));
                }
            },
            PathCommand::C_(x1, y1, x2, y2, x, y) => {
                w.write_raw(" c ");
                put_pair_comma(w, x1.as_str(), y1.as_str());
                put_pair_comma(w, x2.as_str(), y2.as_str());
                w.write_str(x.as_str());
                w.write_raw(" ");
                w.write_str(y.as_str());
                proof {
                    assert(final(w)@ =~= old(w)@ + path_command_text(*self));
                }
            },
            PathCommand::S(x2, y2, x, y) => {
                w.write_raw(" S ");
                w.write_str(x2.as_str());
                w.write_raw(",");
                w.write_str(y2.as_str());
                w.write_raw(" ");
                w.write_str(x.as_str());
                w.write_raw(" ");
                w.write_str(y.as_str());
                proof {
                    assert(final(w)@ =~= old(w)@ + path_command_text(*self));
                }
            },
            PathCommand::S_(x2, y2, x, y) => {
                w.write_raw(" s ");
                w.write_str(x2.as_str());
                w.write_raw(",");
                w.write_str(y2.as_str());
                w.write_raw(" ");
                w.write_str(x.as_str());
                w.write_raw(" ");
                w.write_str(y.as_str());
                proof {
                    assert(final(w)@ =~= old(w)@ + path_command_text(*self));
                }
            },
            PathCommand::Q(x1, y1, x, y) => {
                w.write_raw(" Q ");
                put_pair_comma(w, x1.as_str(), y1.as_str());
                w.write_str(x.as_str());
                w.write_raw(" ");
                w.write_str(y.as_str());
                proof {
                    assert(final(w)@ =~= old(w)@ + path_command_text(*self));
                }
            },
            PathCommand::Q_(x1, y1, x, y) => {
                w.write_raw(" q ");
                put_pair_comma(w, x1.as_str(), y1.as_str());
                w.write_str(x.as_str());
                w.write_raw(" ");
                w.write_str(y.as_str());
                proof {
                    assert(final(w)@ =~= old(w)@ + path_command_text(*self));
                }
            },
            PathCommand::T(x, y) => put_two(w, " T ", x.as_str(), y.as_str()),
            PathCommand::T_(x, y) => put_two(w, " t ", x.as_str(), y.as_str()),
            PathCommand::A(rx, ry, rot, laf, sf, x, y) => {
                w.write_raw(" A ");
                w.write_str(rx.as_str());
                w.write_raw(" ");
                w.write_str(ry.as_str());
                w.write_raw(" ");
                w.write_str(rot.as_str());
                w.write_raw(" ");
                w.write_str(laf.as_str());
                w.write_raw(" ");
                w.write_str(sf.as_str());
                w.write_raw(" ");
                w.write_str(x.as_str());
                w.write_raw(" ");
                w.write_str(y.as_str());
                proof {
                    assert(final(w)@ =~= old(w)@ + path_command_text(*self));
                }
            },
            PathCommand::A_(rx, ry, rot, laf, sf, x, y) => {
                w.write_raw(" a ");
                w.write_str(rx.as_str());
                w.write_raw(" ");
                w.write_str(ry.as_str());
                w.write_raw(" ");
                w.write_str(rot.as_str());
                w.write_raw(" ");
                w.write_str(laf.as_str());
                w.write_raw(" ");
                w.write_str(sf.as_str());
                w.write_raw(" ");
                w.write_str(x.as_str());
                w.write_raw(" ");
                w.write_str(y.as_str());
                proof {
                    assert(final(w)@ =~= old(w)@ + path_command_text(*self));
                }
            },
            PathCommand::Z() => {
                w.write_raw(" Z");
            },
        }
        Ok(())
    }
}

} // verus!

verus! {

/// The serialized form of a command sequence.
pub open spec fn path_cmds_text(s: Seq<PathCommand>) -> Seq<char>
    decreases s.len(),
{
    if s.len() == 0 {
        Seq::empty()
    } else {
        path_cmds_text(s.drop_last()) + path_command_text(s.last())
    }
}

/// A path attribute: ` d="..."` holding the serialized commands.
#[must_use]
#[derive(Clone)]
pub struct Path {
    pub cmds: Vec<PathCommand>,
}

impl Path {
    pub fn new(cmds: Vec<PathCommand>) -> (r: Path)
        ensures
            r.cmds == cmds,
    {
        Path { cmds }
    }
}

impl Attr for Path {
    open spec fn exact(self) -> bool {
        true
    }

    open spec fn attr_text(self) -> Seq<char> {
        "d=\""@ + path_cmds_text(self.cmds@) + "\" "@
    }

    open spec fn attr_post(self, p: Seq<char>, q: Seq<char>, r: Result<(), RenderError>) -> bool {
        q == p + self.attr_text() && r is Ok
    }

    proof fn attr_exact_post(self, p: Seq<char>, q: Seq<char>, r: Result<(), RenderError>) {
    }

    #[verifier::loop_isolation(false)]
    fn render(self, w: &mut AttrWrite) -> (r: Result<(), RenderError>) {
        let ghost sg = self;
        let Path { cmds } = self;
        let ghost s0 = cmds@;
        w.write_raw("d=\"");
        let ghost base = w@;
        let n = cmds.len();
        let mut i: usize = 0;
        while i < n
            invariant
                i <= n,
                w@ == base + path_cmds_text(s0.subrange(0, i as int)),
            decreases n - i,
        {
            let r1 = cmds[i].write(w);
            proof {
                assert(s0.subrange(0, i + 1).drop_last() =~= s0.subrange(0, i as int));
                assert(s0.subrange(0, i + 1).last() == s0[i as int]);
            }
            i = i + 1;
        }
        w.write_raw("\" ");
        proof {
            assert(s0.subrange(0, n as int) =~= s0);
            assert(s0 == sg.cmds@);
            assert(final(w)@ =~= old(w)@ + "d=\""@ + path_cmds_text(s0) + "\" "@);
            assert(final(w)@ == old(w)@ + sg.attr_text());
        }
        Ok(())
    }
}

/// The serialized form of a coordinate-pair sequence: `x,y ` for each pair.
pub open spec fn points_text(s: Seq<(String, String)>) -> Seq<char>
    decreases s.len(),
{
    if s.len() == 0 {
        Seq::empty()
    } else {
        points_text(s.drop_last()) + escape_seq(s.last().0@) + ","@ + escape_seq(s.last().1@)
            + " "@
    }
}

/// A points attribute: ` points="..."` holding comma-joined pairs.
#[must_use]
#[derive(Clone)]
pub struct Points {
    pub pts: Vec<(String, String)>,
}

impl Points {
    pub fn new(pts: Vec<(String, String)>) -> (r: Points)
        ensures
            r.pts == pts,
    {
        Points { pts }
    }
}

impl Attr for Points {
    open spec fn exact(self) -> bool {
        true
    }

    open spec fn attr_text(self) -> Seq<char> {
        "points=\""@ + points_text(self.pts@) + "\" "@
    }

    open spec fn attr_post(self, p: Seq<char>, q: Seq<char>, r: Result<(), RenderError>) -> bool {
        q == p + self.attr_text() && r is Ok
    }

    proof fn attr_exact_post(self, p: Seq<char>, q: Seq<char>, r: Result<(), RenderError>) {
    }

    #[verifier::loop_isolation(false)]
    fn render(self, w: &mut AttrWrite) -> (r: Result<(), RenderError>) {
        let ghost sg = self;
        let Points { pts } = self;
        let ghost s0 = pts@;
        w.write_raw("points=\"");
        let ghost base = w@;
        let n = pts.len();
        let mut i: usize = 0;
        while i < n
            invariant
                i <= n,
                w@ == base + points_text(s0.subrange(0, i as int)),
            decreases n - i,
        {
            w.write_str(pts[i].0.as_str());
            w.write_raw(",");
            w.write_str(pts[i].1.as_str());
            w.write_raw(" ");
            proof {
                assert(s0.subrange(0, i + 1).drop_last() =~= s0.subrange(0, i as int));
                assert(s0.subrange(0, i + 1).last() == s0[i as int]);
                assert(w@ =~= base + points_text(s0.subrange(0, i + 1)));
            }
            i = i + 1;
        }
        w.write_raw("\" ");
        proof {
            assert(s0.subrange(0, n as int) =~= s0);
            assert(s0 == sg.pts@);
            assert(final(w)@ =~= old(w)@ + "points=\""@ + points_text(s0) + "\" "@);
            assert(final(w)@ == old(w)@ + sg.attr_text());
        }
        Ok(())
    }
}

/// Builder handed to a path closure: call `start` to begin emitting
/// commands.
#[must_use]
pub struct PathSinkBuilder {
    pub(crate) writer: AttrWrite,
}

impl View for PathSinkBuilder {
    type V = Seq<char>;

    closed spec fn view(&self) -> Seq<char> {
        self.writer@
    }
}

/// Sink for one path command at a time.
#[must_use]
pub struct PathSink {
    pub(crate) writer: AttrWrite,
}

impl View for PathSink {
    type V = Seq<char>;

    closed spec fn view(&self) -> Seq<char> {
        self.writer@
    }
}

impl PathSinkBuilder {
    pub fn start(self) -> (r: PathSink)
        ensures
            r@ == self@,
    {
        PathSink { writer: self.writer }
    }
}

impl PathSink {
    /// Emit one command into the path attribute.
    pub fn put(&mut self, command: PathCommand) -> (r: Result<(), RenderError>)
        ensures
            final(self)@ == old(self)@ + path_command_text(command),
            r is Ok,
    {
        command.write(&mut self.writer)
    }
}

/// A path attribute whose commands come from a closure, for cases where an
/// iterator is too constraining.
#[must_use]
pub struct PathClosure<F: FnOnce(PathSinkBuilder) -> (PathSink, Result<(), RenderError>)> {
    func: F,
}

impl<F: FnOnce(PathSinkBuilder) -> (PathSink, Result<(), RenderError>)> PathClosure<F> {
    #[verifier::type_invariant]
    spec fn wf(self) -> bool {
        forall|b: PathSinkBuilder| call_requires(self.func, (b,))
    }

    /// The closure this attribute runs, for use in contracts.
    pub closed spec fn func_spec(self) -> F {
        self.func
    }

    pub fn new(func: F) -> (r: PathClosure<F>)
        requires
            forall|b: PathSinkBuilder| call_requires(func, (b,)),
        ensures
            r.func_spec() == func,
    {
        PathClosure { func }
    }
}

impl<F: FnOnce(PathSinkBuilder) -> (PathSink, Result<(), RenderError>)> Attr for PathClosure<F> {
    open spec fn exact(self) -> bool {
        false
    }

    open spec fn attr_text(self) -> Seq<char> {
        Seq::empty()
    }

    open spec fn attr_post(self, p: Seq<char>, q: Seq<char>, r: Result<(), RenderError>) -> bool {
        ||| (exists|b: PathSinkBuilder, k: PathSink|
            {
                &&& b@ == p + "d=\""@
                &&& k@ + "\" "@ == q
                &&& #[trigger] call_ensures(self.func_spec(), (b,), (k, Ok::<(), RenderError>(())))
                &&& r is Ok
            })
        ||| (exists|b: PathSinkBuilder, k: PathSink|
            {
                &&& b@ == p + "d=\""@
                &&& k@ == q
                &&& #[trigger] call_ensures(
                    self.func_spec(),
                    (b,),
                    (k, Err::<(), RenderError>(RenderError)),
                )
                &&& r is Err
            })
    }

    proof fn attr_exact_post(self, p: Seq<char>, q: Seq<char>, r: Result<(), RenderError>) {
    }

    fn render(self, w: &mut AttrWrite) -> (r: Result<(), RenderError>) {
        proof {
            use_type_invariant(&self);
        }
        let ghost selfg = self;
        w.write_raw("d=\"");
        let mut tmp = AttrWrite::new(WriteWrap::new());
        core::mem::swap(w, &mut tmp);
        let b = PathSinkBuilder { writer: tmp };
        let ghost bg = b;
        let (k, rf) = (self.func)(b);
        let ghost kg = k;
        let mut back = k.writer;
        core::mem::swap(w, &mut back);
        match rf {
            Ok(u) => {
                w.write_raw("\" ");
                proof {
                    assert(u == ());
                    assert(call_ensures(selfg.func_spec(), (bg,), (kg, Ok::<(), RenderError>(()))));
                }
                Ok(())
            },
            Err(e) => {
                proof {
                    assert(e == RenderError);
                    assert(call_ensures(
                        selfg.func_spec(),
                        (bg,),
                        (kg, Err::<(), RenderError>(RenderError)),
                    ));
                }
                Err(e)
            },
        }
    }
}

} // verus!

verus! {

/// A key/value pair's fragment holds no angle bracket: both sides are
/// escaped, and the punctuation is quotes, an equals sign and a space.
pub proof fn lemma_pair_attr_angle_free(k: Seq<char>, v: Seq<char>)
    ensures
        angle_free(pair_attr_text(k, v)),
{
    lemma_escape_seq_angle_free(k);
    lemma_escape_seq_angle_free(v);
    lemma_angle_free_cat(escape_seq(k), seq!['=', '"']);
    lemma_angle_free_cat(escape_seq(k) + seq!['=', '"'], escape_seq(v));
    lemma_angle_free_cat(escape_seq(k) + seq!['=', '"'] + escape_seq(v), seq!['"', ' ']);
}

/// One path command's token holds no angle bracket: the command letters and
/// separators are plain, and every payload is escaped.
#[verifier::rlimit(80)]
#[verifier::spinoff_prover]
pub proof fn lemma_path_command_angle_free(cmd: PathCommand)
    ensures
        angle_free(path_command_text(cmd)),
{
    reveal_strlit(" M ");
    reveal_strlit(" m ");
    reveal_strlit(" L ");
    reveal_strlit(" l ");
    reveal_strlit(" H ");
    reveal_strlit(" h ");
    reveal_strlit(" V ");
    reveal_strlit(" v ");
    reveal_strlit(" C ");
    reveal_strlit(" c ");
    reveal_strlit(" S ");
    reveal_strlit(" s ");
    reveal_strlit(" Q ");
    reveal_strlit(" q ");
    reveal_strlit(" T ");
    reveal_strlit(" t ");
    reveal_strlit(" A ");
    reveal_strlit(" a ");
    reveal_strlit(" Z");
    reveal_strlit(" ");
    reveal_strlit(",");
    reveal_strlit(", ");
    assert forall|i: int| 0 <= i < path_command_text(cmd).len() implies (
    #[trigger] path_command_text(cmd)[i]) != '<' && path_command_text(cmd)[i] != '>' by {
        lemma_path_command_angle_free_at(cmd, i);
    }
}

#[verifier::rlimit(100)]
#[verifier::spinoff_prover]
proof fn lemma_path_command_angle_free_at(cmd: PathCommand, i: int)
    requires
        0 <= i < path_command_text(cmd).len(),
    ensures
        path_command_text(cmd)[i] != '<' && path_command_text(cmd)[i] != '>',
{
    reveal_strlit(" M ");
    reveal_strlit(" m ");
    reveal_strlit(" L ");
    reveal_strlit(" l ");
    reveal_strlit(" T ");
    reveal_strlit(" t ");
    reveal_strlit(" H ");
    reveal_strlit(" h ");
    reveal_strlit(" V ");
    reveal_strlit(" v ");
    reveal_strlit(" C ");
    reveal_strlit(" c ");
    reveal_strlit(" S ");
    reveal_strlit(" s ");
    reveal_strlit(" Q ");
    reveal_strlit(" q ");
    reveal_strlit(" A ");
    reveal_strlit(" a ");
    reveal_strlit(" Z");
    reveal_strlit(" ");
    reveal_strlit(",");
    reveal_strlit(", ");
    match cmd {
        PathCommand::M(x, y) => lemma_two_part_angle_free(" M "@, x@, y@),
        PathCommand::M_(x, y) => lemma_two_part_angle_free(" m "@, x@, y@),
        PathCommand::L(x, y) => lemma_two_part_angle_free(" L "@, x@, y@),
        PathCommand::L_(x, y) => lemma_two_part_angle_free(" l "@, x@, y@),
        PathCommand::T(x, y) => lemma_two_part_angle_free(" T "@, x@, y@),
        PathCommand::T_(x, y) => lemma_two_part_angle_free(" t "@, x@, y@),
        PathCommand::H(a) => {
            lemma_escape_seq_angle_free(a@);
            lemma_angle_free_cat(" H "@, escape_seq(a@));
        },
        PathCommand::H_(a) => {
            lemma_escape_seq_angle_free(a@);
            lemma_angle_free_cat(" h "@, escape_seq(a@));
        },
        PathCommand::V(a) => {
            lemma_escape_seq_angle_free(a@);
            lemma_angle_free_cat(" V "@, escape_seq(a@));
        },
        PathCommand::V_(a) => {
            lemma_escape_seq_angle_free(a@);
            lemma_angle_free_cat(" v "@, escape_seq(a@));
        },
        PathCommand::C(x1, y1, x2, y2, x, y) => {
            lemma_six_angle_free(" C "@, x1@, y1@, x2@, y2@, x@, y@);
        },
        PathCommand::C_(x1, y1, x2, y2, x, y) => {
            lemma_six_angle_free(" c "@, x1@, y1@, x2@, y2@, x@, y@);
        },
        PathCommand::S(x2, y2, x, y) => {
            lemma_four_s_angle_free(" S "@, x2@, y2@, x@, y@);
        },
        PathCommand::S_(x2, y2, x, y) => {
            lemma_four_s_angle_free(" s "@, x2@, y2@, x@, y@);
        },
        PathCommand::Q(x1, y1, x, y) => {
            lemma_four_q_angle_free(" Q "@, x1@, y1@, x@, y@);
        },
        PathCommand::Q_(x1, y1, x, y) => {
            lemma_four_q_angle_free(" q "@, x1@, y1@, x@, y@);
        },
        PathCommand::A(rx, ry, rot, laf, sf, x, y) => {
            lemma_seven_angle_free(" A "@, rx@, ry@, rot@, laf@, sf@, x@, y@);
        },
        PathCommand::A_(rx, ry, rot, laf, sf, x, y) => {
            lemma_seven_angle_free(" a "@, rx@, ry@, rot@, laf@, sf@, x@, y@);
        },
        PathCommand::Z() => {
            assert(angle_free(" Z"@));
        },
    }
}

proof fn lemma_two_part_angle_free(pre: Seq<char>, x: Seq<char>, y: Seq<char>)
    requires
        angle_free(pre),
    ensures
        angle_free(pre + escape_seq(x) + " "@ + escape_seq(y)),
{
    reveal_strlit(" ");
    lemma_escape_seq_angle_free(x);
    lemma_escape_seq_angle_free(y);
    lemma_angle_free_cat(pre, escape_seq(x));
    lemma_angle_free_cat(pre + escape_seq(x), " "@);
    lemma_angle_free_cat(pre + escape_seq(x) + " "@, escape_seq(y));
}

proof fn lemma_six_angle_free(
    pre: Seq<char>,
    x1: Seq<char>,
    y1: Seq<char>,
    x2: Seq<char>,
    y2: Seq<char>,
    x: Seq<char>,
    y: Seq<char>,
)
    requires
        angle_free(pre),
    ensures
        angle_free(
            pre + escape_seq(x1) + " "@ + escape_seq(y1) + ", "@ + escape_seq(x2) + " "@
                + escape_seq(y2) + ", "@ + escape_seq(x) + " "@ + escape_seq(y),
        ),
{
    reveal_strlit(" ");
    reveal_strlit(", ");
    lemma_escape_seq_angle_free(x1);
    lemma_escape_seq_angle_free(y1);
    lemma_escape_seq_angle_free(x2);
    lemma_escape_seq_angle_free(y2);
    lemma_escape_seq_angle_free(x);
    lemma_escape_seq_angle_free(y);
    lemma_angle_free_cat(pre, escape_seq(x1));
    lemma_angle_free_cat(pre + escape_seq(x1), " "@);
    lemma_angle_free_cat(pre + escape_seq(x1) + " "@, escape_seq(y1));
    lemma_angle_free_cat(pre + escape_seq(x1) + " "@ + escape_seq(y1), ", "@);
    lemma_angle_free_cat(pre + escape_seq(x1) + " "@ + escape_seq(y1) + ", "@, escape_seq(x2));
    lemma_angle_free_cat(
        pre + escape_seq(x1) + " "@ + escape_seq(y1) + ", "@ + escape_seq(x2),
        " "@,
    );
    lemma_angle_free_cat(
        pre + escape_seq(x1) + " "@ + escape_seq(y1) + ", "@ + escape_seq(x2) + " "@,
        escape_seq(y2),
    );
    lemma_angle_free_cat(
        pre + escape_seq(x1) + " "@ + escape_seq(y1) + ", "@ + escape_seq(x2) + " "@ + escape_seq(
            y2,
        ),
        ", "@,
    );
    lemma_angle_free_cat(
        pre + escape_seq(x1) + " "@ + escape_seq(y1) + ", "@ + escape_seq(x2) + " "@ + escape_seq(
            y2,
        ) + ", "@,
        escape_seq(x),
    );
    lemma_angle_free_cat(
        pre + escape_seq(x1) + " "@ + escape_seq(y1) + ", "@ + escape_seq(x2) + " "@ + escape_seq(
            y2,
        ) + ", "@ + escape_seq(x),
        " "@,
    );
    lemma_angle_free_cat(
        pre + escape_seq(x1) + " "@ + escape_seq(y1) + ", "@ + escape_seq(x2) + " "@ + escape_seq(
            y2,
        ) + ", "@ + escape_seq(x) + " "@,
        escape_seq(y),
    );
}

proof fn lemma_four_s_angle_free(
    pre: Seq<char>,
    x2: Seq<char>,
    y2: Seq<char>,
    x: Seq<char>,
    y: Seq<char>,
)
    requires
        angle_free(pre),
    ensures
        angle_free(
            pre + escape_seq(x2) + ","@ + escape_seq(y2) + " "@ + escape_seq(x) + " "@
                + escape_seq(y),
        ),
{
    reveal_strlit(" ");
    reveal_strlit(",");
    lemma_escape_seq_angle_free(x2);
    lemma_escape_seq_angle_free(y2);
    lemma_escape_seq_angle_free(x);
    lemma_escape_seq_angle_free(y);
    lemma_angle_free_cat(pre, escape_seq(x2));
    lemma_angle_free_cat(pre + escape_seq(x2), ","@);
    lemma_angle_free_cat(pre + escape_seq(x2) + ","@, escape_seq(y2));
    lemma_angle_free_cat(pre + escape_seq(x2) + ","@ + escape_seq(y2), " "@);
    lemma_angle_free_cat(pre + escape_seq(x2) + ","@ + escape_seq(y2) + " "@, escape_seq(x));
    lemma_angle_free_cat(
        pre + escape_seq(x2) + ","@ + escape_seq(y2) + " "@ + escape_seq(x),
        " "@,
    );
    lemma_angle_free_cat(
        pre + escape_seq(x2) + ","@ + escape_seq(y2) + " "@ + escape_seq(x) + " "@,
        escape_seq(y),
    );
}

proof fn lemma_four_q_angle_free(
    pre: Seq<char>,
    x1: Seq<char>,
    y1: Seq<char>,
    x: Seq<char>,
    y: Seq<char>,
)
    requires
        angle_free(pre),
    ensures
        angle_free(
            pre + escape_seq(x1) + " "@ + escape_seq(y1) + ", "@ + escape_seq(x) + " "@
                + escape_seq(y),
        ),
{
    reveal_strlit(" ");
    reveal_strlit(", ");
    lemma_escape_seq_angle_free(x1);
    lemma_escape_seq_angle_free(y1);
    lemma_escape_seq_angle_free(x);
    lemma_escape_seq_angle_free(y);
    lemma_angle_free_cat(pre, escape_seq(x1));
    lemma_angle_free_cat(pre + escape_seq(x1), " "@);
    lemma_angle_free_cat(pre + escape_seq(x1) + " "@, escape_seq(y1));
    lemma_angle_free_cat(pre + escape_seq(x1) + " "@ + escape_seq(y1), ", "@);
    lemma_angle_free_cat(pre + escape_seq(x1) + " "@ + escape_seq(y1) + ", "@, escape_seq(x));
    lemma_angle_free_cat(
        pre + escape_seq(x1) + " "@ + escape_seq(y1) + ", "@ + escape_seq(x),
        " "@,
    );
    lemma_angle_free_cat(
        pre + escape_seq(x1) + " "@ + escape_seq(y1) + ", "@ + escape_seq(x) + " "@,
        escape_seq(y),
    );
}

proof fn lemma_seven_angle_free(
    pre: Seq<char>,
    a1: Seq<char>,
    a2: Seq<char>,
    a3: Seq<char>,
    a4: Seq<char>,
    a5: Seq<char>,
    a6: Seq<char>,
    a7: Seq<char>,
)
    requires
        angle_free(pre),
    ensures
        angle_free(
            pre + escape_seq(a1) + " "@ + escape_seq(a2) + " "@ + escape_seq(a3) + " "@
                + escape_seq(a4) + " "@ + escape_seq(a5) + " "@ + escape_seq(a6) + " "@
                + escape_seq(a7),
        ),
{
    reveal_strlit(" ");
    lemma_escape_seq_angle_free(a1);
    lemma_escape_seq_angle_free(a2);
    lemma_escape_seq_angle_free(a3);
    lemma_escape_seq_angle_free(a4);
    lemma_escape_seq_angle_free(a5);
    lemma_escape_seq_angle_free(a6);
    lemma_escape_seq_angle_free(a7);
    lemma_angle_free_cat(pre, escape_seq(a1));
    lemma_angle_free_cat(pre + escape_seq(a1), " "@);
    lemma_angle_free_cat(pre + escape_seq(a1) + " "@, escape_seq(a2));
    lemma_angle_free_cat(pre + escape_seq(a1) + " "@ + escape_seq(a2), " "@);
    lemma_angle_free_cat(pre + escape_seq(a1) + " "@ + escape_seq(a2) + " "@, escape_seq(a3));
    lemma_angle_free_cat(
        pre + escape_seq(a1) + " "@ + escape_seq(a2) + " "@ + escape_seq(a3),
        " "@,
    );
    lemma_angle_free_cat(
        pre + escape_seq(a1) + " "@ + escape_seq(a2) + " "@ + escape_seq(a3) + " "@,
        escape_seq(a4),
    );
    lemma_angle_free_cat(
        pre + escape_seq(a1) + " "@ + escape_seq(a2) + " "@ + escape_seq(a3) + " "@ + escape_seq(
            a4,
        ),
        " "@,
    );
    lemma_angle_free_cat(
        pre + escape_seq(a1) + " "@ + escape_seq(a2) + " "@ + escape_seq(a3) + " "@ + escape_seq(
            a4,
        ) + " "@,
        escape_seq(a5),
    );
    lemma_angle_free_cat(
        pre + escape_seq(a1) + " "@ + escape_seq(a2) + " "@ + escape_seq(a3) + " "@ + escape_seq(
            a4,
        ) + " "@ + escape_seq(a5),
        " "@,
    );
    lemma_angle_free_cat(
        pre + escape_seq(a1) + " "@ + escape_seq(a2) + " "@ + escape_seq(a3) + " "@ + escape_seq(
            a4,
        ) + " "@ + escape_seq(a5) + " "@,
        escape_seq(a6),
    );
    lemma_angle_free_cat(
        pre + escape_seq(a1) + " "@ + escape_seq(a2) + " "@ + escape_seq(a3) + " "@ + escape_seq(
            a4,
        ) + " "@ + escape_seq(a5) + " "@ + escape_seq(a6),
        " "@,
    );
    lemma_angle_free_cat(
        pre + escape_seq(a1) + " "@ + escape_seq(a2) + " "@ + escape_seq(a3) + " "@ + escape_seq(
            a4,
        ) + " "@ + escape_seq(a5) + " "@ + escape_seq(a6) + " "@,
        escape_seq(a7),
    );
}

/// A whole path attribute holds no angle bracket.
pub proof fn lemma_path_attr_angle_free(cmds: Seq<PathCommand>)
    ensures
        angle_free("d=\""@ + path_cmds_text(cmds) + "\" "@),
{
    reveal_strlit("d=\"");
    reveal_strlit("\" ");
    lemma_path_cmds_angle_free(cmds);
    lemma_angle_free_cat("d=\""@, path_cmds_text(cmds));
    lemma_angle_free_cat("d=\""@ + path_cmds_text(cmds), "\" "@);
}

proof fn lemma_path_cmds_angle_free(cmds: Seq<PathCommand>)
    ensures
        angle_free(path_cmds_text(cmds)),
    decreases cmds.len(),
{
    if cmds.len() == 0 {
    } else {
        lemma_path_cmds_angle_free(cmds.drop_last());
        lemma_path_command_angle_free(cmds.last());
        lemma_angle_free_cat(path_cmds_text(cmds.drop_last()), path_command_text(cmds.last()));
    }
}

/// A whole points attribute holds no angle bracket.
pub proof fn lemma_points_attr_angle_free(pts: Seq<(String, String)>)
    ensures
        angle_free("points=\""@ + points_text(pts) + "\" "@),
{
    reveal_strlit("points=\"");
    reveal_strlit("\" ");
    lemma_points_angle_free(pts);
    lemma_angle_free_cat("points=\""@, points_text(pts));
    lemma_angle_free_cat("points=\""@ + points_text(pts), "\" "@);
}

proof fn lemma_points_angle_free(pts: Seq<(String, String)>)
    ensures
        angle_free(points_text(pts)),
    decreases pts.len(),
{
    reveal_strlit(",");
    reveal_strlit(" ");
    if pts.len() == 0 {
    } else {
        lemma_points_angle_free(pts.drop_last());
        lemma_escape_seq_angle_free(pts.last().0@);
        lemma_escape_seq_angle_free(pts.last().1@);
        lemma_angle_free_cat(points_text(pts.drop_last()), escape_seq(pts.last().0@));
        lemma_angle_free_cat(
            points_text(pts.drop_last()) + escape_seq(pts.last().0@),
            ","@,
        );
        lemma_angle_free_cat(
            points_text(pts.drop_last()) + escape_seq(pts.last().0@) + ","@,
            escape_seq(pts.last().1@),
        );
        lemma_angle_free_cat(
            points_text(pts.drop_last()) + escape_seq(pts.last().0@) + ","@ + escape_seq(
                pts.last().1@,
            ),
            " "@,
        );
    }
}

} // verus!
