//! The text sink, and the escaping guard that rewrites reserved characters.

use vstd::prelude::*;

verus! {

/// The five reserved markup characters are replaced by named entities;
/// every other character passes through unchanged.
pub open spec fn escape_char(c: char) -> Seq<char> {
    if c == '"' {
        seq!['&', 'q', 'u', 'o', 't', ';']
    } else if c == '\'' {
        seq!['&', 'a', 'p', 'o', 's', ';']
    } else if c == '<' {
        seq!['&', 'l', 't', ';']
    } else if c == '>' {
        seq!['&', 'g', 't', ';']
    } else if c == '&' {
        seq!['&', 'a', 'm', 'p', ';']
    } else {
        seq![c]
    }
}

/// Entity escaping applied to a whole character sequence.
pub open spec fn escape_seq(s: Seq<char>) -> Seq<char>
    decreases s.len(),
{
    if s.len() == 0 {
        Seq::empty()
    } else {
        escape_char(s[0]) + escape_seq(s.drop_first())
    }
}

/// Decoder for the five named entities: reads one entity (or one plain
/// character) off the front and recurses on the rest.
pub open spec fn unescape(s: Seq<char>) -> Seq<char>
    decreases s.len(),
{
    if s.len() == 0 {
        Seq::empty()
    } else if s.len() >= 6 && s.subrange(0, 6) == seq!['&', 'q', 'u', 'o', 't', ';'] {
        seq!['"'] + unescape(s.skip(6))
    } else if s.len() >= 6 && s.subrange(0, 6) == seq!['&', 'a', 'p', 'o', 's', ';'] {
        seq!['\''] + unescape(s.skip(6))
    } else if s.len() >= 4 && s.subrange(0, 4) == seq!['&', 'l', 't', ';'] {
        seq!['<'] + unescape(s.skip(4))
    } else if s.len() >= 4 && s.subrange(0, 4) == seq!['&', 'g', 't', ';'] {
        seq!['>'] + unescape(s.skip(4))
    } else if s.len() >= 5 && s.subrange(0, 5) == seq!['&', 'a', 'm', 'p', ';'] {
        seq!['&'] + unescape(s.skip(5))
    } else {
        seq![s[0]] + unescape(s.skip(1))
    }
}

/// Escaping distributes over concatenation.
pub proof fn lemma_escape_seq_append(a: Seq<char>, b: Seq<char>)
    ensures
        escape_seq(a + b) == escape_seq(a) + escape_seq(b),
    decreases a.len(),
{
    if a.len() == 0 {
        assert(a + b =~= b);
        assert(escape_seq(a) + escape_seq(b) =~= escape_seq(b));
    } else {
        assert((a + b).drop_first() =~= a.drop_first() + b);
        lemma_escape_seq_append(a.drop_first(), b);
        assert(escape_seq(a + b) =~= escape_seq(a) + escape_seq(b));
    }
}

/// Escaping one more character on the right.
pub proof fn lemma_escape_seq_push(a: Seq<char>, c: char)
    ensures
        escape_seq(a.push(c)) == escape_seq(a) + escape_char(c),
{
    assert(a.push(c) =~= a + seq![c]);
    lemma_escape_seq_append(a, seq![c]);
    assert(seq![c].drop_first() =~= Seq::<char>::empty());
    assert(escape_seq(Seq::<char>::empty()) =~= Seq::<char>::empty());
    assert(escape_char(c) + Seq::<char>::empty() =~= escape_char(c));
    assert(escape_seq(seq![c]) =~= escape_char(c));
}

/// Decoding the named entities gives back exactly the text that was
/// escaped: the escaping guard loses no information.
pub proof fn lemma_unescape_escape(s: Seq<char>)
    ensures
        unescape(escape_seq(s)) == s,
    decreases s.len(),
{
    if s.len() == 0 {
    } else {
        let c = s[0];
        let rest = escape_seq(s.drop_first());
        lemma_unescape_escape(s.drop_first());
        let e = escape_seq(s);
        assert(e == escape_char(c) + rest);
        if c == '"' {
            assert(e.subrange(0, 6) =~= seq!['&', 'q', 'u', 'o', 't', ';']);
            assert(e.skip(6) =~= rest);
            assert(unescape(e) =~= seq![c] + s.drop_first());
        } else if c == '\'' {
            assert(e.subrange(0, 6) =~= seq!['&', 'a', 'p', 'o', 's', ';']);
            assert(e.len() >= 6 && e.subrange(0, 6) != seq!['&', 'q', 'u', 'o', 't', ';']);
            assert(e.skip(6) =~= rest);
            assert(unescape(e) =~= seq![c] + s.drop_first());
        } else if c == '<' {
            assert(e.subrange(0, 4) =~= seq!['&', 'l', 't', ';']);
            assert(e.len() >= 4);
            assert(e[1] == 'l');
            assert(e.len() >= 6 ==> e.subrange(0, 6)[1] == 'l');
            assert(e.skip(4) =~= rest);
            assert(unescape(e) =~= seq![c] + s.drop_first());
        } else if c == '>' {
            assert(e.subrange(0, 4) =~= seq!['&', 'g', 't', ';']);
            assert(e[1] == 'g');
            assert(e.len() >= 6 ==> e.subrange(0, 6)[1] == 'g');
            assert(e.skip(4) =~= rest);
            assert(unescape(e) =~= seq![c] + s.drop_first());
        } else if c == '&' {
            assert(e.subrange(0, 5) =~= seq!['&', 'a', 'm', 'p', ';']);
            assert(e[2] == 'm');
            assert(e.len() >= 6 ==> e.subrange(0, 6)[2] == 'm');
            assert(e.subrange(0, 4)[2] == 'm');
            assert(e.skip(5) =~= rest);
            assert(unescape(e) =~= seq![c] + s.drop_first());
        } else {
            assert(e == seq![c] + rest);
            assert(e[0] == c && c != '&');
            assert(e.len() >= 6 ==> e.subrange(0, 6)[0] == c);
            assert(e.len() >= 5 ==> e.subrange(0, 5)[0] == c);
            assert(e.len() >= 4 ==> e.subrange(0, 4)[0] == c);
            assert(e.skip(1) =~= rest);
            assert(unescape(e) =~= seq![c] + s.drop_first());
        }
        assert(seq![c] + s.drop_first() =~= s);
    }
}

/// Text that contains neither `<` nor `>`: the escaping guard only ever
/// produces such text, so structural angle brackets come from the protocol
/// alone.
pub open spec fn angle_free(s: Seq<char>) -> bool {
    forall|i: int| 0 <= i < s.len() ==> (#[trigger] s[i]) != '<' && s[i] != '>'
}

pub proof fn lemma_angle_free_cat(a: Seq<char>, b: Seq<char>)
    requires
        angle_free(a),
        angle_free(b),
    ensures
        angle_free(a + b),
{
    assert forall|i: int| 0 <= i < (a + b).len() implies (#[trigger] (a + b)[i]) != '<' && (a
        + b)[i] != '>' by {
        if i < a.len() {
            assert((a + b)[i] == a[i]);
        } else {
            assert((a + b)[i] == b[i - a.len()]);
        }
    }
}

/// Escaped text never contains an angle bracket: `<` and `>` themselves are
/// rewritten to entities.
pub proof fn lemma_escape_seq_angle_free(s: Seq<char>)
    ensures
        angle_free(escape_seq(s)),
    decreases s.len(),
{
    if s.len() == 0 {
    } else {
        lemma_escape_seq_angle_free(s.drop_first());
        assert(angle_free(escape_char(s[0])));
        lemma_angle_free_cat(escape_char(s[0]), escape_seq(s.drop_first()));
    }
}

/// The text sink every renderer writes into: an in-memory buffer.
pub struct WriteWrap {
    buf: String,
}

impl View for WriteWrap {
    type V = Seq<char>;

    closed spec fn view(&self) -> Seq<char> {
        self.buf@
    }
}

impl WriteWrap {
    /// An empty sink.
    pub fn new() -> (r: WriteWrap)
        ensures
            r@ == Seq::<char>::empty(),
    {
        WriteWrap { buf: String::new() }
    }

    /// Wrap an existing buffer; further writes append to it.
    pub fn from_string(buf: String) -> (r: WriteWrap)
        ensures
            r@ == buf@,
    {
        WriteWrap { buf }
    }

    /// Append text unchanged.
    pub fn write_str(&mut self, s: &str)
        ensures
            final(self)@ == old(self)@ + s@,
    {
        self.buf.append(s);
    }

    /// Hand the accumulated text back.
    pub fn into_string(self) -> (r: String)
        ensures
            r@ == self@,
    {
        self.buf
    }
}

/// Writer adaptor that keeps raw markup out of the output: every reserved
/// character is replaced by its named entity.
pub fn escape_guard(a: WriteWrap) -> (r: EscapeGuard)
    ensures
        r@ == a@,
{
    EscapeGuard::new(a)
}

/// Writer adaptor that replaces the reserved characters `"` `'` `<` `>` `&`
/// with their named entities on every write.
pub struct EscapeGuard {
    writer: WriteWrap,
}

impl View for EscapeGuard {
    type V = Seq<char>;

    closed spec fn view(&self) -> Seq<char> {
        self.writer@
    }
}

impl EscapeGuard {
    pub fn new(writer: WriteWrap) -> (r: EscapeGuard)
        ensures
            r@ == writer@,
    {
        EscapeGuard { writer }
    }

    /// Append text with every reserved character escaped.
    pub fn write_str(&mut self, s: &str)
        ensures
            final(self)@ == old(self)@ + escape_seq(s@),
    {
        let n = s.unicode_len();
        let mut i: usize = 0;
        while i < n
            invariant
                n == s@.len(),
                i <= n,
                self@ == old(self)@ + escape_seq(s@.subrange(0, i as int)),
            decreases n - i,
        {
            let c = s.get_char(i);
            if c == '"' {
                self.writer.write_str("&quot;");
                proof {
                    reveal_strlit("&quot;");
                }
            } else if c == '\'' {
                self.writer.write_str("&apos;");
                proof {
                    reveal_strlit("&apos;");
                }
            } else if c == '<' {
                self.writer.write_str("&lt;");
                proof {
                    reveal_strlit("&lt;");
                }
            } else if c == '>' {
                self.writer.write_str("&gt;");
                proof {
                    reveal_strlit("&gt;");
                }
            } else if c == '&' {
                self.writer.write_str("&amp;");
                proof {
                    reveal_strlit("&amp;");
                }
            } else {
                let one = s.substring_char(i, i + 1);
                self.writer.write_str(one);
                proof {
                    assert(one@ =~= seq![c]);
                }
            }
            proof {
                assert(s@.subrange(0, i + 1).drop_last() =~= s@.subrange(0, i as int));
                assert(s@.subrange(0, i + 1) =~= s@.subrange(0, i as int).push(c));
                lemma_escape_seq_push(s@.subrange(0, i as int), c);
                assert(escape_char(c) =~= escape_char(c));
            }
            i = i + 1;
        }
        proof {
            assert(s@.subrange(0, n as int) =~= s@);
        }
    }

    /// Take the wrapped sink back out.
    pub fn into_inner(self) -> (r: WriteWrap)
        ensures
            r@ == self@,
    {
        self.writer
    }
}

} // verus!
