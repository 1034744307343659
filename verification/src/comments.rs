//! The comment-injecting stream filter and the annotated-serialization entry
//! points.
//!
//! The filter buffers incoming text until a full line is available, asks the
//! key recognizer about the line, lets a caller-supplied resolver pick an
//! optional comment for the recognized key, writes the comment's lines
//! indented to the key's column, and then forwards the original line
//! untouched.

use vstd::prelude::*;
use vstd::string::StrSliceExecFns;
use vstd::string::StringExecFns;
use vstd::utf8::decode_utf8;
use vstd::utf8::valid_utf8;

use crate::chars::string_push;
use crate::lines::spec_lines;
use crate::lines::split_lines;
use crate::SytError;

pub use crate::recognize::get_key_name;
pub use crate::recognize::KeyData;

verus! {

/// `n` spaces.
pub open spec fn spec_spaces(n: int) -> Seq<char> {
    Seq::new(n as nat, |i: int| ' ')
}

/// One rendered comment line at column `col`: the indentation, then a `# `
/// marker and the text when the line is non-empty, then a newline.
pub open spec fn render_comment_line(l: Seq<char>, col: int) -> Seq<char> {
    if l.len() == 0 {
        spec_spaces(col) + seq!['\n']
    } else {
        spec_spaces(col) + seq!['#', ' '] + l + seq!['\n']
    }
}

/// The given comment lines rendered one after another at column `col`.
pub open spec fn render_lines(ls: Seq<Seq<char>>, col: int) -> Seq<char>
    decreases ls.len(),
{
    if ls.len() == 0 {
        Seq::empty()
    } else {
        render_lines(ls.drop_last(), col) + render_comment_line(ls.last(), col)
    }
}

/// A whole comment text rendered at column `col`: its lines, each indented
/// and marked.
pub open spec fn render_comment(comment: Seq<char>, col: int) -> Seq<char> {
    render_lines(spec_lines(comment), col)
}

/// What a resolver's answer contributes to the output: nothing, or the
/// rendered comment.
pub open spec fn opt_render(c: Option<String>, col: int) -> Seq<char> {
    match c {
        None => Seq::empty(),
        Some(s) => render_comment(s@, col),
    }
}

/// A string of `n` spaces.
fn make_spaces(n: usize) -> (r: String)
    ensures
        r@ == spec_spaces(n as int),
{
    let mut r = String::new();
    let mut i: usize = 0;
    proof {
        assert(r@ =~= spec_spaces(0));
    }
    while i < n
        invariant
            i <= n,
            r@ == spec_spaces(i as int),
        decreases n - i,
    {
        string_push(&mut r, ' ');
        proof {
            assert(r@ =~= spec_spaces(i as int + 1));
        }
        i += 1;
    }
    r
}

/// Renders a whole comment text at column `col`.
fn render_comment_text(comment: &str, col: usize) -> (r: String)
    ensures
        r@ == render_comment(comment@, col as int),
{
    let lines = split_lines(comment);
    let ghost ldv = lines.deep_view();
    let spacer = make_spaces(col);
    let mut r = String::new();
    let mut i: usize = 0;
    proof {
        assert(ldv.subrange(0, 0) =~= Seq::<Seq<char>>::empty());
    }
    while i < lines.len()
        invariant
            i <= lines@.len(),
            lines.deep_view() == ldv,
            spacer@ == spec_spaces(col as int),
            r@ == render_lines(ldv.subrange(0, i as int), col as int),
        decreases lines@.len() - i,
    {
        let ghost pre = r@;
        r.append(spacer.as_str());
        if !lines[i].as_str().is_empty() {
            r.append("# ");
            r.append(lines[i].as_str());
        }
        r.append("\n");
        proof {
            reveal_strlit("# ");
            reveal_strlit("\n");
            assert("# "@ =~= seq!['#', ' ']);
            assert("\n"@ =~= seq!['\n']);
            assert(ldv[i as int] == lines@[i as int]@);
            assert(r@ =~= pre + render_comment_line(ldv[i as int], col as int));
            let sub = ldv.subrange(0, i as int + 1);
            assert(sub.drop_last() =~= ldv.subrange(0, i as int));
            assert(sub.last() == ldv[i as int]);
        }
        i += 1;
    }
    proof {
        assert(ldv.subrange(0, ldv.len() as int) =~= ldv);
    }
    r
}

/// Relies on serde_yml::to_string: encodes the value as structured text.
#[verifier::external_body]
fn yaml_encode<T: serde::Serialize>(value: &T) -> (r: Result<String, SytError>)
    ensures
        r matches Err(e) ==> e is YamlError,
{
    match serde_yml::to_string(value) {
        Ok(s) => Ok(s),
        Err(e) => Err(SytError::YamlError(e)),
    }
}

/// Relies on String::from_utf8: succeeds exactly on valid UTF-8 and decodes
/// the bytes as text.
#[verifier::external_body]
fn bytes_to_string(bytes: &[u8]) -> (r: Result<String, SytError>)
    ensures
        r is Ok <==> valid_utf8(bytes@),
        r matches Ok(s) ==> s@ == decode_utf8(bytes@),
        r matches Err(e) ==> e is FromUtf8Error,
{
    match String::from_utf8(bytes.to_vec()) {
        Ok(s) => Ok(s),
        Err(e) => Err(SytError::FromUtf8Error(e)),
    }
}

/// A resolver that can be asked about any recognized key.
pub open spec fn resolver_callable<F: Fn(KeyData) -> Option<String>>(cb: F) -> bool {
    forall|k: KeyData| call_requires(cb, (k,))
}

/// How flushing one buffered line extends the forwarded text `out0` to
/// `out1`: an empty buffer forwards nothing; an unrecognized line is
/// forwarded untouched; a recognized key is preceded by whatever comment the
/// resolver may answer for it, rendered at the key's column.
pub open spec fn flush_rel<F: Fn(KeyData) -> Option<String>>(
    cb: F,
    buf: Seq<char>,
    out0: Seq<char>,
    out1: Seq<char>,
) -> bool {
    if buf.len() == 0 {
        out1 == out0
    } else {
        match crate::recognize::spec_recognize(buf) {
            None => out1 == out0 + buf,
            Some(kd) => exists|k: KeyData, c: Option<String>|
                #[trigger] call_ensures(cb, (k,), c) && k.str@ == kd.0 && k.start as int == kd.1
                    && out1 == out0 + opt_render(c, kd.1) + buf,
        }
    }
}

/// How accepting the text `input` takes the filter from buffered line `buf0`
/// and forwarded text `out0` to `buf1` and `out1`: each character joins the
/// buffered line, and each newline flushes it.
pub open spec fn filter_rel<F: Fn(KeyData) -> Option<String>>(
    cb: F,
    buf0: Seq<char>,
    out0: Seq<char>,
    input: Seq<char>,
    buf1: Seq<char>,
    out1: Seq<char>,
) -> bool
    decreases input.len(),
{
    if input.len() == 0 {
        buf1 == buf0 && out1 == out0
    } else {
        let nb = buf0.push(input[0]);
        if input[0] == '\n' {
            exists|outm: Seq<char>|
                #[trigger] flush_rel(cb, nb, out0, outm) && filter_rel(
                    cb,
                    Seq::empty(),
                    outm,
                    input.drop_first(),
                    buf1,
                    out1,
                )
        } else {
            filter_rel(cb, nb, out0, input.drop_first(), buf1, out1)
        }
    }
}

/// How annotating a complete text `input` yields `output`: the text runs
/// through the filter from an empty state, and a final flush covers a
/// trailing line without a newline.
pub open spec fn annotate_rel<F: Fn(KeyData) -> Option<String>>(
    cb: F,
    input: Seq<char>,
    output: Seq<char>,
) -> bool {
    exists|bufm: Seq<char>, outm: Seq<char>|
        #[trigger] filter_rel(cb, Seq::empty(), Seq::empty(), input, bufm, outm) && flush_rel(
            cb,
            bufm,
            outm,
            output,
        )
}

proof fn lemma_filter_rel_concat<F: Fn(KeyData) -> Option<String>>(
    cb: F,
    b0: Seq<char>,
    o0: Seq<char>,
    s1: Seq<char>,
    b1: Seq<char>,
    o1: Seq<char>,
    s2: Seq<char>,
    b2: Seq<char>,
    o2: Seq<char>,
)
    requires
        filter_rel(cb, b0, o0, s1, b1, o1),
        filter_rel(cb, b1, o1, s2, b2, o2),
    ensures
        filter_rel(cb, b0, o0, s1 + s2, b2, o2),
    decreases s1.len(),
{
    if s1.len() == 0 {
        assert(s1 + s2 =~= s2);
    } else {
        let c = s1[0];
        assert((s1 + s2)[0] == c);
        assert((s1 + s2).drop_first() =~= s1.drop_first() + s2);
        if c == '\n' {
            let outm = choose|outm: Seq<char>|
                #[trigger] flush_rel(cb, b0.push(c), o0, outm) && filter_rel(
                    cb,
                    Seq::empty(),
                    outm,
                    s1.drop_first(),
                    b1,
                    o1,
                );
            lemma_filter_rel_concat(
                cb,
                Seq::empty(),
                outm,
                s1.drop_first(),
                b1,
                o1,
                s2,
                b2,
                o2,
            );
        } else {
            lemma_filter_rel_concat(cb, b0.push(c), o0, s1.drop_first(), b1, o1, s2, b2, o2);
        }
    }
}

proof fn lemma_filter_rel_step<F: Fn(KeyData) -> Option<String>>(
    cb: F,
    b0: Seq<char>,
    o0: Seq<char>,
    c: char,
    b1: Seq<char>,
    o1: Seq<char>,
)
    requires
        c == '\n' ==> flush_rel(cb, b0.push(c), o0, o1) && b1 == Seq::<char>::empty(),
        c != '\n' ==> b1 == b0.push(c) && o1 == o0,
    ensures
        filter_rel(cb, b0, o0, seq![c], b1, o1),
{
    let s = seq![c];
    assert(s.drop_first() =~= Seq::<char>::empty());
    if c == '\n' {
        assert(filter_rel(cb, Seq::<char>::empty(), o1, Seq::<char>::empty(), b1, o1));
        assert(flush_rel(cb, b0.push(c), o0, o1) && filter_rel(
            cb,
            Seq::empty(),
            o1,
            s.drop_first(),
            b1,
            o1,
        ));
    } else {
        assert(filter_rel(cb, b0.push(c), o0, Seq::<char>::empty(), b1, o1));
        assert(filter_rel(cb, b0.push(c), o0, s.drop_first(), b1, o1));
    }
}

/// A pass-through text filter that buffers one line at a time, asks the key
/// recognizer about each completed line, and injects the resolver's comments
/// above each recognized key, indented to the key's column.
pub struct Commenter<F> where F: Fn(KeyData) -> Option<String> {
    cb: F,
    buffer: String,
    out: String,
}

impl<F> Commenter<F> where F: Fn(KeyData) -> Option<String> {
    /// The resolver this filter asks for comments.
    pub closed spec fn resolver(&self) -> F {
        self.cb
    }

    /// The partial line buffered since the last newline.
    pub closed spec fn buffered(&self) -> Seq<char> {
        self.buffer@
    }

    /// The text forwarded so far.
    pub closed spec fn forwarded(&self) -> Seq<char> {
        self.out@
    }

    /// Creates a filter around the resolver `cb`, with nothing buffered and
    /// nothing forwarded yet.
    pub fn new(cb: F) -> (r: Commenter<F>)
        ensures
            r.resolver() == cb,
            r.buffered() == Seq::<char>::empty(),
            r.forwarded() == Seq::<char>::empty(),
    {
        Commenter { cb, buffer: String::new(), out: String::new() }
    }

    /// Flushes the buffered line, if any: asks the recognizer about it, lets
    /// the resolver answer for a recognized key, writes the rendered comment
    /// and then the line itself, and clears the buffer.
    fn flush_buffer(&mut self)
        requires
            resolver_callable(old(self).resolver()),
        ensures
            final(self).resolver() == old(self).resolver(),
            final(self).buffered() == Seq::<char>::empty(),
            flush_rel(
                old(self).resolver(),
                old(self).buffered(),
                old(self).forwarded(),
                final(self).forwarded(),
            ),
    {
        if self.buffer.as_str().is_empty() {
            return ;
        }
        let ghost buf0 = self.buffer@;
        let ghost out0 = self.out@;
        match get_key_name(self.buffer.as_str()) {
            Some(key) => {
                let col = key.start;
                let ghost gkey = key;
                let copt = (self.cb)(key);
                let ghost gcopt = copt;
                match copt {
                    Some(s) => {
                        let rendered = render_comment_text(s.as_str(), col);
                        self.out.append(rendered.as_str());
                    },
                    None => {},
                }
                proof {
                    assert(self.out@ == out0 + opt_render(gcopt, col as int));
                }
                self.out.append(self.buffer.as_str());
                self.buffer = String::new();
                proof {
                    let kd = crate::recognize::spec_recognize(buf0).unwrap();
                    assert(call_ensures(self.cb, (gkey,), gcopt) && gkey.str@ == kd.0
                        && gkey.start as int == kd.1 && self.out@ == out0 + opt_render(gcopt, kd.1)
                        + buf0);
                }
            },
            None => {
                self.out.append(self.buffer.as_str());
                self.buffer = String::new();
            },
        }
    }

    /// Accepts a chunk of text: buffers it character by character and, at
    /// each newline, flushes the completed line with any resolved comment
    /// above it.
    pub fn write_str(&mut self, s: &str)
        requires
            resolver_callable(old(self).resolver()),
        ensures
            final(self).resolver() == old(self).resolver(),
            filter_rel(
                old(self).resolver(),
                old(self).buffered(),
                old(self).forwarded(),
                s@,
                final(self).buffered(),
                final(self).forwarded(),
            ),
    {
        let ghost buf0 = self.buffer@;
        let ghost out0 = self.out@;
        let n = s.unicode_len();
        let mut i: usize = 0;
        proof {
            assert(s@.subrange(0, 0) =~= Seq::<char>::empty());
        }
        while i < n
            invariant
                i <= n,
                n == s@.len(),
                resolver_callable(self.resolver()),
                self.resolver() == old(self).resolver(),
                filter_rel(
                    old(self).resolver(),
                    buf0,
                    out0,
                    s@.subrange(0, i as int),
                    self.buffered(),
                    self.forwarded(),
                ),
            decreases n - i,
        {
            let ghost pre_buf = self.buffer@;
            let ghost pre_out = self.out@;
            let c = s.get_char(i);
            string_push(&mut self.buffer, c);
            if c == '\n' {
                self.flush_buffer();
            }
            proof {
                lemma_filter_rel_step(
                    self.resolver(),
                    pre_buf,
                    pre_out,
                    c,
                    self.buffered(),
                    self.forwarded(),
                );
                lemma_filter_rel_concat(
                    self.resolver(),
                    buf0,
                    out0,
                    s@.subrange(0, i as int),
                    pre_buf,
                    pre_out,
                    seq![c],
                    self.buffered(),
                    self.forwarded(),
                );
                assert(s@.subrange(0, i as int) + seq![c] =~= s@.subrange(0, i as int + 1));
            }
            i += 1;
        }
        proof {
            assert(s@.subrange(0, n as int) =~= s@);
        }
    }

    /// Accepts a chunk of bytes: decodes it as text and buffers it, flushing
    /// each completed line with any resolved comment above it. Reports the
    /// whole chunk as consumed; when the bytes are not valid text, fails
    /// without consuming anything.
    pub fn write(&mut self, buf: &[u8]) -> (r: Result<usize, SytError>)
        requires
            resolver_callable(old(self).resolver()),
        ensures
            final(self).resolver() == old(self).resolver(),
            match r {
                Ok(n) => n == buf@.len() && valid_utf8(buf@) && filter_rel(
                    old(self).resolver(),
                    old(self).buffered(),
                    old(self).forwarded(),
                    decode_utf8(buf@),
                    final(self).buffered(),
                    final(self).forwarded(),
                ),
                Err(e) => !valid_utf8(buf@) && e is FromUtf8Error && *final(self) == *old(self),
            },
    {
        match bytes_to_string(buf) {
            Ok(s) => {
                self.write_str(s.as_str());
                Ok(buf.len())
            },
            Err(e) => Err(e),
        }
    }

    /// Flushes a trailing line that has no terminating newline; afterwards
    /// nothing is buffered.
    pub fn flush(&mut self)
        requires
            resolver_callable(old(self).resolver()),
        ensures
            final(self).resolver() == old(self).resolver(),
            final(self).buffered() == Seq::<char>::empty(),
            flush_rel(
                old(self).resolver(),
                old(self).buffered(),
                old(self).forwarded(),
                final(self).forwarded(),
            ),
    {
        self.flush_buffer();
    }

    /// Consumes the filter and hands back everything forwarded.
    pub fn into_output(self) -> (r: String)
        ensures
            r@ == self.forwarded(),
    {
        self.out
    }

    /// Hands back everything forwarded since the last take, leaving the
    /// buffered line in place.
    pub fn take_output(&mut self) -> (r: String)
        ensures
            final(self).resolver() == old(self).resolver(),
            final(self).buffered() == old(self).buffered(),
            final(self).forwarded() == Seq::<char>::empty(),
            r@ == old(self).forwarded(),
    {
        let r = self.out.clone();
        self.out = String::new();
        r
    }
}

/// Annotates a complete text: runs it through the filter and returns the
/// text with every resolved comment injected above its key.
pub fn annotate<F: Fn(KeyData) -> Option<String>>(text: &str, cb: F) -> (r: String)
    requires
        resolver_callable(cb),
    ensures
        annotate_rel(cb, text@, r@),
{
    let mut c = Commenter::new(cb);
    c.write_str(text);
    c.flush();
    c.into_output()
}

/// `output` is the annotation of some input text under the resolver `cb`.
pub open spec fn some_text_annotated<F: Fn(KeyData) -> Option<String>>(
    cb: F,
    output: Seq<char>,
) -> bool {
    exists|y: Seq<char>| annotate_rel(cb, y, output)
}

/// Serializes `value` as structured text with comments: the encoder's output
/// is annotated by the resolver `cb`, which is asked once per recognized key
/// and may answer with a multi-line comment.
pub fn to_string<T: serde::Serialize, F: Fn(KeyData) -> Option<String>>(
    value: &T,
    cb: F,
) -> (r: Result<String, SytError>)
    requires
        resolver_callable(cb),
    ensures
        r matches Ok(s) ==> some_text_annotated(cb, s@),
        r matches Err(e) ==> e is YamlError,
{
    let ghost gcb = cb;
    match yaml_encode(value) {
        Ok(y) => {
            let ghost yv = y@;
            let s = annotate(y.as_str(), cb);
            proof {
                assert(annotate_rel(gcb, yv, s@));
                assert(some_text_annotated(gcb, s@));
            }
            Ok(s)
        },
        Err(e) => Err(e),
    }
}

proof fn lemma_flush_rel_no_comments<F: Fn(KeyData) -> Option<String>>(
    cb: F,
    buf: Seq<char>,
    out0: Seq<char>,
    out1: Seq<char>,
)
    requires
        flush_rel(cb, buf, out0, out1),
        forall|k: KeyData, c: Option<String>| call_ensures(cb, (k,), c) ==> c is None,
    ensures
        out1 == out0 + buf,
{
    if buf.len() == 0 {
        assert(out0 + buf =~= out0);
    } else {
        match crate::recognize::spec_recognize(buf) {
            None => {},
            Some(kd) => {
                let (k, c) = choose|k: KeyData, c: Option<String>|
                    #[trigger] call_ensures(cb, (k,), c) && k.str@ == kd.0 && k.start as int
                        == kd.1 && out1 == out0 + opt_render(c, kd.1) + buf;
                assert(c is None);
                assert(out0 + opt_render(c, kd.1) =~= out0);
            },
        }
    }
}

proof fn lemma_filter_rel_no_comments<F: Fn(KeyData) -> Option<String>>(
    cb: F,
    buf0: Seq<char>,
    out0: Seq<char>,
    input: Seq<char>,
    buf1: Seq<char>,
    out1: Seq<char>,
)
    requires
        filter_rel(cb, buf0, out0, input, buf1, out1),
        forall|k: KeyData, c: Option<String>| call_ensures(cb, (k,), c) ==> c is None,
    ensures
        out1 + buf1 == out0 + buf0 + input,
    decreases input.len(),
{
    if input.len() == 0 {
        assert(out1 + buf1 =~= out0 + buf0 + input);
    } else {
        let c = input[0];
        let nb = buf0.push(c);
        assert(out0 + nb =~= out0 + buf0 + seq![c]);
        if c == '\n' {
            let outm = choose|outm: Seq<char>|
                #[trigger] flush_rel(cb, nb, out0, outm) && filter_rel(
                    cb,
                    Seq::empty(),
                    outm,
                    input.drop_first(),
                    buf1,
                    out1,
                );
            lemma_flush_rel_no_comments(cb, nb, out0, outm);
            lemma_filter_rel_no_comments(cb, Seq::empty(), outm, input.drop_first(), buf1, out1);
            assert(outm + Seq::<char>::empty() =~= outm);
            assert(out0 + buf0 + seq![c] + input.drop_first() =~= out0 + buf0 + input);
        } else {
            lemma_filter_rel_no_comments(cb, nb, out0, input.drop_first(), buf1, out1);
            assert(out0 + buf0 + seq![c] + input.drop_first() =~= out0 + buf0 + input);
        }
    }
}

/// Law: a resolver that never answers with a comment leaves the stream
/// untouched — annotating any text with it yields that text, byte for byte.
pub proof fn lemma_annotate_identity<F: Fn(KeyData) -> Option<String>>(
    cb: F,
    input: Seq<char>,
    output: Seq<char>,
)
    requires
        annotate_rel(cb, input, output),
        forall|k: KeyData, c: Option<String>| call_ensures(cb, (k,), c) ==> c is None,
    ensures
        output == input,
{
    let (bufm, outm) = choose|bufm: Seq<char>, outm: Seq<char>|
        #[trigger] filter_rel(cb, Seq::empty(), Seq::empty(), input, bufm, outm) && flush_rel(
            cb,
            bufm,
            outm,
            output,
        );
    lemma_filter_rel_no_comments(cb, Seq::empty(), Seq::empty(), input, bufm, outm);
    lemma_flush_rel_no_comments(cb, bufm, outm, output);
    assert(output =~= input);
}

} // verus!
