//! The rendering buffer: one sink, the raw and escaping write paths over it,
//! and the latch that keeps the first error.
use vstd::prelude::*;
use vstd::string::*;
use vstd::utf8::*;

use crate::escape::{escape_byte, escape_bytes, is_special, lemma_escape_concat, lemma_escape_one, lemma_escape_plain, should_escape};
use crate::sink::{append_str, extends, prefix_between, string_bytes, ByteSink, TextSink};

verus! {

broadcast use group_utf8_lib;

/// The failures of one render pass: at most one from the sink and at most one
/// recorded by the template itself.
#[derive(Debug)]
pub struct Error {
    /// The first failure of the sink.
    pub write: Option<std::io::Error>,
    /// The failure a template recorded with `record_error`.
    pub render: Option<String>,
}

impl Error {
    /// No failure of either kind.
    pub open spec fn is_empty(&self) -> bool {
        self.write is None && self.render is None
    }

    /// The state a render pass starts in.
    pub fn new() -> (r: Error)
        ensures
            r.is_empty(),
    {
        Error { write: None, render: None }
    }

    /// Whether no failure is recorded.
    pub fn is_empty_now(&self) -> (r: bool)
        ensures
            r == self.is_empty(),
    {
        self.write.is_none() && self.render.is_none()
    }
}

/// Where a buffer's output goes.
pub enum TemplateSink<T, B> {
    /// A sink that takes text and may refuse it.
    Fmt(T),
    /// An owned string, which never refuses.
    Str(String),
    /// A byte stream that may fail with an I/O error.
    Io(B),
}

impl<T: TextSink, B: ByteSink> TemplateSink<T, B> {
    /// The bytes the sink holds.
    pub open spec fn written(&self) -> Seq<u8> {
        match self {
            TemplateSink::Fmt(t) => t.written(),
            TemplateSink::Str(s) => string_bytes(s),
            TemplateSink::Io(b) => b.written(),
        }
    }

    /// Whether the sink describes its content; an owned string does.
    pub open spec fn observed(&self) -> bool {
        match self {
            TemplateSink::Fmt(t) => t.observed(),
            TemplateSink::Str(_) => true,
            TemplateSink::Io(b) => b.observed(),
        }
    }

    /// How many writes the sink has refused; an owned string refuses none.
    pub open spec fn refusals(&self) -> nat {
        match self {
            TemplateSink::Fmt(t) => t.refusals(),
            TemplateSink::Str(_) => 0,
            TemplateSink::Io(b) => b.refusals(),
        }
    }

    /// The error of the last failed write of a byte sink.
    pub open spec fn io_error(&self) -> Option<std::io::Error> {
        match self {
            TemplateSink::Io(b) => b.last_error(),
            _ => None,
        }
    }
}

impl<T, B> TemplateSink<T, B> {
    /// Both sinks are of one kind.
    pub open spec fn same_kind(&self, other: &Self) -> bool {
        &&& (self is Fmt <==> other is Fmt)
        &&& (self is Str <==> other is Str)
        &&& (self is Io <==> other is Io)
    }
}

/// Relies on `std::io::Error::new`: the error that stands for a refusal of a
/// text sink, which itself gives no detail.
#[verifier::external_body]
fn new_fmt_err() -> std::io::Error {
    std::io::Error::new(std::io::ErrorKind::Other, "Format Error")
}

/// Makes `std::fmt::Arguments` usable in signatures; values of it are
/// carried through unopened.
#[verifier::external_type_specification]
#[verifier::external_body]
pub struct ExArguments<'a>(std::fmt::Arguments<'a>);

/// Relies on `std::fmt::write`: renders the arguments into a new string, or
/// gives `None` where one of their formatting impls reported an error. What
/// the text is depends on those impls, so nothing is stated of it.
#[verifier::external_body]
fn format_arguments(args: std::fmt::Arguments<'_>) -> Option<String> {
    let mut s = String::new();
    match std::fmt::write(&mut s, args) {
        Ok(()) => Some(s),
        Err(_) => None,
    }
}

/// A template buffer: the value that rendering code writes into.
pub struct TemplateBuffer<T, B> {
    writer: TemplateSink<T, B>,
    error: Error,
}

impl<T: TextSink, B: ByteSink> TemplateBuffer<T, B> {
    /// The sink and what it holds.
    pub closed spec fn sink(&self) -> TemplateSink<T, B> {
        self.writer
    }

    /// The failures recorded so far.
    pub closed spec fn errors(&self) -> Error {
        self.error
    }

    /// The bytes the sink holds.
    pub open spec fn output(&self) -> Seq<u8> {
        self.sink().written()
    }

    /// Some failure is latched; writes no longer reach the sink.
    pub open spec fn failed(&self) -> bool {
        !self.errors().is_empty()
    }

    /// What a write of `data` does: nothing once a failure is latched;
    /// otherwise the sink keeps its kind, and a failure latches as a write
    /// error; an owned string never fails. Of a sink that is observed, the
    /// buffer fails exactly when the sink refused a write, the sink holds
    /// exactly `data` more unless it refused, else a leading part of `data` at
    /// most, and the error a byte sink gave is the one latched.
    pub open spec fn wrote(pre: Self, post: Self, data: Seq<u8>) -> bool {
        if pre.failed() {
            post == pre
        } else {
            &&& post.sink().same_kind(&pre.sink())
            &&& post.errors().render is None
            &&& (post.failed() <==> post.errors().write is Some)
            &&& (pre.sink() is Str ==> !post.failed())
            &&& post.sink().observed() == pre.sink().observed()
            &&& (pre.sink().observed() ==> {
                &&& post.sink().refusals() == pre.sink().refusals() + if post.failed() {
                    1nat
                } else {
                    0nat
                }
                &&& (!post.failed() ==> post.output() == pre.output() + data)
                &&& (post.failed() ==> prefix_between(
                    pre.output(),
                    post.output(),
                    pre.output() + data,
                ))
                &&& (post.failed() && post.sink() is Io ==> post.errors().write
                    == post.sink().io_error())
            })
        }
    }

    /// A buffer over `sink`, with no failure recorded.
    pub fn new(sink: TemplateSink<T, B>) -> (r: Self)
        ensures
            r.sink() == sink,
            r.output() == sink.written(),
            !r.failed(),
    {
        TemplateBuffer { writer: sink, error: Error::new() }
    }

    /// Record an error. The first failure of either kind is kept; after it,
    /// rendering is short-circuited and the error is returned to the user.
    pub fn record_error(&mut self, e: &str)
        ensures
            old(self).failed() ==> *final(self) == *old(self),
            !old(self).failed() ==> final(self).sink() == old(self).sink()
                && final(self).output() == old(self).output()
                && final(self).errors().write is None
                && final(self).errors().render is Some
                && final(self).errors().render->0@ == e@,
    {
        if self.error.is_empty_now() {
            self.error.render = Some(e.to_owned());
        }
    }

    /// A buffer over an owned string.
    pub fn from_string(s: String) -> (r: Self)
        ensures
            r.sink() == TemplateSink::<T, B>::Str(s),
            r.output() == string_bytes(&s),
            !r.failed(),
    {
        Self::new(TemplateSink::Str(s))
    }

    /// A buffer over a text sink.
    pub fn from_text(t: T) -> (r: Self)
        ensures
            r.sink() == TemplateSink::<T, B>::Fmt(t),
            r.output() == t.written(),
            !r.failed(),
    {
        Self::new(TemplateSink::Fmt(t))
    }

    /// A buffer over a byte sink.
    pub fn from_bytes(b: B) -> (r: Self)
        ensures
            r.sink() == TemplateSink::<T, B>::Io(b),
            r.output() == b.written(),
            !r.failed(),
    {
        Self::new(TemplateSink::Io(b))
    }

    /// Whether a failure is latched.
    pub fn has_failed(&self) -> (r: bool)
        ensures
            r == self.failed(),
    {
        !self.error.is_empty_now()
    }

    /// Ends the pass: gives back the sink, and success when no failure was
    /// recorded, else the recorded failure.
    pub fn finish(self) -> (r: (TemplateSink<T, B>, Result<(), Error>))
        ensures
            r.0 == self.sink(),
            r.1 is Ok <==> !self.failed(),
            r.1 is Err ==> r.1->Err_0 == self.errors(),
    {
        if self.error.is_empty_now() {
            (self.writer, Ok(()))
        } else {
            (self.writer, Err(self.error))
        }
    }

    /// Ends the pass: success when no failure was recorded, else the recorded
    /// failure.
    pub fn into_result(self) -> (r: Result<(), Error>)
        ensures
            r is Ok <==> !self.failed(),
            r is Err ==> r->Err_0 == self.errors(),
    {
        self.finish().1
    }

    /// Ends a pass over an owned string: the string, or the recorded failure.
    pub fn into_string(self) -> (r: Result<String, Error>)
        requires
            self.sink() is Str,
        ensures
            r is Ok <==> !self.failed(),
            r is Ok ==> string_bytes(&r->Ok_0) == self.output(),
            r is Ok ==> r->Ok_0 == self.sink()->Str_0,
            r is Err ==> r->Err_0 == self.errors(),
    {
        let (sink, result) = self.finish();
        match (sink, result) {
            (TemplateSink::Str(s), Ok(())) => Ok(s),
            (_, Err(e)) => Err(e),
            (_, Ok(())) => {
                proof {
                    assert(false);
                }
                Ok(String::new())
            },
        }
    }

    /// Escape and write text that was formatted beforehand; `None` stands for
    /// a formatting step that failed, which latches as a write error.
    pub fn write_formatted(&mut self, formatted: Option<&str>)
        ensures
            formatted is Some ==> Self::wrote(
                *old(self),
                *final(self),
                escape_bytes(formatted->0.spec_bytes()),
            ),
            formatted is None && old(self).failed() ==> *final(self) == *old(self),
            formatted is None && !old(self).failed() ==> final(self).sink() == old(self).sink()
                && final(self).output() == old(self).output() && final(self).errors().write is Some && final(self).errors().render is None,
    {
        match formatted {
            Some(text) => self.write_str(text),
            None => {
                if self.error.is_empty_now() {
                    self.error.write = Some(new_fmt_err());
                }
            },
        }
    }

    /// Escape and write the formatted arguments to the template output.
    /// Nothing is formatted once a failure is latched.
    pub fn write_fmt(&mut self, args: std::fmt::Arguments<'_>)
        ensures
            old(self).failed() ==> *final(self) == *old(self),
            !old(self).failed() ==> (exists|text: Seq<u8>|
                Self::wrote(*old(self), *final(self), #[trigger] escape_bytes(text)))
                || (final(self).sink() == old(self).sink() && final(self).output()
                == old(self).output() && final(self).errors().write is Some
                && final(self).errors().render is None),
    {
        if self.error.is_empty_now() {
            let formatted = format_arguments(args);
            match formatted {
                Some(text) => self.write_formatted(Some(text.as_str())),
                None => self.write_formatted(None),
            }
        }
    }

    /// Hands `text` to the sink unchanged; a failure of the sink is latched.
    fn put(&mut self, text: &str) -> (ok: bool)
        requires
            !old(self).failed(),
        ensures
            Self::wrote(*old(self), *final(self), text.spec_bytes()),
            ok <==> !final(self).failed(),
    {
        proof {
            lemma_prefix_refl(old(self).output(), text.spec_bytes());
        }
        match &mut self.writer {
            TemplateSink::Fmt(w) => {
                if w.write_str(text).is_err() {
                    self.error.write = Some(new_fmt_err());
                    false
                } else {
                    true
                }
            },
            TemplateSink::Str(s) => {
                append_str(s, text);
                true
            },
            TemplateSink::Io(w) => {
                match w.write_all(text.as_bytes()) {
                    Ok(()) => true,
                    Err(e) => {
                        self.error.write = Some(e);
                        false
                    },
                }
            },
        }
    }

    /// Write a raw string to the template output.
    pub fn write_raw(&mut self, text: &str)
        ensures
            Self::wrote(*old(self), *final(self), text.spec_bytes()),
    {
        if self.error.is_empty_now() {
            self.put(text);
        }
    }

    /// Escape and write a string to the template output.
    #[verifier::rlimit(30)]
    pub fn write_str(&mut self, text: &str)
        ensures
            Self::wrote(*old(self), *final(self), escape_bytes(text.spec_bytes())),
    {
        if !self.error.is_empty_now() {
            return ;
        }
        let ghost pre = *self;
        assert(pre == *old(self));
        let ghost mut done: Seq<u8> = Seq::empty();
        let mut rest: &str = text;
        let mut i: usize = 0;
        assert(text.spec_bytes() =~= done + rest.spec_bytes());
        assert(pre.output() + escape_bytes(done) =~= pre.output());
        loop
            invariant_except_break
                !self.failed(),
                Self::wrote(pre, *self, escape_bytes(done)),
                text.spec_bytes() == done + rest.spec_bytes(),
                i <= rest.spec_bytes().len(),
                forall|j: int| 0 <= j < i ==> !is_special(#[trigger] rest.spec_bytes()[j]),
            invariant
                !pre.failed(),
            ensures
                Self::wrote(pre, *self, escape_bytes(text.spec_bytes())),
            decreases rest.spec_bytes().len(), rest.spec_bytes().len() - i,
        {
            let bytes = rest.as_bytes();
            let ghost rb = rest.spec_bytes();
            if i == bytes.len() {
                let ghost mid = *self;
                proof {
                    assert(rb.subrange(0, i as int) =~= rb);
                    lemma_escape_plain(rb);
                    lemma_escape_concat(done, rb);
                }
                self.put(rest);
                proof {
                    lemma_wrote_chain(pre, mid, *self, escape_bytes(done), rb);
                    assert(escape_bytes(text.spec_bytes()) == escape_bytes(done) + rb);
                    assert(TemplateBuffer::wrote(pre, *self, escape_bytes(text.spec_bytes())));
                }
                break;
            }
            let b = bytes[i];
            if should_escape(b) {
                proof {
                    assert(!is_continuation_byte(rb[i as int]));
                    assert(is_char_boundary(rb, i as int));
                }
                let (head, tail) = rest.split_at(i);
                let ghost hb = head.spec_bytes();
                let ghost tb = tail.spec_bytes();
                let ghost s0 = *self;
                let ghost tr = tb.subrange(1, tb.len() as int);
                let ghost whole = escape_bytes(text.spec_bytes());
                proof {
                    lemma_escape_plain(hb);
                    lemma_escape_concat(done, hb);
                    assert(rb =~= hb + tb);
                    assert(tb =~= seq![b] + tr);
                    lemma_escape_concat(done, rb);
                    lemma_escape_concat(hb, tb);
                    lemma_escape_concat(seq![b], tr);
                    lemma_escape_one(b);
                    assert(whole =~= escape_bytes(done) + hb + escape_byte(b) + escape_bytes(tr));
                }
                if !self.put(head) {
                    proof {
                        lemma_wrote_chain(pre, s0, *self, escape_bytes(done), hb);
                        lemma_wrote_extend(
                            pre,
                            *self,
                            escape_bytes(done) + hb,
                            escape_byte(b) + escape_bytes(tr),
                        );
                        assert(whole =~= escape_bytes(done) + hb + (escape_byte(b) + escape_bytes(
                            tr,
                        )));
                    }
                    break;
                }
                proof {
                    lemma_wrote_chain(pre, s0, *self, escape_bytes(done), hb);
                }
                let ghost s1 = *self;
                let ent = entity(b);
                if !self.put(ent) {
                    proof {
                        lemma_wrote_chain(pre, s1, *self, escape_bytes(done + hb), escape_byte(b));
                        lemma_wrote_extend(
                            pre,
                            *self,
                            escape_bytes(done + hb) + escape_byte(b),
                            escape_bytes(tr),
                        );
                    }
                    break;
                }
                proof {
                    lemma_wrote_chain(pre, s1, *self, escape_bytes(done + hb), escape_byte(b));
                    assert(tb[0] == b);
                    lemma_split_after_ascii(tb);
                }
                let (_, after) = tail.split_at(1);
                proof {
                    let one = seq![b];
                    lemma_escape_one(b);
                    lemma_escape_concat(done + hb, one);
                    assert(tb =~= one + after.spec_bytes());
                    assert(rb =~= hb + tb);
                    assert(text.spec_bytes() =~= (done + hb + one) + after.spec_bytes());
                    done = done + hb + one;
                }
                rest = after;
                i = 0;
            } else {
                i = i + 1;
            }
        }
    }
}

/// Two writes in a row, the first of which left the buffer clean, are one
/// write of both parts.
proof fn lemma_wrote_chain<T: TextSink, B: ByteSink>(
    a: TemplateBuffer<T, B>,
    b: TemplateBuffer<T, B>,
    c: TemplateBuffer<T, B>,
    x: Seq<u8>,
    y: Seq<u8>,
)
    requires
        !a.failed(),
        TemplateBuffer::wrote(a, b, x),
        !b.failed(),
        TemplateBuffer::wrote(b, c, y),
    ensures
        TemplateBuffer::wrote(a, c, x + y),
{
    let lo = a.output();
    let mid = b.output();
    assert(lo + x + y =~= lo + (x + y));
    if a.sink().observed() {
        assert(mid.subrange(0, lo.len() as int) =~= lo);
    }
    if a.sink().observed() && c.failed() {
        let out = c.output();
        assert(out.subrange(0, lo.len() as int) =~= out.subrange(0, mid.len() as int).subrange(
            0,
            lo.len() as int,
        ));
        assert((lo + (x + y)).subrange(0, out.len() as int) =~= (mid + y).subrange(
            0,
            out.len() as int,
        ));
    }
}

/// A failed write of `x` is a failed write of anything that starts with `x`.
proof fn lemma_wrote_extend<T: TextSink, B: ByteSink>(
    a: TemplateBuffer<T, B>,
    c: TemplateBuffer<T, B>,
    x: Seq<u8>,
    y: Seq<u8>,
)
    requires
        !a.failed(),
        TemplateBuffer::wrote(a, c, x),
        c.failed(),
    ensures
        TemplateBuffer::wrote(a, c, x + y),
{
    if a.sink().observed() {
        let z = x + y;
        let lo = a.output();
        let out = c.output();
        assert((lo + z).subrange(0, out.len() as int) =~= (lo + x).subrange(0, out.len() as int)) by {
            assert forall|k: int| 0 <= k < out.len() implies (lo + z)[k] == (lo + x)[k] by {
                if k >= lo.len() {
                    assert(z[k - lo.len()] == z.subrange(0, x.len() as int)[k - lo.len()]);
                }
            }
        }
    }
}

/// A sequence lies between itself and any extension of it.
proof fn lemma_prefix_refl(lo: Seq<u8>, data: Seq<u8>)
    ensures
        prefix_between(lo, lo, lo + data),
{
    assert(lo.subrange(0, lo.len() as int) =~= lo);
    assert((lo + data).subrange(0, lo.len() as int) =~= lo);
}

/// Once a failure is latched, a later write leaves the recorded failure, and
/// the sink, as they were: the first error wins.
pub proof fn lemma_first_error_wins<T: TextSink, B: ByteSink>(
    a: TemplateBuffer<T, B>,
    b: TemplateBuffer<T, B>,
    c: TemplateBuffer<T, B>,
    x: Seq<u8>,
    y: Seq<u8>,
)
    requires
        TemplateBuffer::wrote(a, b, x),
        b.failed(),
        TemplateBuffer::wrote(b, c, y),
    ensures
        c.errors() == b.errors(),
        c.sink() == b.sink(),
        c.output() == b.output(),
{
}

/// Any run of writes on a buffer that has failed leaves it as it was, its
/// sink included.
pub proof fn lemma_failed_writes_are_no_ops<T: TextSink, B: ByteSink>(
    states: Seq<TemplateBuffer<T, B>>,
    frags: Seq<Seq<u8>>,
)
    requires
        states.len() == frags.len() + 1,
        states[0].failed(),
        forall|i: int|
            0 <= i < frags.len() ==> TemplateBuffer::wrote(
                #[trigger] states[i],
                states[i + 1],
                frags[i],
            ),
    ensures
        states.last() == states[0],
    decreases frags.len(),
{
    if frags.len() > 0 {
        let n = frags.len() - 1;
        lemma_failed_writes_are_no_ops(states.drop_last(), frags.drop_last());
        assert(states.drop_last().last() == states[n]);
        assert(TemplateBuffer::wrote(states[n], states[n + 1], frags[n]));
    }
}

/// The fragments one after another.
pub open spec fn concat_all(frags: Seq<Seq<u8>>) -> Seq<u8>
    decreases frags.len(),
{
    if frags.len() == 0 {
        Seq::empty()
    } else {
        concat_all(frags.drop_last()) + frags.last()
    }
}

/// A run of writes on a clean buffer over an owned string, `states[i]` to
/// `states[i + 1]` writing `frags[i]`, leaves it clean and holding all the
/// fragments in call order.
pub proof fn lemma_string_round_trip<T: TextSink, B: ByteSink>(
    states: Seq<TemplateBuffer<T, B>>,
    frags: Seq<Seq<u8>>,
)
    requires
        states.len() == frags.len() + 1,
        states[0].sink() is Str,
        !states[0].failed(),
        forall|i: int|
            0 <= i < frags.len() ==> TemplateBuffer::wrote(
                #[trigger] states[i],
                states[i + 1],
                frags[i],
            ),
    ensures
        !states.last().failed(),
        states.last().sink() is Str,
        states.last().output() == states[0].output() + concat_all(frags),
    decreases frags.len(),
{
    if frags.len() == 0 {
        assert(states[0].output() + concat_all(frags) =~= states[0].output());
    } else {
        let n = frags.len() - 1;
        lemma_string_round_trip(states.drop_last(), frags.drop_last());
        assert(TemplateBuffer::wrote(states[n], states[n + 1], frags[n]));
        assert(states.drop_last().last() == states[n]);
        assert(states[0].output() + concat_all(frags.drop_last()) + frags.last() =~= states[0].output()
            + concat_all(frags));
    }
}

/// Splitting after a leading ASCII byte lands on a character boundary.
proof fn lemma_split_after_ascii(bytes: Seq<u8>)
    requires
        valid_utf8(bytes),
        bytes.len() > 0,
        bytes[0] < 0x80,
    ensures
        is_char_boundary(bytes, 1),
{
    reveal_with_fuel(is_char_boundary, 2);
}

/// The entity that stands for a special byte.
fn entity(b: u8) -> (r: &'static str)
    requires
        is_special(b),
    ensures
        r.spec_bytes() == escape_byte(b),
{
    proof {
        lemma_entity_bytes();
    }
    if b == 0x26 {
        "&amp;"
    } else if b == 0x22 {
        "&quot;"
    } else if b == 0x3C {
        "&lt;"
    } else {
        "&gt;"
    }
}

/// The bytes of the four entity literals.
proof fn lemma_entity_bytes()
    ensures
        "&amp;".spec_bytes() == escape_byte(0x26),
        "&quot;".spec_bytes() == escape_byte(0x22),
        "&lt;".spec_bytes() == escape_byte(0x3C),
        "&gt;".spec_bytes() == escape_byte(0x3E),
{
    reveal_strlit("&amp;");
    reveal_strlit("&quot;");
    reveal_strlit("&lt;");
    reveal_strlit("&gt;");
    assert(is_ascii_chars("&amp;"@));
    assert(is_ascii_chars("&quot;"@));
    assert(is_ascii_chars("&lt;"@));
    assert(is_ascii_chars("&gt;"@));
    assert("&amp;".spec_bytes() =~= escape_byte(0x26));
    assert("&quot;".spec_bytes() =~= escape_byte(0x22));
    assert("&lt;".spec_bytes() =~= escape_byte(0x3C));
    assert("&gt;".spec_bytes() =~= escape_byte(0x3E));
}

/// What any render does to a buffer: the sink keeps its kind, what an
/// observed sink held stays at the front of what it holds, and a buffer that
/// has failed stays as it is.
pub open spec fn rendered<T: TextSink, B: ByteSink>(
    pre: TemplateBuffer<T, B>,
    post: TemplateBuffer<T, B>,
) -> bool {
    &&& post.sink().same_kind(&pre.sink())
    &&& post.sink().observed() == pre.sink().observed()
    &&& (pre.sink().observed() ==> extends(pre.output(), post.output()))
    &&& (pre.failed() ==> post == pre)
}

/// The outcome of a render pass that ended in `post`: success when no
/// failure is recorded, else the recorded failure.
pub open spec fn outcome<T: TextSink, B: ByteSink>(
    post: TemplateBuffer<T, B>,
    r: Result<(), Error>,
) -> bool {
    &&& (r is Ok <==> !post.failed())
    &&& (r is Err ==> r->Err_0 == post.errors())
}

/// Something that renders into a template buffer once. The rendering code
/// issues its writes in document order and may record an error.
pub trait Template: Sized {
    /// What rendering `self` does to a buffer, from `pre` to `post`. An
    /// implementation that is verified may state it exactly; the default
    /// says what holds of every render.
    open spec fn renders<T: TextSink, B: ByteSink>(
        &self,
        pre: TemplateBuffer<T, B>,
        post: TemplateBuffer<T, B>,
    ) -> bool {
        rendered(pre, post)
    }

    /// Renders into `tmpl`, through the buffer's own writes and
    /// `record_error`.
    fn render_once<T: TextSink, B: ByteSink>(self, tmpl: &mut TemplateBuffer<T, B>)
        ensures
            rendered(*old(tmpl), *final(tmpl)),
            self.renders(*old(tmpl), *final(tmpl)),
    ;

    /// Render this into a new String: the outcome of rendering into a clean
    /// buffer over an empty string, with the string on success.
    fn into_string(self) -> (r: Result<String, Error>)
        ensures
            exists|pre: TemplateBuffer<String, Vec<u8>>, post: TemplateBuffer<String, Vec<u8>>|
                {
                    &&& #[trigger] self.renders(pre, post)
                    &&& pre.sink() is Str
                    &&& pre.output() == Seq::<u8>::empty()
                    &&& !pre.failed()
                    &&& post.sink() is Str
                    &&& (r is Ok <==> !post.failed())
                    &&& (r is Ok ==> string_bytes(&r->Ok_0) == post.output())
                    &&& (r is Err ==> r->Err_0 == post.errors())
                },
    {
        let mut buffer = TemplateBuffer::<String, Vec<u8>>::from_string(String::new());
        let ghost pre = buffer;
        proof {
            assert(pre.output() =~= Seq::<u8>::empty());
        }
        self.render_once(&mut buffer);
        let ghost post = buffer;
        let r = buffer.into_string();
        assert(self.renders(pre, post));
        r
    }

    /// Render this at the end of an existing String: the outcome of rendering
    /// into a clean buffer over the string, which then holds the output.
    fn write_to_string(self, string: &mut String) -> (r: Result<(), Error>)
        ensures
            extends(string_bytes(old(string)), string_bytes(final(string))),
            exists|pre: TemplateBuffer<String, Vec<u8>>, post: TemplateBuffer<String, Vec<u8>>|
                {
                    &&& #[trigger] self.renders(pre, post)
                    &&& pre.sink() == TemplateSink::<String, Vec<u8>>::Str(*old(string))
                    &&& !pre.failed()
                    &&& post.sink() is Str
                    &&& outcome(post, r)
                    &&& string_bytes(final(string)) == post.output()
                },
    {
        let mut s = String::new();
        std::mem::swap(string, &mut s);
        let mut buffer = TemplateBuffer::<String, Vec<u8>>::from_string(s);
        let ghost pre = buffer;
        self.render_once(&mut buffer);
        let ghost post = buffer;
        let (sink, result) = buffer.finish();
        match sink {
            TemplateSink::Str(s) => {
                *string = s;
            },
            _ => {},
        }
        assert(self.renders(pre, post));
        result
    }

    /// Render this into a text sink: the outcome of rendering into a clean
    /// buffer over it.
    fn write_to_fmt<W: TextSink>(self, writer: W) -> (r: Result<(), Error>)
        ensures
            exists|pre: TemplateBuffer<W, Vec<u8>>, post: TemplateBuffer<W, Vec<u8>>|
                {
                    &&& #[trigger] self.renders(pre, post)
                    &&& pre.sink() == TemplateSink::<W, Vec<u8>>::Fmt(writer)
                    &&& !pre.failed()
                    &&& outcome(post, r)
                },
    {
        let mut buffer = TemplateBuffer::<W, Vec<u8>>::from_text(writer);
        let ghost pre = buffer;
        self.render_once(&mut buffer);
        let ghost post = buffer;
        assert(self.renders(pre, post));
        buffer.into_result()
    }

    /// Render this into a byte sink: the outcome of rendering into a clean
    /// buffer over it.
    fn write_to_io<W: ByteSink>(self, writer: W) -> (r: Result<(), Error>)
        ensures
            exists|pre: TemplateBuffer<String, W>, post: TemplateBuffer<String, W>|
                {
                    &&& #[trigger] self.renders(pre, post)
                    &&& pre.sink() == TemplateSink::<String, W>::Io(writer)
                    &&& !pre.failed()
                    &&& outcome(post, r)
                },
    {
        let mut buffer = TemplateBuffer::<String, W>::from_bytes(writer);
        let ghost pre = buffer;
        self.render_once(&mut buffer);
        let ghost post = buffer;
        assert(self.renders(pre, post));
        buffer.into_result()
    }
}

} // verus!
