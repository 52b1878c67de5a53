//! The two kinds of outside sink a buffer can write to, besides an owned
//! `String`: one that takes text, one that takes bytes.
use vstd::prelude::*;
use vstd::string::*;
use vstd::utf8::encode_utf8;

verus! {

/// Makes `std::io::Error` usable in signatures; values of it are carried
/// through unopened.
#[verifier::external_type_specification]
#[verifier::external_body]
pub struct ExIoError(std::io::Error);

/// A destination that accepts text, piece by piece, and may refuse a piece.
/// A refusal carries no detail.
///
/// A sink that is `observed` describes itself through `written` and
/// `refusals`, and its writes are held to that description. The defaults
/// describe a sink that is not observed: its writes promise nothing of its
/// content.
pub trait TextSink {
    /// Whether the sink describes its content.
    open spec fn observed(&self) -> bool {
        false
    }

    /// The UTF-8 bytes of the text the sink holds.
    open spec fn written(&self) -> Seq<u8> {
        Seq::empty()
    }

    /// How many pieces the sink has refused.
    open spec fn refusals(&self) -> nat {
        0
    }

    /// Appends `s`, or reports that the sink refused it. A refused piece may
    /// have got through in part.
    fn write_str(&mut self, s: &str) -> (r: Result<(), ()>)
        ensures
            final(self).observed() == old(self).observed(),
            old(self).observed() && r is Ok ==> final(self).written() == old(self).written()
                + s.spec_bytes() && final(self).refusals() == old(self).refusals(),
            old(self).observed() && r is Err ==> prefix_between(
                old(self).written(),
                final(self).written(),
                old(self).written() + s.spec_bytes(),
            ) && final(self).refusals() == old(self).refusals() + 1,
    ;
}

/// A destination that accepts bytes and may fail with an I/O error. A failed
/// write may have let part of its bytes through.
///
/// A sink that is `observed` describes itself through `written`,
/// `refusals` and `last_error`, and its writes are held to that description.
/// The defaults describe a sink that is not observed.
pub trait ByteSink {
    /// Whether the sink describes its content.
    open spec fn observed(&self) -> bool {
        false
    }

    /// The bytes the sink holds.
    open spec fn written(&self) -> Seq<u8> {
        Seq::empty()
    }

    /// How many writes have failed.
    open spec fn refusals(&self) -> nat {
        0
    }

    /// The error of the last failed write.
    open spec fn last_error(&self) -> Option<std::io::Error> {
        None
    }

    /// Appends all of `buf`, retrying partial writes, or reports the error
    /// that stopped it, after which a leading part of `buf` may have got
    /// through.
    fn write_all(&mut self, buf: &[u8]) -> (r: Result<(), std::io::Error>)
        ensures
            final(self).observed() == old(self).observed(),
            old(self).observed() && r is Ok ==> final(self).written() == old(self).written()
                + buf@ && final(self).refusals() == old(self).refusals(),
            old(self).observed() && r is Err ==> prefix_between(
                old(self).written(),
                final(self).written(),
                old(self).written() + buf@,
            ) && final(self).refusals() == old(self).refusals() + 1 && final(self).last_error()
                == Some(r->Err_0),
    ;
}

/// `mid` extends `lo` and is a leading part of `hi`.
pub open spec fn prefix_between(lo: Seq<u8>, mid: Seq<u8>, hi: Seq<u8>) -> bool {
    &&& lo.len() <= mid.len() <= hi.len()
    &&& mid.subrange(0, lo.len() as int) == lo
    &&& hi.subrange(0, mid.len() as int) == mid
}

/// `hi` starts with `lo`.
pub open spec fn extends(lo: Seq<u8>, hi: Seq<u8>) -> bool {
    lo.len() <= hi.len() && hi.subrange(0, lo.len() as int) == lo
}

/// The UTF-8 encoding of a string's characters.
pub open spec fn string_bytes(s: &String) -> Seq<u8> {
    encode_utf8(s@)
}

/// Encoding distributes over concatenation.
pub proof fn lemma_encode_concat(a: Seq<char>, b: Seq<char>)
    ensures
        encode_utf8(a + b) == encode_utf8(a) + encode_utf8(b),
    decreases a.len(),
{
    if a.len() > 0 {
        lemma_encode_concat(a.drop_first(), b);
        assert((a + b).drop_first() =~= a.drop_first() + b);
        assert((a + b)[0] == a[0]);
    } else {
        assert(a + b =~= b);
    }
}

/// Appends `s` to an owned string.
pub fn append_str(target: &mut String, s: &str)
    ensures
        string_bytes(final(target)) == string_bytes(old(target)) + s.spec_bytes(),
{
    target.append(s);
    proof {
        lemma_encode_concat(old(target)@, s@);
    }
}

impl TextSink for String {
    open spec fn observed(&self) -> bool {
        true
    }

    open spec fn written(&self) -> Seq<u8> {
        string_bytes(self)
    }

    fn write_str(&mut self, s: &str) -> (r: Result<(), ()>)
        ensures
            string_bytes(final(self)) == string_bytes(old(self)) + s.spec_bytes(),
            r is Ok,
    {
        append_str(self, s);
        Ok(())
    }
}

impl ByteSink for Vec<u8> {
    open spec fn observed(&self) -> bool {
        true
    }

    open spec fn written(&self) -> Seq<u8> {
        self@
    }

    fn write_all(&mut self, buf: &[u8]) -> (r: Result<(), std::io::Error>)
        ensures
            final(self)@ == old(self)@ + buf@,
            r is Ok,
    {
        let ghost start = self@;
        let mut i: usize = 0;
        while i < buf.len()
            invariant
                i <= buf@.len(),
                self@ == start + buf@.subrange(0, i as int),
            decreases buf@.len() - i,
        {
            self.push(buf[i]);
            i = i + 1;
            assert(buf@.subrange(0, i as int) =~= buf@.subrange(0, i - 1).push(buf@[i - 1]));
        }
        assert(buf@.subrange(0, i as int) =~= buf@);
        Ok(())
    }
}

} // verus!
