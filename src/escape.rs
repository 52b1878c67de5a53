//! HTML escaping of byte sequences.
use vstd::prelude::*;

verus! {

/// True of the four bytes that must never reach the output raw:
/// `&`, `"`, `<` and `>`.
pub open spec fn is_special(b: u8) -> bool {
    b == 0x26 || b == 0x22 || b == 0x3C || b == 0x3E
}

/// What one input byte becomes in escaped output.
pub open spec fn escape_byte(b: u8) -> Seq<u8> {
    if b == 0x26 {
        // &amp;
        seq![0x26u8, 0x61u8, 0x6Du8, 0x70u8, 0x3Bu8]
    } else if b == 0x22 {
        // &quot;
        seq![0x26u8, 0x71u8, 0x75u8, 0x6Fu8, 0x74u8, 0x3Bu8]
    } else if b == 0x3C {
        // &lt;
        seq![0x26u8, 0x6Cu8, 0x74u8, 0x3Bu8]
    } else if b == 0x3E {
        // &gt;
        seq![0x26u8, 0x67u8, 0x74u8, 0x3Bu8]
    } else {
        seq![b]
    }
}

/// The escaped form of a byte sequence: each byte replaced by `escape_byte`.
pub open spec fn escape_bytes(s: Seq<u8>) -> Seq<u8>
    decreases s.len(),
{
    if s.len() == 0 {
        Seq::empty()
    } else {
        escape_bytes(s.drop_last()) + escape_byte(s.last())
    }
}

/// The test the writers use to pick out the bytes to escape. The four
/// special bytes differ from one another only in the bits `0x2` and `0x4`.
pub fn should_escape(b: u8) -> (r: bool)
    ensures
        r == is_special(b),
{
    proof {
        assert(((b | 0x4u8) == 0x26u8 || (b | 0x2u8) == 0x3Eu8) <==> (b == 0x26u8 || b == 0x22u8
            || b == 0x3Cu8 || b == 0x3Eu8)) by (bit_vector);
    }
    (b | 0x4) == 0x26 || (b | 0x2) == 0x3E
}

/// Escaping distributes over concatenation.
pub proof fn lemma_escape_concat(a: Seq<u8>, b: Seq<u8>)
    ensures
        escape_bytes(a + b) == escape_bytes(a) + escape_bytes(b),
    decreases b.len(),
{
    if b.len() == 0 {
        assert(a + b =~= a);
        assert(escape_bytes(a) + escape_bytes(b) =~= escape_bytes(a));
    } else {
        lemma_escape_concat(a, b.drop_last());
        assert((a + b).drop_last() =~= a + b.drop_last());
        assert(escape_bytes(a) + escape_bytes(b) =~= escape_bytes(a) + escape_bytes(b.drop_last())
            + escape_byte(b.last()));
    }
}

/// A single byte escapes to its own replacement.
pub proof fn lemma_escape_one(b: u8)
    ensures
        escape_bytes(seq![b]) == escape_byte(b),
{
    let one = seq![b];
    assert(one.drop_last() =~= Seq::<u8>::empty());
    assert(escape_bytes(one.drop_last()) == Seq::<u8>::empty());
    assert(Seq::<u8>::empty() + escape_byte(b) =~= escape_byte(b));
}

/// A sequence without special bytes is its own escaped form.
pub proof fn lemma_escape_plain(s: Seq<u8>)
    requires
        forall|i: int| 0 <= i < s.len() ==> !is_special(#[trigger] s[i]),
    ensures
        escape_bytes(s) == s,
    decreases s.len(),
{
    if s.len() > 0 {
        lemma_escape_plain(s.drop_last());
        assert(s.drop_last().push(s.last()) =~= s);
        assert(escape_byte(s.last()) =~= seq![s.last()]);
    }
}

/// `t` holds `e` from position `k` on.
pub open spec fn occurs_at(t: Seq<u8>, k: int, e: Seq<u8>) -> bool {
    0 <= k && k + e.len() <= t.len() && t.subrange(k, k + e.len()) == e
}

/// One of the four entities starts at position `k` of `t`.
pub open spec fn entity_at(t: Seq<u8>, k: int) -> bool {
    ||| occurs_at(t, k, escape_byte(0x26))
    ||| occurs_at(t, k, escape_byte(0x22))
    ||| occurs_at(t, k, escape_byte(0x3C))
    ||| occurs_at(t, k, escape_byte(0x3E))
}

/// `t` holds no raw `"`, `<` or `>`, and every `&` in it starts an entity.
pub open spec fn markup_safe(t: Seq<u8>) -> bool {
    forall|k: int|
        0 <= k < t.len() ==> #[trigger] t[k] != 0x22 && t[k] != 0x3C && t[k] != 0x3E && (t[k]
            == 0x26 ==> entity_at(t, k))
}

/// Escaped output never holds a special byte outside an entity.
pub proof fn lemma_escape_markup_safe(s: Seq<u8>)
    ensures
        markup_safe(escape_bytes(s)),
    decreases s.len(),
{
    if s.len() > 0 {
        let t1 = escape_bytes(s.drop_last());
        let b = s.last();
        let e = escape_byte(b);
        let t = t1 + e;
        lemma_escape_markup_safe(s.drop_last());
        assert(e.len() == 1 || (is_special(b) && e[0] == 0x26));
        assert forall|k: int| 0 <= k < t.len() implies #[trigger] t[k] != 0x22 && t[k] != 0x3C
            && t[k] != 0x3E && (t[k] == 0x26 ==> entity_at(t, k)) by {
            if k < t1.len() {
                assert(t[k] == t1[k]);
                if t1[k] == 0x26 {
                    assert forall|x: Seq<u8>| occurs_at(t1, k, x) implies occurs_at(t, k, x) by {
                        assert(t.subrange(k, k + x.len()) =~= t1.subrange(k, k + x.len()));
                    }
                }
            } else {
                let j = k - t1.len();
                assert(t[k] == e[j]);
                if j == 0 && is_special(b) {
                    assert(t.subrange(k, k + e.len()) =~= e);
                }
            }
        }
    }
}

} // verus!
