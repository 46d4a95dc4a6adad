//! HTML escaping of error text destined for the fallback page.
//!
//! Only `&`, `<` and `>` need escaping for the fallback page's message block;
//! every other byte passes through unchanged.

use vstd::prelude::*;

verus! {

/// `&` rendered as the entity `&amp;`.
pub open spec fn amp_entity() -> Seq<u8> {
    seq![38u8, 97u8, 109u8, 112u8, 59u8]
}

/// `<` rendered as the entity `&lt;`.
pub open spec fn lt_entity() -> Seq<u8> {
    seq![38u8, 108u8, 116u8, 59u8]
}

/// `>` rendered as the entity `&gt;`.
pub open spec fn gt_entity() -> Seq<u8> {
    seq![38u8, 103u8, 116u8, 59u8]
}

/// How a single byte appears in escaped output.
pub open spec fn escape_byte(b: u8) -> Seq<u8> {
    if b == 38 {
        amp_entity()
    } else if b == 60 {
        lt_entity()
    } else if b == 62 {
        gt_entity()
    } else {
        seq![b]
    }
}

/// The escaped form of a whole byte string: the concatenation of the escaped
/// forms of its bytes.
pub open spec fn escape_seq(s: Seq<u8>) -> Seq<u8>
    decreases s.len(),
{
    if s.len() == 0 {
        Seq::empty()
    } else {
        escape_byte(s[0]) + escape_seq(s.drop_first())
    }
}

proof fn lemma_escape_push(s: Seq<u8>, b: u8)
    ensures
        escape_seq(s.push(b)) == escape_seq(s) + escape_byte(b),
    decreases s.len(),
{
    if s.len() == 0 {
        assert(s.push(b).drop_first() =~= Seq::<u8>::empty());
        assert(escape_seq(Seq::<u8>::empty()) =~= Seq::<u8>::empty());
        assert(s.push(b)[0] == b);
        assert(escape_seq(s.push(b)) =~= escape_seq(s) + escape_byte(b));
    } else {
        assert(s.push(b).drop_first() =~= s.drop_first().push(b));
        lemma_escape_push(s.drop_first(), b);
        assert(escape_seq(s.push(b)) =~= escape_seq(s) + escape_byte(b));
    }
}

/// Escapes `&`, `<` and `>` in `s`, leaving every other byte as it is.
pub fn escape_html(s: &Vec<u8>) -> (r: Vec<u8>)
    ensures
        r@ == escape_seq(s@),
{
    let mut out: Vec<u8> = Vec::new();
    let n = s.len();
    let mut i: usize = 0;
    while i < n
        invariant
            n == s@.len(),
            i <= n,
            out@ == escape_seq(s@.take(i as int)),
        decreases n - i,
    {
        let b = s[i];
        if b == 38 {
            out.push(38);
            out.push(97);
            out.push(109);
            out.push(112);
            out.push(59);
        } else if b == 60 {
            out.push(38);
            out.push(108);
            out.push(116);
            out.push(59);
        } else if b == 62 {
            out.push(38);
            out.push(103);
            out.push(116);
            out.push(59);
        } else {
            out.push(b);
        }
        proof {
            assert(s@.take(i + 1) =~= s@.take(i as int).push(s@[i as int]));
            lemma_escape_push(s@.take(i as int), s@[i as int]);
            assert(out@ =~= escape_seq(s@.take(i as int)) + escape_byte(s@[i as int]));
        }
        i = i + 1;
    }
    proof {
        assert(s@.take(n as int) =~= s@);
    }
    out
}

/// Escaped output never contains a raw `<` or `>`, and every `&` in it starts
/// one of the three entities `&amp;`, `&lt;`, `&gt;`.
pub proof fn lemma_escape_no_raw(s: Seq<u8>)
    ensures
        forall|i: int| 0 <= i < escape_seq(s).len() ==> escape_seq(s)[i] != 60,
        forall|i: int| 0 <= i < escape_seq(s).len() ==> escape_seq(s)[i] != 62,
        forall|i: int|
            0 <= i < escape_seq(s).len() && escape_seq(s)[i] == 38 ==> ((i + 5
                <= escape_seq(s).len() && escape_seq(s).subrange(i, i + 5) =~= amp_entity()) || (i
                + 4 <= escape_seq(s).len() && escape_seq(s).subrange(i, i + 4) =~= lt_entity()) || (
            i + 4 <= escape_seq(s).len() && escape_seq(s).subrange(i, i + 4) =~= gt_entity())),
    decreases s.len(),
{
    if s.len() == 0 {
    } else {
        let head = escape_byte(s[0]);
        let tail = escape_seq(s.drop_first());
        let whole = escape_seq(s);
        lemma_escape_no_raw(s.drop_first());
        assert(whole == head + tail);
        assert forall|i: int| 0 <= i < whole.len() implies whole[i] != 60 && whole[i] != 62 by {
            if i < head.len() {
            } else {
                assert(whole[i] == tail[i - head.len()]);
            }
        }
        assert forall|i: int| 0 <= i < whole.len() && whole[i] == 38 implies ((i + 5 <= whole.len()
            && whole.subrange(i, i + 5) =~= amp_entity()) || (i + 4 <= whole.len()
            && whole.subrange(i, i + 4) =~= lt_entity()) || (i + 4 <= whole.len() && whole.subrange(
            i,
            i + 4,
        ) =~= gt_entity())) by {
            if i < head.len() {
                // Within the head an `&` only occurs at the start of an
                // entity, and the whole entity lies inside the head.
                if s[0] == 38 {
                    assert(i == 0);
                    assert(whole.subrange(0, 5) =~= amp_entity());
                } else if s[0] == 60 {
                    assert(i == 0);
                    assert(whole.subrange(0, 4) =~= lt_entity());
                } else if s[0] == 62 {
                    assert(i == 0);
                    assert(whole.subrange(0, 4) =~= gt_entity());
                } else {
                    assert(head[i] == s[0] && s[0] != 38);
                }
            } else {
                let j = i - head.len();
                assert(tail[j] == 38);
                if j + 5 <= tail.len() && tail.subrange(j, j + 5) =~= amp_entity() {
                    assert(whole.subrange(i, i + 5) =~= tail.subrange(j, j + 5));
                } else if j + 4 <= tail.len() && tail.subrange(j, j + 4) =~= lt_entity() {
                    assert(whole.subrange(i, i + 4) =~= tail.subrange(j, j + 4));
                } else {
                    assert(j + 4 <= tail.len() && tail.subrange(j, j + 4) =~= gt_entity());
                    assert(whole.subrange(i, i + 4) =~= tail.subrange(j, j + 4));
                }
            }
        }
    }
}

/// Escaping decomposes around any single byte of the input: byte `i` of the
/// input appears, escaped, between the escaped prefix and the escaped suffix.
/// In particular every `&`, `<` and `>` of the input shows up in the output in
/// its escaped form.
pub proof fn lemma_escape_decomposes(s: Seq<u8>, i: int)
    requires
        0 <= i < s.len(),
    ensures
        escape_seq(s) == escape_seq(s.take(i)) + escape_byte(s[i]) + escape_seq(s.skip(i + 1)),
    decreases i,
{
    if i == 0 {
        assert(s.take(0) =~= Seq::<u8>::empty());
        assert(s.skip(1) =~= s.drop_first());
        assert(escape_seq(s) =~= escape_seq(s.take(0)) + escape_byte(s[0]) + escape_seq(s.skip(1)));
    } else {
        lemma_escape_decomposes(s.drop_first(), i - 1);
        assert(s.drop_first().take(i - 1) =~= s.take(i).drop_first());
        assert(s.drop_first().skip(i) =~= s.skip(i + 1));
        assert(s.drop_first()[i - 1] == s[i]);
        assert(escape_seq(s) == escape_byte(s[0]) + escape_seq(s.drop_first()));
        assert(escape_seq(s.take(i)) == escape_byte(s.take(i)[0]) + escape_seq(
            s.take(i).drop_first(),
        ));
        assert(s.take(i)[0] == s[0]);
        assert(escape_seq(s) =~= escape_seq(s.take(i)) + escape_byte(s[i]) + escape_seq(
            s.skip(i + 1),
        ));
    }
}

} // verus!
