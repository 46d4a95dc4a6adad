//! Stack trace recovery: rewriting generated-bundle locations in raw worker
//! error text back to original source locations.
//!
//! The bundle's recorded source mapping is modeled as a list of rewrite
//! entries, each taking one generated `file:line:column` reference (as the
//! worker prints it) to the original source reference. Recovery replaces
//! every occurrence of each generated reference; text with no matching entry
//! comes back unchanged, so diagnostic delivery itself can never fail.

use vstd::prelude::*;

verus! {

/// One entry of a bundle's source mapping: a generated location reference
/// and the original source reference it stands for.
pub struct TraceMapping {
    pub generated: Vec<u8>,
    pub original: Vec<u8>,
}

impl TraceMapping {
    /// A usable entry: an empty generated reference matches nothing and is
    /// treated as malformed.
    pub open spec fn wf(&self) -> bool {
        self.generated@.len() > 0
    }
}

/// Whether `pat` occurs in `s` at position `i`.
pub open spec fn occurs_at(s: Seq<u8>, pat: Seq<u8>, i: int) -> bool {
    0 <= i && i + pat.len() <= s.len() && s.subrange(i, i + pat.len() as int) == pat
}

/// Whether `pat` occurs anywhere in `s`.
pub open spec fn occurs(s: Seq<u8>, pat: Seq<u8>) -> bool {
    exists|i: int| occurs_at(s, pat, i)
}

/// `s` with every occurrence of `pat` replaced by `sub`, scanning left to
/// right without re-examining replaced text.
pub open spec fn replace_seq(s: Seq<u8>, pat: Seq<u8>, sub: Seq<u8>) -> Seq<u8>
    recommends
        pat.len() > 0,
    decreases s.len(),
{
    if pat.len() == 0 || s.len() < pat.len() {
        s
    } else if s.subrange(0, pat.len() as int) == pat {
        sub + replace_seq(s.skip(pat.len() as int), pat, sub)
    } else {
        seq![s[0]] + replace_seq(s.skip(1), pat, sub)
    }
}

/// The trace text after applying every mapping entry in order.
pub open spec fn trace_seq(s: Seq<u8>, maps: Seq<TraceMapping>) -> Seq<u8>
    decreases maps.len(),
{
    if maps.len() == 0 {
        s
    } else {
        trace_seq(replace_seq(s, maps[0].generated@, maps[0].original@), maps.drop_first())
    }
}

/// If `pat` occurs nowhere in `s`, replacement leaves `s` unchanged.
pub proof fn lemma_replace_absent(s: Seq<u8>, pat: Seq<u8>, sub: Seq<u8>)
    requires
        !occurs(s, pat),
    ensures
        replace_seq(s, pat, sub) == s,
    decreases s.len(),
{
    if pat.len() == 0 || s.len() < pat.len() {
    } else {
        assert(!occurs_at(s, pat, 0));
        assert(s.subrange(0, pat.len() as int) != pat);
        assert forall|i: int| !occurs_at(s.skip(1), pat, i) by {
            if occurs_at(s.skip(1), pat, i) {
                assert(s.skip(1).subrange(i, i + pat.len() as int) =~= s.subrange(
                    i + 1,
                    i + 1 + pat.len() as int,
                ));
                assert(occurs_at(s, pat, i + 1));
            }
        }
        lemma_replace_absent(s.skip(1), pat, sub);
        assert(seq![s[0]] + s.skip(1) =~= s);
    }
}

/// Stack trace recovery never fails and, given a trace whose text matches no
/// mapping entry, returns the text unchanged.
pub proof fn lemma_trace_no_match(s: Seq<u8>, maps: Seq<TraceMapping>)
    requires
        forall|k: int| 0 <= k < maps.len() ==> !occurs(s, #[trigger] maps[k].generated@),
    ensures
        trace_seq(s, maps) == s,
    decreases maps.len(),
{
    if maps.len() == 0 {
    } else {
        lemma_replace_absent(s, maps[0].generated@, maps[0].original@);
        assert forall|k: int| 0 <= k < maps.drop_first().len() implies !occurs(
            s,
            #[trigger] maps.drop_first()[k].generated@,
        ) by {
            assert(maps.drop_first()[k] == maps[k + 1]);
        }
        lemma_trace_no_match(s, maps.drop_first());
    }
}

/// Whether the first `pat.len()` bytes at `i` equal `pat`.
fn match_at(s: &Vec<u8>, pat: &Vec<u8>, i: usize) -> (r: bool)
    requires
        i + pat@.len() <= s@.len(),
    ensures
        r == (s@.subrange(i as int, i as int + pat@.len() as int) == pat@),
{
    let n = pat.len();
    let slen = s.len();
    let mut j: usize = 0;
    while j < n
        invariant
            n == pat@.len(),
            slen == s@.len(),
            i + n <= slen,
            j <= n,
            forall|k: int| 0 <= k < j ==> s@[i + k] == pat@[k],
        decreases n - j,
    {
        if s[i + j] != pat[j] {
            proof {
                assert(s@.subrange(i as int, i as int + n as int)[j as int] != pat@[j as int]);
            }
            return false;
        }
        j = j + 1;
    }
    proof {
        assert(s@.subrange(i as int, i as int + n as int) =~= pat@);
    }
    true
}

/// Replaces every occurrence of `pat` in `s` by `sub`, left to right.
pub fn replace_all(s: &Vec<u8>, pat: &Vec<u8>, sub: &Vec<u8>) -> (r: Vec<u8>)
    requires
        pat@.len() > 0,
    ensures
        r@ == replace_seq(s@, pat@, sub@),
{
    let mut out: Vec<u8> = Vec::new();
    let n = s.len();
    let m = pat.len();
    proof {
        assert(s@.skip(0) =~= s@);
        assert(Seq::<u8>::empty() + replace_seq(s@, pat@, sub@) =~= replace_seq(s@, pat@, sub@));
    }
    let mut i: usize = 0;
    while i < n
        invariant
            n == s@.len(),
            m == pat@.len(),
            m > 0,
            i <= n,
            out@ + replace_seq(s@.skip(i as int), pat@, sub@) == replace_seq(s@, pat@, sub@),
        decreases n - i,
    {
        let ghost rest = s@.skip(i as int);
        if m <= n - i && match_at(s, pat, i) {
            proof {
                assert(rest.subrange(0, m as int) =~= s@.subrange(i as int, i as int + m as int));
                assert(rest.skip(m as int) =~= s@.skip(i as int + m as int));
                assert(replace_seq(rest, pat@, sub@) == sub@ + replace_seq(
                    s@.skip(i as int + m as int),
                    pat@,
                    sub@,
                ));
            }
            crate::text::push_all(&mut out, sub);
            i = i + m;
        } else {
            proof {
                if m <= n - i {
                    assert(rest.subrange(0, m as int) =~= s@.subrange(
                        i as int,
                        i as int + m as int,
                    ));
                }
                assert(rest.skip(1) =~= s@.skip(i as int + 1));
                assert(replace_seq(rest, pat@, sub@) == seq![rest[0]] + replace_seq(
                    s@.skip(i as int + 1),
                    pat@,
                    sub@,
                ));
                assert(rest[0] == s@[i as int]);
            }
            out.push(s[i]);
            i = i + 1;
        }
        proof {
            assert(out@ + replace_seq(s@.skip(i as int), pat@, sub@) =~= replace_seq(
                s@,
                pat@,
                sub@,
            ));
        }
    }
    proof {
        assert(s@.skip(n as int) =~= Seq::<u8>::empty());
        assert(replace_seq(Seq::<u8>::empty(), pat@, sub@) =~= Seq::<u8>::empty());
        assert(out@ =~= replace_seq(s@, pat@, sub@));
    }
    out
}

/// Rewrites every generated location reference that the source mapping knows
/// about to its original source reference; malformed entries match nothing,
/// and text that no entry matches comes back unchanged. Recovery itself never
/// fails: in the worst case the raw text is returned as it came.
pub fn trace_stack(raw: &Vec<u8>, maps: &Vec<TraceMapping>) -> (r: Vec<u8>)
    ensures
        r@ == trace_seq(raw@, maps@),
{
    let mut text: Vec<u8> = Vec::new();
    crate::text::push_all(&mut text, raw);
    let n = maps.len();
    proof {
        assert(text@ =~= raw@);
        assert(maps@.skip(0) =~= maps@);
    }
    let mut k: usize = 0;
    while k < n
        invariant
            n == maps@.len(),
            k <= n,
            trace_seq(text@, maps@.skip(k as int)) == trace_seq(raw@, maps@),
        decreases n - k,
    {
        let ghost before = text@;
        if maps[k].generated.len() > 0 {
            text = replace_all(&text, &maps[k].generated, &maps[k].original);
        } else {
            proof {
                // An empty generated reference replaces nothing.
                assert(replace_seq(before, maps@[k as int].generated@, maps@[k as int].original@)
                    == before);
            }
        }
        proof {
            let tail = maps@.skip(k as int);
            assert(tail[0] == maps@[k as int]);
            assert(tail.drop_first() =~= maps@.skip(k as int + 1));
            assert(trace_seq(before, tail) == trace_seq(text@, maps@.skip(k as int + 1)));
        }
        k = k + 1;
    }
    proof {
        assert(maps@.skip(n as int) =~= Seq::<TraceMapping>::empty());
    }
    text
}

} // verus!
