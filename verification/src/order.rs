//! Byte-wise lexicographic ordering of paths, a verified sort, and the
//! uniqueness of sorted sequences — the ground for reproducible source
//! enumeration.

use vstd::prelude::*;
use vstd::relations::{sorted_by, total_ordering};
use vstd::seq_lib::group_to_multiset_ensures;
use vstd::seq_lib::lemma_multiset_commutative;
use vstd::multiset::group_multiset_axioms;
use vstd::string::*;
use vstd::utf8::encode_utf8;

verus! {

/// Byte-wise lexicographic "less than or equal" on byte sequences; the order
/// in which every machine and filesystem must agree.
pub open spec fn lex_leq(a: Seq<u8>, b: Seq<u8>) -> bool
    decreases a.len(),
{
    if a.len() == 0 {
        true
    } else if b.len() == 0 {
        false
    } else if a[0] < b[0] {
        true
    } else if a[0] > b[0] {
        false
    } else {
        lex_leq(a.drop_first(), b.drop_first())
    }
}

/// The same order as a binary relation value.
pub open spec fn lex_rel() -> spec_fn(Seq<u8>, Seq<u8>) -> bool {
    |x: Seq<u8>, y: Seq<u8>| lex_leq(x, y)
}

/// The UTF-8 bytes of each string in a sequence.
pub open spec fn views_bytes(s: Seq<String>) -> Seq<Seq<u8>> {
    s.map_values(|x: String| encode_utf8(x@))
}

proof fn lemma_lex_refl(a: Seq<u8>)
    ensures
        lex_leq(a, a),
    decreases a.len(),
{
    if a.len() != 0 {
        lemma_lex_refl(a.drop_first());
    }
}

proof fn lemma_lex_antisym(a: Seq<u8>, b: Seq<u8>)
    requires
        lex_leq(a, b),
        lex_leq(b, a),
    ensures
        a == b,
    decreases a.len(),
{
    if a.len() == 0 {
        assert(b.len() == 0);
        assert(a =~= b);
    } else {
        assert(b.len() != 0);
        assert(a[0] == b[0]);
        lemma_lex_antisym(a.drop_first(), b.drop_first());
        assert(a =~= b) by {
            assert(forall|i: int|
                1 <= i < a.len() ==> a[i] == a.drop_first()[i - 1] && b[i] == b.drop_first()[i
                    - 1]);
        }
    }
}

proof fn lemma_lex_trans(a: Seq<u8>, b: Seq<u8>, c: Seq<u8>)
    requires
        lex_leq(a, b),
        lex_leq(b, c),
    ensures
        lex_leq(a, c),
    decreases a.len(),
{
    if a.len() != 0 {
        assert(b.len() != 0);
        assert(c.len() != 0);
        if a[0] == b[0] && b[0] == c[0] {
            lemma_lex_trans(a.drop_first(), b.drop_first(), c.drop_first());
        }
    }
}

proof fn lemma_lex_connected(a: Seq<u8>, b: Seq<u8>)
    ensures
        lex_leq(a, b) || lex_leq(b, a),
    decreases a.len(),
{
    if a.len() != 0 && b.len() != 0 && a[0] == b[0] {
        lemma_lex_connected(a.drop_first(), b.drop_first());
    }
}

/// The byte-wise lexicographic order is a total order.
pub proof fn lemma_lex_total_ordering()
    ensures
        total_ordering(lex_rel()),
{
    let r = lex_rel();
    assert forall|x: Seq<u8>| #[trigger] r(x, x) by {
        lemma_lex_refl(x);
    }
    assert forall|x: Seq<u8>, y: Seq<u8>| #[trigger] r(x, y) && #[trigger] r(y, x) implies x
        == y by {
        lemma_lex_antisym(x, y);
    }
    assert forall|x: Seq<u8>, y: Seq<u8>, z: Seq<u8>|
        #[trigger] r(x, y) && #[trigger] r(y, z) implies r(x, z) by {
        lemma_lex_trans(x, y, z);
    }
    assert forall|x: Seq<u8>, y: Seq<u8>| #[trigger] r(x, y) || #[trigger] r(y, x) by {
        lemma_lex_connected(x, y);
    }
}

/// Two sequences that are sorted by one total order and hold the same
/// multiset of elements are the same sequence: sortedness leaves no freedom
/// in the order of the result.
pub proof fn lemma_sorted_unique<T>(a: Seq<T>, b: Seq<T>, leq: spec_fn(T, T) -> bool)
    requires
        sorted_by(a, leq),
        sorted_by(b, leq),
        total_ordering(leq),
        a.to_multiset() == b.to_multiset(),
    ensures
        a == b,
    decreases a.len(),
{
    broadcast use group_to_multiset_ensures;

    assert(a.len() == a.to_multiset().len());
    assert(b.len() == b.to_multiset().len());
    if a.len() == 0 {
        assert(b.len() == 0);
        assert(a =~= b);
    } else {
        assert(b.len() == a.len());
        assert(b.contains(b[0]));
        assert(a.to_multiset().count(b[0]) > 0);
        assert(a.contains(b[0]));
        let j = choose|j: int| 0 <= j < a.len() && a[j] == b[0];
        if j == 0 {
            assert(leq(a[0], b[0]));
        } else {
            assert(leq(a[0], a[j]));
        }
        assert(a.contains(a[0]));
        assert(b.to_multiset().count(a[0]) > 0);
        assert(b.contains(a[0]));
        let j2 = choose|j2: int| 0 <= j2 < b.len() && b[j2] == a[0];
        if j2 == 0 {
            assert(leq(b[0], a[0]));
        } else {
            assert(leq(b[0], b[j2]));
        }
        assert(a[0] == b[0]);
        assert(a.drop_first() =~= a.remove(0));
        assert(b.drop_first() =~= b.remove(0));
        assert(a.drop_first().to_multiset() == b.drop_first().to_multiset());
        assert(sorted_by(a.drop_first(), leq)) by {
            assert(forall|i: int|
                0 <= i < a.drop_first().len() ==> a.drop_first()[i] == a[i + 1]);
        }
        assert(sorted_by(b.drop_first(), leq)) by {
            assert(forall|i: int|
                0 <= i < b.drop_first().len() ==> b.drop_first()[i] == b[i + 1]);
        }
        lemma_sorted_unique(a.drop_first(), b.drop_first(), leq);
        assert(a =~= b) by {
            assert(forall|i: int|
                1 <= i < a.len() ==> a[i] == a.drop_first()[i - 1] && b[i] == b.drop_first()[i
                    - 1]);
        }
    }
}

/// Removing one element from a sequence and pushing it onto another leaves
/// the combined multiset unchanged.
pub proof fn lemma_move_element<T>(mo: Seq<T>, mr: Seq<T>, i: int)
    requires
        0 <= i < mr.len(),
    ensures
        (mo.push(mr[i]) + mr.remove(i)).to_multiset() == (mo + mr).to_multiset(),
{
    broadcast use group_to_multiset_ensures;
    broadcast use group_multiset_axioms;

    let x = mr[i];
    lemma_multiset_commutative(mo.push(x), mr.remove(i));
    lemma_multiset_commutative(mo, mr);
    assert(mr.contains(x));
    assert(mr.to_multiset().count(x) > 0);
    assert(mo.push(x).to_multiset() =~= mo.to_multiset().insert(x));
    assert(mr.remove(i).to_multiset() =~= mr.to_multiset().remove(x));
    assert(mo.to_multiset().insert(x).add(mr.to_multiset().remove(x)) =~= mo.to_multiset().add(
        mr.to_multiset(),
    ));
}

/// Byte-wise comparison of two string slices under the lexicographic order.
pub fn str_byte_leq(a: &str, b: &str) -> (r: bool)
    ensures
        r == lex_leq(encode_utf8(a@), encode_utf8(b@)),
{
    let av = a.as_bytes_vec();
    let bv = b.as_bytes_vec();
    let ghost abytes: Seq<u8> = av@;
    let ghost bbytes: Seq<u8> = bv@;
    proof {
        assert(abytes.skip(0) =~= abytes);
        assert(bbytes.skip(0) =~= bbytes);
    }
    let mut i: usize = 0;
    loop
        invariant
            abytes == av@,
            bbytes == bv@,
            abytes == encode_utf8(a@),
            bbytes == encode_utf8(b@),
            i <= abytes.len(),
            i <= bbytes.len(),
            lex_leq(abytes, bbytes) == lex_leq(abytes.skip(i as int), bbytes.skip(i as int)),
        decreases abytes.len() - i,
    {
        proof {
            assert(abytes.skip(i as int).len() == abytes.len() - i);
            assert(bbytes.skip(i as int).len() == bbytes.len() - i);
        }
        if i == av.len() {
            proof {
                assert(lex_leq(abytes.skip(i as int), bbytes.skip(i as int)));
            }
            return true;
        }
        if i == bv.len() {
            proof {
                assert(!lex_leq(abytes.skip(i as int), bbytes.skip(i as int)));
            }
            return false;
        }
        let ca = av[i];
        let cb = bv[i];
        proof {
            assert(abytes.skip(i as int)[0] == abytes[i as int]);
            assert(bbytes.skip(i as int)[0] == bbytes[i as int]);
        }
        if ca < cb {
            proof {
                assert(lex_leq(abytes.skip(i as int), bbytes.skip(i as int)));
            }
            return true;
        }
        if ca > cb {
            proof {
                assert(!lex_leq(abytes.skip(i as int), bbytes.skip(i as int)));
            }
            return false;
        }
        proof {
            assert(abytes.skip(i as int).drop_first() =~= abytes.skip(i + 1));
            assert(bbytes.skip(i as int).drop_first() =~= bbytes.skip(i + 1));
            assert(lex_leq(abytes.skip(i as int), bbytes.skip(i as int)) == lex_leq(
                abytes.skip(i + 1),
                bbytes.skip(i + 1),
            ));
        }
        i += 1;
    }
}

/// Sorts strings by the byte-wise lexicographic order of their UTF-8 views.
/// The result holds the same multiset of byte views, in sorted order.
pub fn sort_strings(v: Vec<String>) -> (r: Vec<String>)
    ensures
        sorted_by(views_bytes(r@), lex_rel()),
        views_bytes(r@).to_multiset() == views_bytes(v@).to_multiset(),
{
    let mut rest = v;
    let mut out: Vec<String> = Vec::new();
    let ghost all: Seq<Seq<u8>> = views_bytes(rest@);
    proof {
        assert(views_bytes(out@) =~= Seq::<Seq<u8>>::empty());
        assert(views_bytes(out@) + views_bytes(rest@) =~= views_bytes(rest@));
    }
    while rest.len() > 0
        invariant
            sorted_by(views_bytes(out@), lex_rel()),
            (views_bytes(out@) + views_bytes(rest@)).to_multiset() == all.to_multiset(),
            forall|p: int, q: int|
                0 <= p < out@.len() && 0 <= q < rest@.len() ==> #[trigger] lex_rel()(
                    views_bytes(out@)[p],
                    views_bytes(rest@)[q],
                ),
        decreases rest.len(),
    {
        // Find a least remaining element.
        let mut min: usize = 0;
        let mut k: usize = 1;
        proof {
            lemma_lex_refl(encode_utf8(rest@[0]@));
            assert(views_bytes(rest@)[0] == encode_utf8(rest@[0]@));
        }
        while k < rest.len()
            invariant
                rest@.len() > 0,
                min < rest@.len(),
                k <= rest@.len(),
                forall|q: int|
                    0 <= q < k ==> #[trigger] lex_rel()(
                        views_bytes(rest@)[min as int],
                        views_bytes(rest@)[q],
                    ),
            decreases rest@.len() - k,
    {
            let keep = str_byte_leq(rest[min].as_str(), rest[k].as_str());
            proof {
                assert(views_bytes(rest@)[min as int] == encode_utf8(rest@[min as int]@));
                assert(views_bytes(rest@)[k as int] == encode_utf8(rest@[k as int]@));
            }
            if !keep {
                proof {
                    lemma_lex_connected(
                        encode_utf8(rest@[min as int]@),
                        encode_utf8(rest@[k as int]@),
                    );
                    assert forall|q: int| 0 <= q < k + 1 implies #[trigger] lex_rel()(
                        views_bytes(rest@)[k as int],
                        views_bytes(rest@)[q],
                    ) by {
                        assert(views_bytes(rest@)[q] == encode_utf8(rest@[q]@));
                        if q < k {
                            assert(lex_rel()(
                                views_bytes(rest@)[min as int],
                                views_bytes(rest@)[q],
                            ));
                            lemma_lex_trans(
                                encode_utf8(rest@[k as int]@),
                                encode_utf8(rest@[min as int]@),
                                encode_utf8(rest@[q]@),
                            );
                        } else {
                            lemma_lex_refl(encode_utf8(rest@[k as int]@));
                        }
                    }
                }
                min = k;
            } else {
                proof {
                    assert(lex_rel()(views_bytes(rest@)[min as int], views_bytes(
                        rest@,
                    )[k as int]));
                }
            }
            k += 1;
        }
        let ghost old_out = out@;
        let ghost old_rest = rest@;
        let x = rest.remove(min);
        out.push(x);
        proof {
            let f = |s: String| encode_utf8(s@);
            let m_out = old_out.map_values(f);
            let m_rest = old_rest.map_values(f);
            assert(m_rest[min as int] == encode_utf8(x@));
            // Views distribute over remove and push.
            assert(views_bytes(rest@) =~= m_rest.remove(min as int));
            assert(views_bytes(out@) =~= m_out.push(encode_utf8(x@)));
            // Multiset bookkeeping.
            lemma_move_element(m_out, m_rest, min as int);
            assert((views_bytes(out@) + views_bytes(rest@)).to_multiset() == (m_out
                + m_rest).to_multiset());
            // The pushed element keeps the output sorted.
            assert forall|p: int, q: int|
                0 <= p < q < views_bytes(out@).len() implies #[trigger] lex_rel()(
                views_bytes(out@)[p],
                views_bytes(out@)[q],
            ) by {
                if q < views_bytes(out@).len() - 1 {
                    assert(lex_rel()(m_out[p], m_out[q]));
                } else {
                    assert(lex_rel()(m_out[p], m_rest[min as int]));
                }
            }
            // Everything still waiting is at or above the pushed element.
            assert forall|p: int, q: int|
                0 <= p < out@.len() && 0 <= q < rest@.len() implies #[trigger] lex_rel()(
                views_bytes(out@)[p],
                views_bytes(rest@)[q],
            ) by {
                let qq = if q < min { q } else { q + 1 };
                assert(views_bytes(rest@)[q] == m_rest[qq]);
                if p < out@.len() - 1 {
                    assert(lex_rel()(m_out[p], m_rest[qq]));
                } else {
                    assert(lex_rel()(m_rest[min as int], m_rest[qq]));
                }
            }
        }
    }
    proof {
        assert(views_bytes(out@) + views_bytes(rest@) =~= views_bytes(out@));
    }
    out
}

} // verus!
