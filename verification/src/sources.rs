//! Deterministic source enumeration: directory entries are filtered by
//! extension and sorted into the one order every machine agrees on, so that
//! the set of compiled translation units is reproducible.

use vstd::prelude::*;
use vstd::relations::sorted_by;
use vstd::string::*;
use vstd::utf8::encode_utf8;
use crate::order::{lex_rel, lemma_lex_total_ordering, lemma_sorted_unique, sort_strings,
    views_bytes};

verus! {

/// The byte for `.`, the separator before a file extension.
pub open spec fn dot() -> u8 {
    46u8
}

/// The file name `name` carries extension `ext`: its last `.` is directly
/// before a suffix equal to `ext`, with a nonempty stem before it. An `ext`
/// that itself holds a `.` matches no name.
pub open spec fn ext_matches(name: Seq<u8>, ext: Seq<u8>) -> bool {
    &&& !ext.contains(dot())
    &&& name.len() >= ext.len() + 2
    &&& name[name.len() - ext.len() - 1] == dot()
    &&& name.subrange(name.len() - ext.len(), name.len() as int) == ext
}

/// The entries that carry the extension, in their given order.
pub open spec fn kept(names: Seq<Seq<u8>>, ext: Seq<u8>) -> Seq<Seq<u8>> {
    names.filter(|n: Seq<u8>| ext_matches(n, ext))
}

/// Does this directory entry carry the extension?
pub fn has_extension(name: &str, ext: &str) -> (r: bool)
    ensures
        r == ext_matches(encode_utf8(name@), encode_utf8(ext@)),
{
    let nb = name.as_bytes_vec();
    let eb = ext.as_bytes_vec();
    let nlen = nb.len();
    let elen = eb.len();
    let ghost ns: Seq<u8> = nb@;
    let ghost es: Seq<u8> = eb@;
    let mut i: usize = 0;
    while i < elen
        invariant
            ns == nb@,
            es == eb@,
            ns == encode_utf8(name@),
            es == encode_utf8(ext@),
            nlen == ns.len(),
            elen == es.len(),
            i <= elen,
            forall|j: int| 0 <= j < i ==> es[j] != dot(),
        decreases elen - i,
    {
        if eb[i] == 46 {
            proof {
                assert(es[i as int] == dot());
                assert(es.contains(dot()));
            }
            return false;
        }
        i += 1;
    }
    proof {
        assert(!es.contains(dot()));
    }
    if nlen < 2 || nlen - 2 < elen {
        return false;
    }
    let dot_pos = nlen - elen - 1;
    if nb[dot_pos] != 46 {
        return false;
    }
    let start = nlen - elen;
    let mut j: usize = 0;
    while j < elen
        invariant
            ns == nb@,
            es == eb@,
            ns == encode_utf8(name@),
            es == encode_utf8(ext@),
            nlen == ns.len(),
            elen == es.len(),
            j <= elen,
            elen + 2 <= nlen,
            !es.contains(dot()),
            ns[nlen - elen - 1] == dot(),
            start == nlen - elen,
            forall|m: int| 0 <= m < j ==> ns[start + m] == es[m],
        decreases elen - j,
    {
        if nb[start + j] != eb[j] {
            proof {
                assert(ns.subrange(start as int, ns.len() as int)[j as int] == ns[start + j]);
            }
            return false;
        }
        j += 1;
    }
    proof {
        assert(ns.subrange(start as int, ns.len() as int) =~= es);
    }
    true
}

/// Lists the sources among the given directory entries: those that carry the
/// extension, sorted byte-wise lexicographically. The order of the result is
/// independent of the order in which the filesystem handed the entries out.
pub fn list_sources(entries: Vec<String>, ext: &str) -> (r: Vec<String>)
    ensures
        sorted_by(views_bytes(r@), lex_rel()),
        views_bytes(r@).to_multiset() == kept(views_bytes(entries@), encode_utf8(ext@))
            .to_multiset(),
{
    let ghost all: Seq<Seq<u8>> = views_bytes(entries@);
    let ghost ebytes: Seq<u8> = encode_utf8(ext@);
    let mut keep_vec: Vec<String> = Vec::new();
    proof {
        reveal(Seq::filter);
        assert(all.subrange(0, 0).len() == 0);
        assert(views_bytes(keep_vec@) =~= kept(all.subrange(0, 0), ebytes));
    }
    let mut i: usize = 0;
    while i < entries.len()
        invariant
            all == views_bytes(entries@),
            ebytes == encode_utf8(ext@),
            i <= entries@.len(),
            views_bytes(keep_vec@) == kept(all.subrange(0, i as int), ebytes),
        decreases entries@.len() - i,
    {
        let ghost old_keep = keep_vec@;
        let e = &entries[i];
        let matched = has_extension(e.as_str(), ext);
        if matched {
            keep_vec.push(e.clone());
        }
        proof {
            reveal(Seq::filter);
            let pred = |n: Seq<u8>| ext_matches(n, ebytes);
            assert(all.subrange(0, i + 1).drop_last() =~= all.subrange(0, i as int));
            assert(all.subrange(0, i + 1).last() == all[i as int]);
            assert(all[i as int] == encode_utf8(entries@[i as int]@));
            if matched {
                assert(views_bytes(keep_vec@) =~= views_bytes(old_keep).push(all[i as int]));
            }
            assert(views_bytes(keep_vec@) == kept(all.subrange(0, i + 1), ebytes));
        }
        i += 1;
    }
    proof {
        assert(all.subrange(0, entries@.len() as int) =~= all);
    }
    sort_strings(keep_vec)
}

/// Source enumeration is deterministic: any two listings that meet the
/// contract of `list_sources` — sorted byte-wise, holding the same entries —
/// are the same sequence, whatever order the filesystem produced the
/// entries in on either machine.
pub proof fn lemma_list_sources_deterministic(a: Seq<Seq<u8>>, b: Seq<Seq<u8>>)
    requires
        sorted_by(a, lex_rel()),
        sorted_by(b, lex_rel()),
        a.to_multiset() == b.to_multiset(),
    ensures
        a == b,
{
    lemma_lex_total_ordering();
    lemma_sorted_unique(a, b, lex_rel());
}

} // verus!
