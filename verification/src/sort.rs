//! Stable sorting by a string key in `str` order (insertion sort), with its
//! mathematical counterpart.
use vstd::prelude::*;
use vstd::utf8::*;

use crate::text::{bytes_lt, lemma_bytes_lt_asymmetric, lemma_bytes_lt_irreflexive, lemma_bytes_lt_total, lemma_bytes_lt_transitive, str_less};
use crate::VoiceInfo;

verus! {

broadcast use vstd::seq_lib::group_seq_properties, vstd::seq_lib::to_multiset_insert;

/// `s` is in non-decreasing order of `key`.
pub open spec fn sorted_by<T>(s: Seq<T>, key: spec_fn(T) -> Seq<u8>) -> bool {
    forall|i: int, j: int| 0 <= i < j < s.len() ==> !bytes_lt(key(s[j]), key(s[i]))
}

/// Where `x` goes in `s`: before the first element whose key is greater than `x`'s.
pub open spec fn insert_pos<T>(s: Seq<T>, x: T, key: spec_fn(T) -> Seq<u8>) -> int
    decreases s.len(),
{
    if s.len() == 0 {
        0
    } else if bytes_lt(key(x), key(s[0])) {
        0
    } else {
        1 + insert_pos(s.drop_first(), x, key)
    }
}

/// `s` with `x` inserted after every element whose key is not greater than `x`'s.
pub open spec fn insert_sorted<T>(s: Seq<T>, x: T, key: spec_fn(T) -> Seq<u8>) -> Seq<T> {
    s.insert(insert_pos(s, x, key), x)
}

/// The stable sort of `s` by `key`.
pub open spec fn sort_by<T>(s: Seq<T>, key: spec_fn(T) -> Seq<u8>) -> Seq<T>
    decreases s.len(),
{
    if s.len() == 0 {
        s
    } else {
        insert_sorted(sort_by(s.drop_last(), key), s.last(), key)
    }
}

/// The key by which names sort: their UTF-8 bytes.
pub open spec fn name_key() -> spec_fn(String) -> Seq<u8> {
    |s: String| encode_utf8(s@)
}

/// The key by which voice descriptions sort: the bytes of their names.
pub open spec fn info_key() -> spec_fn(VoiceInfo) -> Seq<u8> {
    |v: VoiceInfo| encode_utf8(v.name@)
}

/// `p` is the first position whose element sorts after `x`, or the end.
proof fn lemma_insert_pos_at<T>(s: Seq<T>, x: T, key: spec_fn(T) -> Seq<u8>, p: int)
    requires
        0 <= p <= s.len(),
        forall|q: int| 0 <= q < p ==> !bytes_lt(key(x), key(#[trigger] s[q])),
        p < s.len() ==> bytes_lt(key(x), key(s[p])),
    ensures
        insert_pos(s, x, key) == p,
    decreases s.len(),
{
    if s.len() > 0 && p > 0 {
        assert forall|q: int| 0 <= q < p - 1 implies !bytes_lt(
            key(x),
            key(#[trigger] s.drop_first()[q]),
        ) by {
            assert(s.drop_first()[q] == s[q + 1]);
        }
        lemma_insert_pos_at(s.drop_first(), x, key, p - 1);
    }
}

proof fn lemma_insert_pos_bounds<T>(s: Seq<T>, x: T, key: spec_fn(T) -> Seq<u8>)
    ensures
        0 <= insert_pos(s, x, key) <= s.len(),
        forall|q: int| 0 <= q < insert_pos(s, x, key) ==> !bytes_lt(key(x), key(#[trigger] s[q])),
        insert_pos(s, x, key) < s.len() ==> bytes_lt(key(x), key(s[insert_pos(s, x, key)])),
    decreases s.len(),
{
    if s.len() > 0 && !bytes_lt(key(x), key(s[0])) {
        lemma_insert_pos_bounds(s.drop_first(), x, key);
        assert forall|q: int| 0 <= q < insert_pos(s, x, key) implies !bytes_lt(
            key(x),
            key(#[trigger] s[q]),
        ) by {
            if q > 0 {
                assert(s[q] == s.drop_first()[q - 1]);
            }
        }
    }
}

/// Inserting into a sorted sequence keeps it sorted.
pub proof fn lemma_insert_sorted_sorted<T>(s: Seq<T>, x: T, key: spec_fn(T) -> Seq<u8>)
    requires
        sorted_by(s, key),
    ensures
        sorted_by(insert_sorted(s, x, key), key),
        insert_sorted(s, x, key).len() == s.len() + 1,
        insert_sorted(s, x, key).to_multiset() == s.to_multiset().insert(x),
{
    lemma_insert_pos_bounds(s, x, key);
    let p = insert_pos(s, x, key);
    let r = insert_sorted(s, x, key);
    assert forall|i: int, j: int| 0 <= i < j < r.len() implies !bytes_lt(
        key(r[j]),
        key(r[i]),
    ) by {
        if i < p && j == p {
            // r[i] == s[i] does not sort after x
            assert(r[i] == s[i]);
            assert(!bytes_lt(key(x), key(s[i])));
            lemma_bytes_lt_total(key(x), key(s[i]));
            if bytes_lt(key(x), key(s[i])) {
            } else if key(x) =~= key(s[i]) {
                lemma_bytes_lt_irreflexive(key(x));
            }
        } else if i == p && j > p {
            // x sorts before s[p], which does not sort after s[j - 1]
            assert(r[j] == s[j - 1]);
            assert(bytes_lt(key(x), key(s[p])));
            if j - 1 > p {
                assert(!bytes_lt(key(s[j - 1]), key(s[p])));
                lemma_bytes_lt_total(key(s[j - 1]), key(s[p]));
                if bytes_lt(key(s[p]), key(s[j - 1])) {
                    lemma_bytes_lt_transitive(key(x), key(s[p]), key(s[j - 1]));
                }
            }
            lemma_bytes_lt_asymmetric(key(x), key(s[j - 1]));
        } else if i < p && j > p {
            assert(r[i] == s[i]);
            assert(r[j] == s[j - 1]);
        } else if j < p {
            assert(r[i] == s[i]);
            assert(r[j] == s[j]);
        } else {
            assert(r[i] == s[i - 1]);
            assert(r[j] == s[j - 1]);
        }
    }
}

/// The sort is sorted and holds exactly the elements it was given.
pub proof fn lemma_sort_by_sorted<T>(s: Seq<T>, key: spec_fn(T) -> Seq<u8>)
    ensures
        sorted_by(sort_by(s, key), key),
        sort_by(s, key).len() == s.len(),
        sort_by(s, key).to_multiset() == s.to_multiset(),
    decreases s.len(),
{
    if s.len() > 0 {
        lemma_sort_by_sorted(s.drop_last(), key);
        lemma_insert_sorted_sorted(sort_by(s.drop_last(), key), s.last(), key);
        assert(s =~= s.drop_last().push(s.last()));
        vstd::seq_lib::to_multiset_build(s.drop_last(), s.last());
    }
}

proof fn lemma_sort_step<T>(s: Seq<T>, i: int, key: spec_fn(T) -> Seq<u8>)
    requires
        0 <= i < s.len(),
    ensures
        sort_by(s.take(i + 1), key) == insert_sorted(sort_by(s.take(i), key), s[i], key),
{
    assert(s.take(i + 1).drop_last() =~= s.take(i));
}

/// Names in `str` order; names that compare equal keep their order.
pub fn sort_names(names: &Vec<String>) -> (res: Vec<String>)
    ensures
        res@ == sort_by(names@, name_key()),
{
    let mut out: Vec<String> = Vec::new();
    let mut i: usize = 0;
    assert(names@.take(0) =~= Seq::<String>::empty());
    while i < names.len()
        invariant
            i <= names.len(),
            out@ == sort_by(names@.take(i as int), name_key()),
        decreases names.len() - i,
    {
        let x = names[i].clone();
        let mut p: usize = 0;
        while p < out.len() && !str_less(x.as_str(), out[p].as_str())
            invariant
                p <= out.len(),
                x == names@[i as int],
                forall|q: int| 0 <= q < p ==> !bytes_lt((name_key())(x), (name_key())(#[trigger] out@[q])),
            decreases out.len() - p,
        {
            p = p + 1;
        }
        proof {
            lemma_insert_pos_at(out@, x, name_key(), p as int);
            lemma_sort_step(names@, i as int, name_key());
        }
        out.insert(p, x);
        i = i + 1;
    }
    assert(names@.take(names.len() as int) =~= names@);
    out
}

/// Voice descriptions in `str` order of their names; equal names keep their order.
pub fn sort_voice_infos(infos: Vec<VoiceInfo>) -> (res: Vec<VoiceInfo>)
    ensures
        res@ == sort_by(infos@, info_key()),
{
    let mut out: Vec<VoiceInfo> = Vec::new();
    let mut rest = infos;
    let ghost all = rest@;
    let n = rest.len();
    let mut i: usize = 0;
    assert(all.take(0) =~= Seq::<VoiceInfo>::empty());
    while rest.len() > 0
        invariant
            all.len() == n,
            i + rest@.len() == all.len(),
            rest@ == all.skip(i as int),
            out@ == sort_by(all.take(i as int), info_key()),
        decreases rest@.len(),
    {
        let x = rest.remove(0);
        proof {
            assert(x == all[i as int]);
            assert(rest@ =~= all.skip(i + 1));
        }
        let mut p: usize = 0;
        while p < out.len() && !str_less(x.name.as_str(), out[p].name.as_str())
            invariant
                p <= out.len(),
                forall|q: int| 0 <= q < p ==> !bytes_lt((info_key())(x), (info_key())(#[trigger] out@[q])),
            decreases out.len() - p,
        {
            p = p + 1;
        }
        proof {
            lemma_insert_pos_at(out@, x, info_key(), p as int);
            lemma_sort_step(all, i as int, info_key());
        }
        out.insert(p, x);
        i = i + 1;
    }
    assert(all.take(all.len() as int) =~= all);
    out
}

} // verus!
