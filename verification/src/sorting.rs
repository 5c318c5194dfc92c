//! The order of strings (lexicographic by character, the order `String`
//! compares in) and the sorts built on it.
use vstd::prelude::*;

use crate::config::layering::Named;
use crate::text::{chars_of, strings_view};

verus! {

broadcast use vstd::seq_lib::group_to_multiset_ensures;

/// `a` sorts strictly before `b`.
pub open spec fn seq_lt(a: Seq<char>, b: Seq<char>) -> bool
    decreases a.len(),
{
    if a.len() == 0 {
        b.len() > 0
    } else if b.len() == 0 {
        false
    } else if a[0] != b[0] {
        a[0] < b[0]
    } else {
        seq_lt(a.drop_first(), b.drop_first())
    }
}

pub proof fn lemma_lt_irreflexive(a: Seq<char>)
    ensures
        !seq_lt(a, a),
    decreases a.len(),
{
    if a.len() > 0 {
        lemma_lt_irreflexive(a.drop_first());
    }
}

pub proof fn lemma_lt_total(a: Seq<char>, b: Seq<char>)
    ensures
        a == b || seq_lt(a, b) || seq_lt(b, a),
        !(seq_lt(a, b) && seq_lt(b, a)),
    decreases a.len(),
{
    if a.len() > 0 && b.len() > 0 && a[0] == b[0] {
        lemma_lt_total(a.drop_first(), b.drop_first());
        if a.drop_first() == b.drop_first() {
            assert(a =~= seq![a[0]] + a.drop_first());
            assert(b =~= seq![b[0]] + b.drop_first());
        }
    }
}

pub proof fn lemma_lt_transitive(a: Seq<char>, b: Seq<char>, c: Seq<char>)
    requires
        seq_lt(a, b),
        seq_lt(b, c),
    ensures
        seq_lt(a, c),
    decreases a.len(),
{
    if a.len() > 0 && b.len() > 0 && c.len() > 0 && a[0] == b[0] && b[0] == c[0] {
        lemma_lt_transitive(a.drop_first(), b.drop_first(), c.drop_first());
    }
}

/// Strictly increasing: sorted with no repeats.
pub open spec fn strictly_sorted(v: Seq<Seq<char>>) -> bool {
    forall|i: int, j: int| 0 <= i < j < v.len() ==> seq_lt(#[trigger] v[i], #[trigger] v[j])
}

/// Two strictly increasing lists with the same members are the same list.
pub proof fn lemma_strictly_sorted_unique(a: Seq<Seq<char>>, b: Seq<Seq<char>>)
    requires
        strictly_sorted(a),
        strictly_sorted(b),
        forall|x: Seq<char>| a.contains(x) <==> b.contains(x),
    ensures
        a == b,
    decreases a.len(),
{
    if a.len() == 0 {
        if b.len() > 0 {
            assert(b.contains(b[0]));
        }
        assert(a =~= b);
    } else {
        assert(a.contains(a[0]));
        assert(b.len() > 0);
        assert(b.contains(b[0]));
        let k = choose|k: int| 0 <= k < b.len() && b[k] == a[0];
        let j = choose|j: int| 0 <= j < a.len() && a[j] == b[0];
        if k > 0 {
            assert(seq_lt(b[0], b[k]));
            if j > 0 {
                assert(seq_lt(a[0], a[j]));
                lemma_lt_total(a[0], b[0]);
            } else {
                lemma_lt_irreflexive(a[0]);
            }
        }
        assert(a[0] == b[0]);
        let ta = a.drop_first();
        let tb = b.drop_first();
        assert forall|x: Seq<char>| ta.contains(x) <==> tb.contains(x) by {
            if ta.contains(x) {
                let i = choose|i: int| 0 <= i < ta.len() && ta[i] == x;
                assert(a[i + 1] == x);
                assert(seq_lt(a[0], a[i + 1]));
                lemma_lt_irreflexive(x);
                assert(b.contains(x));
                let m = choose|m: int| 0 <= m < b.len() && b[m] == x;
                assert(m != 0);
                assert(tb[m - 1] == x);
            }
            if tb.contains(x) {
                let i = choose|i: int| 0 <= i < tb.len() && tb[i] == x;
                assert(b[i + 1] == x);
                assert(seq_lt(b[0], b[i + 1]));
                lemma_lt_irreflexive(x);
                assert(a.contains(x));
                let m = choose|m: int| 0 <= m < a.len() && a[m] == x;
                assert(m != 0);
                assert(ta[m - 1] == x);
            }
        }
        assert forall|i: int, j2: int| 0 <= i < j2 < ta.len() implies seq_lt(
            #[trigger] ta[i],
            #[trigger] ta[j2],
        ) by {
            assert(ta[i] == a[i + 1] && ta[j2] == a[j2 + 1]);
        }
        assert forall|i: int, j2: int| 0 <= i < j2 < tb.len() implies seq_lt(
            #[trigger] tb[i],
            #[trigger] tb[j2],
        ) by {
            assert(tb[i] == b[i + 1] && tb[j2] == b[j2 + 1]);
        }
        lemma_strictly_sorted_unique(ta, tb);
        assert(a =~= seq![a[0]] + ta);
        assert(b =~= seq![b[0]] + tb);
    }
}

/// Non-decreasing.
pub open spec fn sorted(v: Seq<Seq<char>>) -> bool {
    forall|i: int, j: int| 0 <= i < j < v.len() ==> !seq_lt(#[trigger] v[j], #[trigger] v[i])
}

/// Whether `a` sorts strictly before `b`.
pub fn less_than(a: &[char], b: &[char]) -> (r: bool)
    ensures
        r == seq_lt(a@, b@),
{
    let n = a.len();
    let m = b.len();
    let mut i: usize = 0;
    assert(a@.skip(0) =~= a@);
    assert(b@.skip(0) =~= b@);
    while i < n && i < m && a[i] == b[i]
        invariant
            n == a@.len(),
            m == b@.len(),
            i <= n,
            i <= m,
            seq_lt(a@, b@) == seq_lt(a@.skip(i as int), b@.skip(i as int)),
        decreases n - i,
    {
        assert(a@.skip(i as int).drop_first() =~= a@.skip(i + 1));
        assert(b@.skip(i as int).drop_first() =~= b@.skip(i + 1));
        i = i + 1;
    }
    if i == n {
        i < m
    } else if i == m {
        false
    } else {
        a[i] < b[i]
    }
}

fn string_lt(a: &String, b: &String) -> (r: bool)
    ensures
        r == seq_lt(a@, b@),
{
    less_than(chars_of(a.as_str()).as_slice(), chars_of(b.as_str()).as_slice())
}

/// The strings of `v` in non-decreasing order (a stable insertion sort).
pub fn sort_strings(v: Vec<String>) -> (r: Vec<String>)
    ensures
        sorted(strings_view(r@)),
        strings_view(r@).to_multiset() == strings_view(v@).to_multiset(),
        r@.len() == v@.len(),
{
    let mut out: Vec<String> = Vec::new();
    let mut rest = v;
    let ghost all = strings_view(rest@).to_multiset();
    assert(strings_view(out@) =~= Seq::<Seq<char>>::empty());
    while rest.len() > 0
        invariant
            sorted(strings_view(out@)),
            strings_view(out@).to_multiset().add(strings_view(rest@).to_multiset()) == all,
            out@.len() + rest@.len() == v@.len(),
        decreases rest@.len(),
    {
        let ghost rb = rest@;
        let x = rest.pop().unwrap();
        assert(rb == rest@.push(x));
        assert(strings_view(rb) =~= strings_view(rest@).push(x@));
        let mut k: usize = out.len();
        while k > 0 && string_lt(&x, &out[k - 1])
            invariant
                k <= out@.len(),
                forall|j: int| k <= j < out@.len() ==> seq_lt(x@, #[trigger] out@[j]@),
            decreases k,
        {
            k = k - 1;
        }
        let ghost ob = strings_view(out@);
        proof {
            assert forall|j: int| 0 <= j < k implies !seq_lt(x@, #[trigger] ob[j]) by {
                if k > 0 {
                    assert(!seq_lt(x@, ob[k - 1]));
                    if j < k - 1 {
                        assert(!seq_lt(ob[k - 1], ob[j]));
                        lemma_lt_total(ob[j], ob[k - 1]);
                        lemma_lt_total(x@, ob[k - 1]);
                        if seq_lt(x@, ob[j]) {
                            if seq_lt(ob[j], ob[k - 1]) {
                                lemma_lt_transitive(x@, ob[j], ob[k - 1]);
                            }
                        }
                    }
                }
            }
        }
        out.insert(k, x);
        assert(strings_view(out@) =~= ob.insert(k as int, x@));
        proof {
            let nv = strings_view(out@);
            assert forall|i: int, j: int| 0 <= i < j < nv.len() implies !seq_lt(
                #[trigger] nv[j],
                #[trigger] nv[i],
            ) by {
                if i < k && j == k {
                    lemma_lt_total(x@, ob[i]);
                } else if i == k && j > k {
                    assert(nv[j] == ob[j - 1]);
                    assert(seq_lt(x@, out@[j]@));
                    lemma_lt_total(x@, ob[j - 1]);
                } else if i < k && j > k {
                    assert(nv[j] == ob[j - 1]);
                } else if i > k {
                    assert(nv[i] == ob[i - 1]);
                    assert(nv[j] == ob[j - 1]);
                }
            }
            vstd::seq_lib::to_multiset_insert(ob, k as int, x@);
            vstd::seq_lib::to_multiset_build(strings_view(rest@), x@);
        }
    }
    assert(strings_view(rest@) =~= Seq::<Seq<char>>::empty());
    out
}

/// The distinct strings of `v`, in increasing order (`sort` then `dedup`).
pub fn sort_dedup(v: Vec<String>) -> (r: Vec<String>)
    ensures
        strictly_sorted(strings_view(r@)),
        forall|s: Seq<char>|
            strings_view(r@).contains(s) <==> #[trigger] strings_view(v@).contains(s),
{
    let ghost vv = strings_view(v@);
    let sorted_v = sort_strings(v);
    let ghost sv = strings_view(sorted_v@);
    assert forall|s: Seq<char>| sv.contains(s) <==> #[trigger] vv.contains(s) by {
        assert(sv.to_multiset().count(s) == vv.to_multiset().count(s));
    }
    let mut out: Vec<String> = Vec::new();
    let mut i: usize = 0;
    while i < sorted_v.len()
        invariant
            i <= sorted_v@.len(),
            sv == strings_view(sorted_v@),
            sorted(sv),
            strictly_sorted(strings_view(out@)),
            i > 0 ==> out@.len() > 0 && strings_view(out@).last() == sv[i - 1],
            i == 0 ==> out@.len() == 0,
            forall|s: Seq<char>|
                strings_view(out@).contains(s) <==> #[trigger] sv.take(i as int).contains(s),
        decreases sorted_v@.len() - i,
    {
        let x = &sorted_v[i];
        let ghost ob = strings_view(out@);
        let keep = if out.len() == 0 {
            true
        } else {
            let last = out.len() - 1;
            !crate::text::same(
                chars_of(out[last].as_str()).as_slice(),
                chars_of(x.as_str()).as_slice(),
            )
        };
        if keep {
            out.push(x.clone());
            assert(strings_view(out@) =~= ob.push(x@));
            proof {
                if i > 0 {
                    assert(!seq_lt(sv[i as int], sv[i - 1]));
                    lemma_lt_total(sv[i - 1], sv[i as int]);
                    assert forall|a: int| 0 <= a < ob.len() implies seq_lt(ob[a], x@) by {
                        if a < ob.len() - 1 {
                            lemma_lt_transitive(ob[a], ob[ob.len() - 1], x@);
                        }
                    }
                }
                let nv = strings_view(out@);
                assert forall|a: int, b: int| 0 <= a < b < nv.len() implies seq_lt(
                    #[trigger] nv[a],
                    #[trigger] nv[b],
                ) by {
                    if b == nv.len() - 1 {
                        assert(nv[a] == ob[a]);
                    } else {
                        assert(nv[a] == ob[a] && nv[b] == ob[b]);
                    }
                }
            }
        }
        proof {
            let nt = sv.take(i + 1);
            assert(nt =~= sv.take(i as int).push(sv[i as int]));
            assert forall|s: Seq<char>| strings_view(out@).contains(s) <==> #[trigger] nt.contains(
                s,
            ) by {
                if nt.contains(s) && s != sv[i as int] {
                    let k = choose|k: int| 0 <= k < nt.len() && nt[k] == s;
                    assert(sv.take(i as int)[k] == s);
                }
                if sv.take(i as int).contains(s) {
                    let k = choose|k: int| 0 <= k < i && sv.take(i as int)[k] == s;
                    assert(nt[k] == s);
                }
                if s == sv[i as int] {
                    assert(nt[i as int] == s);
                }
                if strings_view(out@).contains(s) && !ob.contains(s) {
                    let k = choose|k: int|
                        0 <= k < strings_view(out@).len() && strings_view(out@)[k] == s;
                    if k < ob.len() {
                        assert(ob[k] == s);
                    }
                }
                if ob.contains(s) {
                    let k = choose|k: int| 0 <= k < ob.len() && ob[k] == s;
                    assert(strings_view(out@)[k] == s);
                }
                if !keep && s == sv[i as int] {
                    assert(ob[ob.len() - 1] == s);
                }
                if keep && s == sv[i as int] {
                    assert(strings_view(out@)[ob.len() as int] == s);
                }
            }
        }
        i = i + 1;
    }
    assert(sv.take(sv.len() as int) =~= sv);
    out
}

/// The keys of a list of named entries.
pub open spec fn keys_of<T: Named>(v: Seq<T>) -> Seq<Seq<char>> {
    v.map_values(|x: T| x.key())
}

/// The entries of `v` ordered by name, non-decreasingly (a stable
/// insertion sort).
pub fn sort_by_key<T: Named>(v: Vec<T>) -> (r: Vec<T>)
    ensures
        sorted(keys_of(r@)),
        r@.to_multiset() == v@.to_multiset(),
        r@.len() == v@.len(),
{
    let mut out: Vec<T> = Vec::new();
    let mut rest = v;
    let ghost all = rest@.to_multiset();
    assert(keys_of(out@) =~= Seq::<Seq<char>>::empty());
    while rest.len() > 0
        invariant
            sorted(keys_of(out@)),
            out@.to_multiset().add(rest@.to_multiset()) == all,
            out@.len() + rest@.len() == v@.len(),
        decreases rest@.len(),
    {
        let ghost rb = rest@;
        let x = rest.pop().unwrap();
        assert(rb == rest@.push(x));
        let xk = x.key_chars();
        let mut k: usize = out.len();
        while k > 0 && less_than(xk.as_slice(), out[k - 1].key_chars().as_slice())
            invariant
                k <= out@.len(),
                xk@ == x.key(),
                forall|j: int| k <= j < out@.len() ==> seq_lt(x.key(), #[trigger] out@[j].key()),
            decreases k,
        {
            k = k - 1;
        }
        let ghost ob = keys_of(out@);
        let ghost oe = out@;
        proof {
            assert forall|j: int| 0 <= j < k implies !seq_lt(x.key(), #[trigger] ob[j]) by {
                if k > 0 {
                    assert(!seq_lt(x.key(), ob[k - 1]));
                    if j < k - 1 {
                        assert(!seq_lt(ob[k - 1], ob[j]));
                        lemma_lt_total(ob[j], ob[k - 1]);
                        lemma_lt_total(x.key(), ob[k - 1]);
                        if seq_lt(x.key(), ob[j]) {
                            if seq_lt(ob[j], ob[k - 1]) {
                                lemma_lt_transitive(x.key(), ob[j], ob[k - 1]);
                            }
                        }
                    }
                }
            }
        }
        out.insert(k, x);
        assert(keys_of(out@) =~= ob.insert(k as int, x.key()));
        proof {
            let nv = keys_of(out@);
            assert forall|i: int, j: int| 0 <= i < j < nv.len() implies !seq_lt(
                #[trigger] nv[j],
                #[trigger] nv[i],
            ) by {
                if i < k && j == k {
                    lemma_lt_total(x.key(), ob[i]);
                } else if i == k && j > k {
                    assert(nv[j] == ob[j - 1]);
                    assert(seq_lt(x.key(), out@[j].key()));
                    lemma_lt_total(x.key(), ob[j - 1]);
                } else if i < k && j > k {
                    assert(nv[j] == ob[j - 1]);
                } else if i > k {
                    assert(nv[i] == ob[i - 1]);
                    assert(nv[j] == ob[j - 1]);
                }
            }
            vstd::seq_lib::to_multiset_insert(oe, k as int, x);
            vstd::seq_lib::to_multiset_build(rest@, x);
        }
    }
    out
}


/// Each entry sorts no earlier than every entry after it.
pub open spec fn sorted_desc(v: Seq<Seq<char>>) -> bool {
    forall|i: int, j: int| 0 <= i < j < v.len() ==> !seq_lt(#[trigger] v[i], #[trigger] v[j])
}

/// The entries of `v` ordered by name, non-increasingly.
pub fn sort_by_key_desc<T: Named>(v: Vec<T>) -> (r: Vec<T>)
    ensures
        sorted_desc(keys_of(r@)),
        r@.to_multiset() == v@.to_multiset(),
        r@.len() == v@.len(),
{
    let mut asc = sort_by_key(v);
    let ghost a = asc@;
    let mut out: Vec<T> = Vec::new();
    while asc.len() > 0
        invariant
            asc@.len() + out@.len() == a.len(),
            asc@ == a.take(asc@.len() as int),
            forall|j: int| 0 <= j < out@.len() ==> #[trigger] out@[j] == a[a.len() - 1 - j],
        decreases asc@.len(),
    {
        let ghost before = asc@;
        let x = asc.pop().unwrap();
        assert(before == asc@.push(x));
        assert(asc@ =~= a.take(asc@.len() as int));
        out.push(x);
    }
    assert(out@ =~= a.reverse());
    proof {
        a.lemma_reverse_to_multiset();
        let ka = keys_of(a);
        let ko = keys_of(out@);
        assert forall|i: int, j: int| 0 <= i < j < ko.len() implies !seq_lt(
            #[trigger] ko[i],
            #[trigger] ko[j],
        ) by {
            assert(ko[i] == ka[a.len() - 1 - i]);
            assert(ko[j] == ka[a.len() - 1 - j]);
        }
    }
    out
}

} // verus!
