//! Layering of a user-level and a project-level list of named entries: an
//! entry of the project list replaces the user-level entry of the same name
//! in place, and any other is appended, in file order.
use vstd::prelude::*;

use crate::text::same;

verus! {

/// A configuration entry identified by its name.
pub trait Named: Sized {
    spec fn key(&self) -> Seq<char>;

    fn key_chars(&self) -> (r: Vec<char>)
        ensures
            r@ == self.key(),
    ;
}

/// `i` is the first position of `s` whose entry is named `k`.
pub open spec fn is_first_key<T: Named>(s: Seq<T>, k: Seq<char>, i: int) -> bool {
    0 <= i < s.len() && s[i].key() == k && forall|j: int| 0 <= j < i ==> s[j].key() != k
}

pub open spec fn has_key<T: Named>(s: Seq<T>, k: Seq<char>) -> bool {
    exists|i: int| 0 <= i < s.len() && s[i].key() == k
}

/// Position of the first entry named `k`.
pub open spec fn key_index<T: Named>(s: Seq<T>, k: Seq<char>) -> Option<int> {
    if has_key(s, k) {
        Some(choose|i: int| is_first_key(s, k, i))
    } else {
        None
    }
}

/// `m` with `x` replacing its first entry of the same name, or appended.
pub open spec fn upsert<T: Named>(m: Seq<T>, x: T) -> Seq<T> {
    match key_index(m, x.key()) {
        Some(i) => m.update(i, x),
        None => m.push(x),
    }
}

/// The user-level list with the project-level entries layered over it, in
/// order.
pub open spec fn layered<T: Named>(user: Seq<T>, project: Seq<T>) -> Seq<T>
    decreases project.len(),
{
    if project.len() == 0 {
        user
    } else {
        upsert(layered(user, project.drop_last()), project.last())
    }
}

/// No two entries share a name.
pub open spec fn distinct_keys<T: Named>(s: Seq<T>) -> bool {
    forall|i: int, j: int| 0 <= i < j < s.len() ==> s[i].key() != s[j].key()
}

/// The first entry named `k`.
pub open spec fn entry<T: Named>(s: Seq<T>, k: Seq<char>) -> Option<T> {
    match key_index(s, k) {
        Some(i) => Some(s[i]),
        None => None,
    }
}

/// The last entry named `k`.
pub open spec fn last_entry<T: Named>(s: Seq<T>, k: Seq<char>) -> Option<T>
    decreases s.len(),
{
    if s.len() == 0 {
        None
    } else if s.last().key() == k {
        Some(s.last())
    } else {
        last_entry(s.drop_last(), k)
    }
}

pub proof fn lemma_key_index_of<T: Named>(s: Seq<T>, k: Seq<char>, i: int)
    requires
        is_first_key(s, k, i),
    ensures
        key_index(s, k) == Some(i),
{
    let c = choose|c: int| is_first_key(s, k, c);
    assert(is_first_key(s, k, c));
    if c < i {
        assert(s[c].key() != k);
    } else if c > i {
        assert(s[i].key() != k);
    }
}

/// With distinct names, the entry named `k` is the one at any position
/// holding that name.
pub proof fn lemma_entry_at<T: Named>(s: Seq<T>, k: Seq<char>, i: int)
    requires
        distinct_keys(s),
        0 <= i < s.len(),
        s[i].key() == k,
    ensures
        key_index(s, k) == Some(i),
        entry(s, k) == Some(s[i]),
{
    assert forall|j: int| 0 <= j < i implies s[j].key() != k by {
        assert(s[j].key() != s[i].key());
    }
    lemma_key_index_of(s, k, i);
}

pub proof fn lemma_entry_absent<T: Named>(s: Seq<T>, k: Seq<char>)
    requires
        forall|j: int| 0 <= j < s.len() ==> s[j].key() != k,
    ensures
        key_index(s, k) is None,
        entry(s, k) is None,
{
}

/// Layering keeps names unique, leaves the user-level entries in their
/// places, and gives for every name the last project-level entry of that
/// name if there is one, and the user-level entry otherwise.
pub proof fn layering_law<T: Named>(user: Seq<T>, project: Seq<T>)
    requires
        distinct_keys(user),
    ensures
        distinct_keys(layered(user, project)),
        user.len() <= layered(user, project).len(),
        forall|i: int| 0 <= i < user.len() ==> #[trigger] layered(user, project)[i].key() == user[i].key(),
        forall|k: Seq<char>| #[trigger] entry(layered(user, project), k) == match last_entry(project, k) {
            Some(x) => Some(x),
            None => entry(user, k),
        },
    decreases project.len(),
{
    if project.len() == 0 {
        return;
    }
    let p = project.drop_last();
    let x = project.last();
    layering_law(user, p);
    let m = layered(user, p);
    let r = layered(user, project);
    assert(r == upsert(m, x));
    if has_key(m, x.key()) {
        let i = choose|i: int| 0 <= i < m.len() && m[i].key() == x.key();
        lemma_entry_at(m, x.key(), i);
        assert(r == m.update(i, x));
        assert forall|a: int, b: int| 0 <= a < b < r.len() implies r[a].key() != r[b].key() by {
            assert(r[a].key() == m[a].key());
            assert(r[b].key() == m[b].key());
        }
        assert forall|k: Seq<char>| #[trigger] entry(r, k) == match last_entry(project, k) {
            Some(y) => Some(y),
            None => entry(user, k),
        } by {
            if k == x.key() {
                lemma_entry_at(r, k, i);
            } else {
                assert(last_entry(project, k) == last_entry(p, k));
                if has_key(m, k) {
                    let j = choose|j: int| 0 <= j < m.len() && m[j].key() == k;
                    lemma_entry_at(m, k, j);
                    lemma_entry_at(r, k, j);
                } else {
                    lemma_entry_absent(m, k);
                    assert forall|j: int| 0 <= j < r.len() implies r[j].key() != k by {
                        assert(r[j].key() == m[j].key());
                    }
                    lemma_entry_absent(r, k);
                }
            }
        }
    } else {
        lemma_entry_absent(m, x.key());
        assert(r == m.push(x));
        assert forall|k: Seq<char>| #[trigger] entry(r, k) == match last_entry(project, k) {
            Some(y) => Some(y),
            None => entry(user, k),
        } by {
            if k == x.key() {
                lemma_entry_at(r, k, m.len() as int);
            } else {
                assert(last_entry(project, k) == last_entry(p, k));
                if has_key(m, k) {
                    let j = choose|j: int| 0 <= j < m.len() && m[j].key() == k;
                    lemma_entry_at(m, k, j);
                    lemma_entry_at(r, k, j);
                } else {
                    lemma_entry_absent(m, k);
                    lemma_entry_absent(r, k);
                }
            }
        }
    }
}

/// Position of the first entry of `m` named `k`.
pub fn find_key<T: Named>(m: &[T], k: &[char]) -> (r: Option<usize>)
    ensures
        r matches Some(i) ==> key_index(m@, k@) == Some(i as int) && i < m@.len(),
        r is None ==> key_index(m@, k@) is None,
{
    let mut i: usize = 0;
    while i < m.len()
        invariant
            i <= m@.len(),
            forall|j: int| 0 <= j < i ==> m@[j].key() != k@,
        decreases m@.len() - i,
    {
        let key = m[i].key_chars();
        if same(&key, k) {
            assert(is_first_key(m@, k@, i as int));
            let ghost c = choose|c: int| is_first_key(m@, k@, c);
            assert(c == i as int) by {
                if c < i as int {
                    assert(m@[c].key() != k@);
                } else if c > i as int {
                    assert(m@[i as int].key() != k@);
                }
            }
            return Some(i);
        }
        i = i + 1;
    }
    None
}

/// Layers `project` over `user`: an entry of `project` replaces the first
/// entry of the same name, any other is appended.
pub fn layer<T: Named>(user: Vec<T>, project: Vec<T>) -> (r: Vec<T>)
    ensures
        r@ == layered(user@, project@),
{
    let mut reversed: Vec<T> = Vec::new();
    let mut p = project;
    let ghost orig = p@;
    while p.len() > 0
        invariant
            orig == p@ + reversed@.reverse(),
        decreases p@.len(),
    {
        let ghost before = p@;
        let x = p.pop().unwrap();
        assert(before == p@.push(x));
        let ghost rb = reversed@;
        reversed.push(x);
        assert(reversed@.reverse() == seq![x] + rb.reverse()) by {
            assert(reversed@.reverse() =~= seq![x] + rb.reverse());
        }
        assert(p@.push(x) + rb.reverse() =~= p@ + (seq![x] + rb.reverse()));
    }
    assert(orig =~= reversed@.reverse());
    assert(orig.skip(0) == orig);
    let mut merged = user;
    let ghost n = reversed@.len();
    while reversed.len() > 0
        invariant
            reversed@.reverse() == orig.skip(n - reversed@.len()),
            reversed@.len() <= n,
            n == orig.len(),
            merged@ == layered(user@, orig.take(n - reversed@.len())),
        decreases reversed@.len(),
    {
        let ghost rb = reversed@;
        let x = reversed.pop().unwrap();
        assert(rb == reversed@.push(x));
        let ghost done = n - rb.len();
        assert(orig[done] == x) by {
            assert(rb.reverse()[0] == rb[rb.len() - 1]);
            assert(orig.skip(done)[0] == orig[done]);
        }
        assert(reversed@.reverse() == orig.skip(done + 1)) by {
            assert(reversed@.reverse() =~= rb.reverse().drop_first());
            assert(orig.skip(done + 1) =~= orig.skip(done).drop_first());
        }
        assert(orig.take(done + 1).drop_last() == orig.take(done));
        assert(orig.take(done + 1).last() == x);
        let k = x.key_chars();
        match find_key(merged.as_slice(), &k) {
            Some(i) => {
                merged.set(i, x);
            },
            None => {
                merged.push(x);
            },
        }
    }
    assert(orig.take(n as int) == orig);
    merged
}

/// `s` without its entries named `k`, in order.
pub open spec fn without_key<T: Named>(s: Seq<T>, k: Seq<char>) -> Seq<T>
    decreases s.len(),
{
    if s.len() == 0 {
        s
    } else {
        let w = without_key(s.drop_last(), k);
        if s.last().key() == k {
            w
        } else {
            w.push(s.last())
        }
    }
}

/// Removing the entries named `k` leaves every other entry, in order, and
/// shortens the list exactly when it had such an entry.
pub proof fn without_key_law<T: Named>(s: Seq<T>, k: Seq<char>)
    ensures
        without_key(s, k).len() <= s.len(),
        without_key(s, k).len() == s.len() <==> !has_key(s, k),
        forall|i: int|
            0 <= i < without_key(s, k).len() ==> (#[trigger] without_key(s, k)[i]).key() != k,
    decreases s.len(),
{
    if s.len() > 0 {
        without_key_law(s.drop_last(), k);
        let w = without_key(s.drop_last(), k);
        if has_key(s.drop_last(), k) {
            let i = choose|i: int| 0 <= i < s.drop_last().len() && s.drop_last()[i].key() == k;
            assert(s[i].key() == k);
        }
        if has_key(s, k) && s.last().key() != k {
            let i = choose|i: int| 0 <= i < s.len() && s[i].key() == k;
            assert(s.drop_last()[i].key() == k);
        }
        if s.last().key() == k {
            assert(s[s.len() - 1].key() == k);
        } else {
            assert forall|i: int| 0 <= i < w.push(s.last()).len() implies (#[trigger] w.push(
                s.last(),
            )[i]).key() != k by {
                if i < w.len() {
                    assert(w.push(s.last())[i] == w[i]);
                }
            }
        }
    }
}

/// `v` without its entries named `k` (`retain` by name).
pub fn remove_key<T: Named>(v: Vec<T>, k: &[char]) -> (r: Vec<T>)
    ensures
        r@ == without_key(v@, k@),
{
    let mut rev: Vec<T> = Vec::new();
    let mut rest = v;
    let ghost orig = rest@;
    while rest.len() > 0
        invariant
            orig == rest@ + rev@.reverse(),
        decreases rest@.len(),
    {
        let ghost before = rest@;
        let ghost rb = rev@;
        let x = rest.pop().unwrap();
        assert(before == rest@.push(x));
        rev.push(x);
        assert(rev@.reverse() =~= seq![x] + rb.reverse());
        assert(rest@.push(x) + rb.reverse() =~= rest@ + (seq![x] + rb.reverse()));
    }
    assert(orig =~= rev@.reverse());
    let ghost n = rev@.len();
    let mut out: Vec<T> = Vec::new();
    while rev.len() > 0
        invariant
            n == orig.len(),
            rev@.len() <= n,
            forall|j: int| 0 <= j < rev@.len() ==> rev@[j] == orig[n - 1 - j],
            out@ == without_key(orig.take(n - rev@.len()), k@),
        decreases rev@.len(),
    {
        let ghost rb = rev@;
        let x = rev.pop().unwrap();
        let ghost done = n - rb.len();
        assert(x == orig[done]);
        assert(orig.take(done + 1).drop_last() =~= orig.take(done));
        let xk = x.key_chars();
        if !same(xk.as_slice(), k) {
            out.push(x);
        }
    }
    assert(orig.take(n as int) =~= orig);
    out
}

/// When some entry is named `k`, the first one is where `key_index` points.
pub proof fn lemma_first_key<T: Named>(s: Seq<T>, k: Seq<char>)
    requires
        has_key(s, k),
    ensures
        key_index(s, k) matches Some(i) && is_first_key(s, k, i),
    decreases s.len(),
{
    let p = s.drop_last();
    if has_key(p, k) {
        lemma_first_key(p, k);
        let i = key_index(p, k)->Some_0;
        assert forall|j: int| 0 <= j < i implies s[j].key() != k by {
            assert(s[j] == p[j]);
        }
        assert(s[i] == p[i]);
        lemma_key_index_of(s, k, i);
    } else {
        let i = s.len() - 1;
        assert(s[i].key() == k) by {
            let j = choose|j: int| 0 <= j < s.len() && s[j].key() == k;
            if j < i {
                assert(p[j] == s[j]);
            }
        }
        assert forall|j: int| 0 <= j < i implies s[j].key() != k by {
            assert(s[j] == p[j]);
        }
        lemma_key_index_of(s, k, i);
    }
}

/// The entry named `k` once `x` is appended: the existing one, else `x`
/// when it has that name.
pub proof fn lemma_push_entry<T: Named>(w: Seq<T>, x: T, k: Seq<char>)
    ensures
        entry(w.push(x), k) == (if has_key(w, k) {
            entry(w, k)
        } else if x.key() == k {
            Some(x)
        } else {
            None::<T>
        }),
{
    let r = w.push(x);
    if has_key(w, k) {
        lemma_first_key(w, k);
        let i = key_index(w, k)->Some_0;
        assert(r[i] == w[i]);
        assert forall|j: int| 0 <= j < i implies r[j].key() != k by {
            assert(r[j] == w[j]);
        }
        lemma_key_index_of(r, k, i);
    } else {
        assert forall|j: int| 0 <= j < w.len() implies r[j].key() != k by {
            assert(r[j] == w[j]);
            if w[j].key() == k {
                assert(has_key(w, k));
            }
        }
        if x.key() == k {
            lemma_key_index_of(r, k, w.len() as int);
        } else {
            assert forall|j: int| 0 <= j < r.len() implies r[j].key() != k by {
                if j < w.len() {
                    assert(r[j] == w[j]);
                }
            }
            lemma_entry_absent(r, k);
        }
    }
}

/// An entry is found exactly when some entry has that name.
pub proof fn lemma_entry_some<T: Named>(s: Seq<T>, k: Seq<char>)
    ensures
        entry(s, k) is Some <==> has_key(s, k),
{
}

/// Removing the entries of one name leaves the lookup of every other name
/// unchanged.
pub proof fn lemma_without_key_entry<T: Named>(s: Seq<T>, d: Seq<char>, k: Seq<char>)
    requires
        k != d,
    ensures
        entry(without_key(s, d), k) == entry(s, k),
    decreases s.len(),
{
    if s.len() > 0 {
        let p = s.drop_last();
        let x = s.last();
        assert(s == p.push(x));
        lemma_without_key_entry(p, d, k);
        let wp = without_key(p, d);
        lemma_push_entry(p, x, k);
        lemma_entry_some(wp, k);
        lemma_entry_some(p, k);
        if x.key() != d {
            lemma_push_entry(wp, x, k);
        }
    }
}

} // verus!
