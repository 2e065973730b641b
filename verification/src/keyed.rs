//! Sequences of key-addressed rows: the lookup, removal and replacement
//! machinery every table of the store is specified and proved with.

use vstd::prelude::*;

verus! {

/// A value addressed by a store-assigned integer key.
pub trait Keyed {
    spec fn key(self) -> u64;
}

/// A cart entry is its own key.
impl Keyed for u64 {
    open spec fn key(self) -> u64 {
        self
    }
}

/// The views of a sequence of rows.
pub open spec fn views<T: View>(s: Seq<T>) -> Seq<T::V> {
    s.map_values(|t: T| t@)
}

/// Some row of `s` carries key `k`.
pub open spec fn has_key<T: Keyed>(s: Seq<T>, k: u64) -> bool {
    exists|i: int| 0 <= i < s.len() && (#[trigger] s[i].key()) == k
}

/// No two rows of `s` share a key.
pub open spec fn unique_keys<T: Keyed>(s: Seq<T>) -> bool {
    forall|i: int, j: int|
        0 <= i < j < s.len() ==> (#[trigger] s[i].key()) != (#[trigger] s[j].key())
}

/// Every key of `s` lies below the bound `b`.
pub open spec fn keys_below<T: Keyed>(s: Seq<T>, b: u64) -> bool {
    forall|i: int| 0 <= i < s.len() ==> (#[trigger] s[i].key()) < b
}

/// The first row of `s` carrying key `k`, if any.
pub open spec fn lookup<T: Keyed>(s: Seq<T>, k: u64) -> Option<T>
    decreases s.len(),
{
    if s.len() == 0 {
        None
    } else if s[0].key() == k {
        Some(s[0])
    } else {
        lookup(s.drop_first(), k)
    }
}

/// `s` with every row carrying key `k` removed, order otherwise kept.
pub open spec fn remove_key<T: Keyed>(s: Seq<T>, k: u64) -> Seq<T>
    decreases s.len(),
{
    if s.len() == 0 {
        Seq::empty()
    } else if s[0].key() == k {
        remove_key(s.drop_first(), k)
    } else {
        seq![s[0]] + remove_key(s.drop_first(), k)
    }
}

/// `s` with the first row carrying key `k` replaced by `t`, order kept.
pub open spec fn replace_key<T: Keyed>(s: Seq<T>, k: u64, t: T) -> Seq<T>
    decreases s.len(),
{
    if s.len() == 0 {
        Seq::empty()
    } else if s[0].key() == k {
        seq![t] + s.drop_first()
    } else {
        seq![s[0]] + replace_key(s.drop_first(), k, t)
    }
}

/// A bound on the keys bounds every lookup, so a fresh key is absent.
pub proof fn lemma_keys_below_absent<T: Keyed>(s: Seq<T>, b: u64)
    requires
        keys_below(s, b),
    ensures
        !has_key(s, b),
{
}

/// Where no row carries `k`, lookup finds nothing.
pub proof fn lemma_lookup_absent<T: Keyed>(s: Seq<T>, k: u64)
    requires
        !has_key(s, k),
    ensures
        lookup(s, k) is None,
    decreases s.len(),
{
    if s.len() > 0 {
        assert(s[0].key() != k);
        assert(forall|i: int|
            0 <= i < s.drop_first().len() ==> (#[trigger] s.drop_first()[i].key()) == s[i
                + 1].key());
        lemma_lookup_absent(s.drop_first(), k);
    }
}

/// Where some row carries `k`, lookup finds the first such row.
pub proof fn lemma_lookup_found<T: Keyed>(s: Seq<T>, k: u64, i: int)
    requires
        0 <= i < s.len(),
        s[i].key() == k,
        forall|j: int| 0 <= j < i ==> (#[trigger] s[j].key()) != k,
    ensures
        lookup(s, k) == Some(s[i]),
    decreases i,
{
    if i == 0 {
    } else {
        assert(s[0].key() != k);
        assert(s.drop_first()[i - 1] == s[i]);
        lemma_lookup_found(s.drop_first(), k, i - 1);
    }
}

/// Lookup finds a row exactly where one carries `k`, and then the row found
/// carries `k` and stands in `s`.
pub proof fn lemma_lookup_props<T: Keyed>(s: Seq<T>, k: u64)
    ensures
        has_key(s, k) <==> lookup(s, k) is Some,
        lookup(s, k) is Some ==> (lookup(s, k)->0).key() == k,
        lookup(s, k) is Some ==> exists|i: int|
            0 <= i < s.len() && #[trigger] s[i] == lookup(s, k)->0,
    decreases s.len(),
{
    if s.len() == 0 {
    } else if s[0].key() == k {
    } else {
        lemma_lookup_props(s.drop_first(), k);
        assert(forall|i: int|
            0 <= i < s.drop_first().len() ==> #[trigger] s.drop_first()[i] == s[i + 1]);
        if has_key(s, k) {
            let i = choose|i: int| 0 <= i < s.len() && (#[trigger] s[i].key()) == k;
            assert(s.drop_first()[i - 1].key() == k);
            assert(has_key(s.drop_first(), k));
        }
        if lookup(s, k) is Some {
            let i = choose|i: int|
                0 <= i < s.drop_first().len() && (#[trigger] s.drop_first()[i]) == lookup(
                    s.drop_first(),
                    k,
                )->0;
            assert(s[i + 1] == lookup(s, k)->0);
        }
    }
}

/// Appending a row changes no lookup of another key, and a lookup of its own
/// key finds the earlier row where one exists, else the new row.
pub proof fn lemma_lookup_push<T: Keyed>(s: Seq<T>, t: T, k: u64)
    ensures
        lookup(s.push(t), k) == (if has_key(s, k) {
            lookup(s, k)
        } else if t.key() == k {
            Some(t)
        } else {
            None::<T>
        }),
    decreases s.len(),
{
    let sp = s.push(t);
    if s.len() == 0 {
        assert(sp[0] == t);
        if t.key() != k {
            assert(sp.drop_first() =~= Seq::<T>::empty());
        }
    } else {
        assert(sp[0] == s[0]);
        if s[0].key() == k {
            assert(has_key(s, k));
        } else {
            assert(sp.drop_first() =~= s.drop_first().push(t));
            lemma_lookup_push(s.drop_first(), t, k);
            assert(forall|i: int|
                0 <= i < s.drop_first().len() ==> (#[trigger] s.drop_first()[i].key()) == s[i
                    + 1].key());
            if has_key(s.drop_first(), k) {
                assert(has_key(s, k));
            }
            if has_key(s, k) {
                let i = choose|i: int| 0 <= i < s.len() && (#[trigger] s[i].key()) == k;
                assert(i > 0);
                assert(s.drop_first()[i - 1].key() == k);
                assert(has_key(s.drop_first(), k));
            }
        }
    }
}

/// Removing a key removes every row carrying it and nothing else: the result
/// keeps the other rows, their order, and every other lookup.
pub proof fn lemma_remove_key_props<T: Keyed>(s: Seq<T>, k: u64)
    ensures
        !has_key(remove_key(s, k), k),
        remove_key(s, k).len() <= s.len(),
        forall|i: int|
            0 <= i < remove_key(s, k).len() ==> exists|j: int|
                0 <= j < s.len() && #[trigger] remove_key(s, k)[i] == #[trigger] s[j],
        forall|k2: u64| k2 != k ==> #[trigger] lookup(remove_key(s, k), k2) == lookup(s, k2),
    decreases s.len(),
{
    let r = remove_key(s, k);
    if s.len() == 0 {
    } else {
        let d = s.drop_first();
        lemma_remove_key_props(d, k);
        assert(forall|i: int| 0 <= i < d.len() ==> #[trigger] d[i] == s[i + 1]);
        if s[0].key() == k {
            assert forall|i: int| 0 <= i < r.len() implies exists|j: int|
                0 <= j < s.len() && (#[trigger] r[i]) == #[trigger] s[j] by {
                let j = choose|j: int| 0 <= j < d.len() && r[i] == #[trigger] d[j];
                assert(r[i] == s[j + 1]);
            }
        } else {
            assert(r == seq![s[0]] + remove_key(d, k));
            assert(r[0] == s[0]);
            assert(forall|i: int|
                1 <= i < r.len() ==> #[trigger] r[i] == remove_key(d, k)[i - 1]);
            assert forall|i: int| 0 <= i < r.len() implies exists|j: int|
                0 <= j < s.len() && (#[trigger] r[i]) == #[trigger] s[j] by {
                if i == 0 {
                    assert(r[0] == s[0]);
                } else {
                    let j = choose|j: int|
                        0 <= j < d.len() && remove_key(d, k)[i - 1] == #[trigger] d[j];
                    assert(r[i] == s[j + 1]);
                }
            }
            assert(!has_key(r, k)) by {
                assert forall|i: int| 0 <= i < r.len() implies (#[trigger] r[i].key()) != k by {
                    if i > 0 {
                        assert(r[i] == remove_key(d, k)[i - 1]);
                        assert(!has_key(remove_key(d, k), k));
                        assert(remove_key(d, k)[i - 1].key() != k);
                    }
                }
            }
            assert forall|k2: u64| k2 != k implies #[trigger] lookup(r, k2) == lookup(s, k2) by {
                if s[0].key() == k2 {
                    assert(lookup(r, k2) == Some(r[0]));
                    assert(lookup(s, k2) == Some(s[0]));
                } else {
                    assert(r.drop_first() =~= remove_key(d, k));
                    assert(lookup(r, k2) == lookup(remove_key(d, k), k2));
                }
            }
        }
    }
}

/// Removing an absent key changes nothing.
pub proof fn lemma_remove_key_absent<T: Keyed>(s: Seq<T>, k: u64)
    requires
        !has_key(s, k),
    ensures
        remove_key(s, k) == s,
    decreases s.len(),
{
    if s.len() > 0 {
        assert(s[0].key() != k);
        let d = s.drop_first();
        assert(forall|i: int|
            0 <= i < d.len() ==> (#[trigger] d[i].key()) == s[i + 1].key());
        lemma_remove_key_absent(d, k);
        assert(seq![s[0]] + d =~= s);
    }
}

/// Removing a key at the end: the last row stays exactly when its key differs.
pub proof fn lemma_remove_key_push<T: Keyed>(s: Seq<T>, t: T, k: u64)
    ensures
        t.key() == k ==> remove_key(s.push(t), k) == remove_key(s, k),
        t.key() != k ==> remove_key(s.push(t), k) == remove_key(s, k).push(t),
    decreases s.len(),
{
    let sp = s.push(t);
    if s.len() == 0 {
        assert(sp[0] == t);
        assert(sp.drop_first() =~= Seq::<T>::empty());
        assert(remove_key(s, k) =~= Seq::<T>::empty());
        assert(remove_key(sp.drop_first(), k) =~= Seq::<T>::empty());
        if t.key() == k {
            assert(remove_key(sp, k) == remove_key(sp.drop_first(), k));
        } else {
            assert(remove_key(sp, k) == seq![t] + remove_key(sp.drop_first(), k));
            assert(remove_key(sp, k) =~= remove_key(s, k).push(t));
        }
    } else {
        assert(sp[0] == s[0]);
        assert(sp.drop_first() =~= s.drop_first().push(t));
        lemma_remove_key_push(s.drop_first(), t, k);
        if s[0].key() != k && t.key() != k {
            assert(remove_key(sp, k) =~= remove_key(s, k).push(t));
        }
    }
}

/// Removing every occurrence of a key is idempotent.
pub proof fn lemma_remove_key_idempotent<T: Keyed>(s: Seq<T>, k: u64)
    ensures
        remove_key(remove_key(s, k), k) == remove_key(s, k),
{
    lemma_remove_key_props(s, k);
    lemma_remove_key_absent(remove_key(s, k), k);
}

/// Removal keeps uniqueness and any key bound.
pub proof fn lemma_remove_key_wf<T: Keyed>(s: Seq<T>, k: u64, b: u64)
    requires
        unique_keys(s),
        keys_below(s, b),
    ensures
        unique_keys(remove_key(s, k)),
        keys_below(remove_key(s, k), b),
    decreases s.len(),
{
    let r = remove_key(s, k);
    if s.len() > 0 {
        let d = s.drop_first();
        assert(forall|i: int| 0 <= i < d.len() ==> #[trigger] d[i] == s[i + 1]);
        lemma_remove_key_wf(d, k, b);
        if s[0].key() != k {
            assert(r[0] == s[0]);
            assert(forall|i: int|
                1 <= i < r.len() ==> #[trigger] r[i] == remove_key(d, k)[i - 1]);
            lemma_remove_key_props(d, k);
            assert forall|i: int, j: int| 0 <= i < j < r.len() implies (#[trigger] r[i].key())
                != (#[trigger] r[j].key()) by {
                if i == 0 {
                    let rj = remove_key(d, k)[j - 1];
                    let jj = choose|jj: int| 0 <= jj < d.len() && rj == #[trigger] d[jj];
                    assert(d[jj].key() == s[jj + 1].key());
                }
            }
            assert forall|i: int| 0 <= i < r.len() implies (#[trigger] r[i].key()) < b by {
                if i > 0 {
                    assert(r[i] == remove_key(d, k)[i - 1]);
                }
            }
        }
    }
}

/// Replacing a key's row keeps the length, the other rows, uniqueness and a
/// key bound, and redirects only that key's lookup.
pub proof fn lemma_replace_key_props<T: Keyed>(s: Seq<T>, k: u64, t: T, b: u64)
    requires
        unique_keys(s),
        keys_below(s, b),
        t.key() == k,
        k < b,
    ensures
        unique_keys(replace_key(s, k, t)),
        keys_below(replace_key(s, k, t), b),
        has_key(s, k) ==> replace_key(s, k, t).len() == s.len(),
        !has_key(s, k) ==> replace_key(s, k, t) == s,
        has_key(s, k) ==> lookup(replace_key(s, k, t), k) == Some(t),
        forall|k2: u64| k2 != k ==> #[trigger] lookup(replace_key(s, k, t), k2) == lookup(s, k2),
    decreases s.len(),
{
    let r = replace_key(s, k, t);
    if s.len() == 0 {
    } else {
        let d = s.drop_first();
        assert(forall|i: int| 0 <= i < d.len() ==> #[trigger] d[i] == s[i + 1]);
        if s[0].key() == k {
            assert(r == seq![t] + d);
            assert(r[0] == t);
            assert(forall|i: int| 1 <= i < r.len() ==> #[trigger] r[i] == s[i]);
            assert(!has_key(d, k)) by {
                if has_key(d, k) {
                    let i = choose|i: int| 0 <= i < d.len() && (#[trigger] d[i].key()) == k;
                    assert(s[i + 1].key() == s[0].key());
                }
            }
            lemma_lookup_absent(d, k);
            assert(r.drop_first() =~= d);
            assert forall|k2: u64| k2 != k implies #[trigger] lookup(r, k2) == lookup(s, k2) by {
                assert(lookup(r, k2) == lookup(d, k2));
                assert(lookup(s, k2) == lookup(d, k2));
            }
        } else {
            lemma_replace_key_props(d, k, t, b);
            assert(r == seq![s[0]] + replace_key(d, k, t));
            assert(r[0] == s[0]);
            assert(forall|i: int|
                1 <= i < r.len() ==> #[trigger] r[i] == replace_key(d, k, t)[i - 1]);
            assert(r.drop_first() =~= replace_key(d, k, t));
            if has_key(s, k) {
                let i = choose|i: int| 0 <= i < s.len() && (#[trigger] s[i].key()) == k;
                assert(i > 0);
                assert(d[i - 1].key() == k);
                assert(has_key(d, k));
            }
            if has_key(d, k) {
                assert(has_key(s, k));
            }
            if !has_key(s, k) {
                assert(r =~= s);
            }
            assert forall|i: int, j: int| 0 <= i < j < r.len() implies (#[trigger] r[i].key())
                != (#[trigger] r[j].key()) by {
                if i == 0 {
                    let rj = replace_key(d, k, t)[j - 1];
                    if has_key(d, k) {
                        // each row of the replacement is a row of `d`, or `t`
                        if rj == t {
                            assert(s[0].key() != k);
                        } else {
                            lemma_replace_rows(d, k, t, j - 1);
                        }
                    } else {
                        assert(replace_key(d, k, t) == d);
                    }
                }
            }
            assert forall|i: int| 0 <= i < r.len() implies (#[trigger] r[i].key()) < b by {
                if i > 0 {
                    assert(r[i] == replace_key(d, k, t)[i - 1]);
                    assert(keys_below(replace_key(d, k, t), b));
                }
            }
            assert forall|k2: u64| k2 != k implies #[trigger] lookup(r, k2) == lookup(s, k2) by {
                if s[0].key() == k2 {
                    assert(lookup(r, k2) == Some(r[0]));
                    assert(lookup(s, k2) == Some(s[0]));
                } else {
                    assert(lookup(r, k2) == lookup(replace_key(d, k, t), k2));
                    assert(lookup(s, k2) == lookup(d, k2));
                }
            }
        }
    }
}

/// Every row of a replacement is the new row or a row of the base sequence.
proof fn lemma_replace_rows<T: Keyed>(s: Seq<T>, k: u64, t: T, i: int)
    requires
        0 <= i < replace_key(s, k, t).len(),
    ensures
        replace_key(s, k, t)[i] == t || exists|j: int|
            0 <= j < s.len() && replace_key(s, k, t)[i] == #[trigger] s[j],
    decreases s.len(),
{
    let r = replace_key(s, k, t);
    if s.len() == 0 {
    } else if s[0].key() == k {
        if i > 0 {
            assert(r[i] == s.drop_first()[i - 1]);
            assert(r[i] == s[i]);
        }
    } else {
        if i == 0 {
            assert(r[0] == s[0]);
        } else {
            let d = s.drop_first();
            assert(r[i] == replace_key(d, k, t)[i - 1]);
            lemma_replace_rows(d, k, t, i - 1);
            if replace_key(d, k, t)[i - 1] != t {
                let j = choose|j: int|
                    0 <= j < d.len() && replace_key(d, k, t)[i - 1] == #[trigger] d[j];
                assert(r[i] == s[j + 1]);
            }
        }
    }
}

/// Appending a row with a fresh key keeps uniqueness and a bound above it.
pub proof fn lemma_push_fresh<T: Keyed>(s: Seq<T>, t: T, b: u64)
    requires
        unique_keys(s),
        !has_key(s, t.key()),
        keys_below(s, b),
        t.key() < b,
    ensures
        unique_keys(s.push(t)),
        keys_below(s.push(t), b),
{
    let sp = s.push(t);
    assert(forall|i: int| 0 <= i < s.len() ==> #[trigger] sp[i] == s[i]);
    assert(sp[s.len() as int] == t);
    assert forall|i: int| 0 <= i < sp.len() implies (#[trigger] sp[i].key()) < b by {
        if i < s.len() {
            assert(s[i].key() < b);
        }
    }
    assert forall|i: int, j: int| 0 <= i < j < sp.len() implies (#[trigger] sp[i].key()) != (
    #[trigger] sp[j].key()) by {
        if j < s.len() {
        } else {
            assert(sp[i] == s[i]);
        }
    }
}


/// With unique keys, removing key `k` found at position `i` removes exactly
/// that row.
pub proof fn lemma_remove_key_at<T: Keyed>(s: Seq<T>, k: u64, i: int)
    requires
        unique_keys(s),
        0 <= i < s.len(),
        s[i].key() == k,
    ensures
        remove_key(s, k) == s.remove(i),
    decreases i,
{
    let d = s.drop_first();
    assert(forall|j: int| 0 <= j < d.len() ==> #[trigger] d[j] == s[j + 1]);
    if i == 0 {
        assert(!has_key(d, k)) by {
            if has_key(d, k) {
                let j = choose|j: int| 0 <= j < d.len() && (#[trigger] d[j].key()) == k;
                assert(s[j + 1].key() == s[0].key());
            }
        }
        lemma_remove_key_absent(d, k);
        assert(s.remove(0) =~= d);
    } else {
        assert(s[0].key() != k);
        assert(unique_keys(d)) by {
            assert forall|x: int, y: int| 0 <= x < y < d.len() implies (#[trigger] d[x].key())
                != (#[trigger] d[y].key()) by {
                assert(s[x + 1].key() != s[y + 1].key());
            }
        }
        lemma_remove_key_at(d, k, i - 1);
        assert(remove_key(s, k) == seq![s[0]] + remove_key(d, k));
        assert(s.remove(i) =~= seq![s[0]] + d.remove(i - 1));
    }
}

/// Replacing key `k`, first found at position `i`, updates exactly that row.
pub proof fn lemma_replace_key_at<T: Keyed>(s: Seq<T>, k: u64, t: T, i: int)
    requires
        0 <= i < s.len(),
        s[i].key() == k,
        forall|j: int| 0 <= j < i ==> (#[trigger] s[j].key()) != k,
    ensures
        replace_key(s, k, t) == s.update(i, t),
    decreases i,
{
    let d = s.drop_first();
    assert(forall|j: int| 0 <= j < d.len() ==> #[trigger] d[j] == s[j + 1]);
    if i == 0 {
        assert(replace_key(s, k, t) == seq![t] + d);
        assert(s.update(0, t) =~= seq![t] + d);
    } else {
        assert(s[0].key() != k);
        lemma_replace_key_at(d, k, t, i - 1);
        assert(replace_key(s, k, t) == seq![s[0]] + replace_key(d, k, t));
        assert(s.update(i, t) =~= seq![s[0]] + d.update(i - 1, t));
    }
}

/// Taking views commutes with appending a row.
pub proof fn lemma_views_push<T: View>(s: Seq<T>, t: T)
    ensures
        views(s.push(t)) == views(s).push(t@),
{
    let a = views(s.push(t));
    let b = views(s).push(t@);
    assert forall|j: int| 0 <= j < a.len() implies a[j] == b[j] by {
        if j < s.len() {
            assert(s.push(t)[j] == s[j]);
        } else {
            assert(s.push(t)[j] == t);
        }
    }
    assert(a =~= b);
}



/// A stored row: an exec value that hands out the key its view carries.
pub trait Entity: View where Self::V: Keyed {
    fn key(&self) -> (k: u64)
        ensures
            k == self@.key(),
    ;
}

/// Position of the first row of `v` carrying key `k`, if any.
pub fn index_of_key<T: Entity>(v: &Vec<T>, k: u64) -> (r: Option<usize>) where T::V: Keyed
    ensures
        match r {
            Some(i) => {
                &&& i < v.len()
                &&& views(v@)[i as int].key() == k
                &&& forall|j: int| 0 <= j < i ==> (#[trigger] views(v@)[j].key()) != k
            },
            None => !has_key(views(v@), k),
        },
{
    let n = v.len();
    let mut i: usize = 0;
    while i < n
        invariant
            i <= n,
            n == v.len(),
            forall|j: int| 0 <= j < i ==> (#[trigger] views(v@)[j].key()) != k,
        decreases n - i,
    {
        if v[i].key() == k {
            return Some(i);
        }
        i = i + 1;
    }
    proof {
        assert(!has_key(views(v@), k)) by {
            if has_key(views(v@), k) {
                let j = choose|j: int|
                    0 <= j < views(v@).len() && (#[trigger] views(v@)[j].key()) == k;
            }
        }
    }
    None
}

/// Remove the row of `v` carrying key `k`, if any, and hand it back.
pub fn remove_by_key<T: Entity>(v: &mut Vec<T>, k: u64) -> (r: Option<T>) where T::V: Keyed
    requires
        unique_keys(views(old(v)@)),
    ensures
        views(final(v)@) == remove_key(views(old(v)@), k),
        match r {
            Some(t) => lookup(views(old(v)@), k) == Some(t@),
            None => lookup(views(old(v)@), k) is None,
        },
{
    let ghost s0 = views(v@);
    match index_of_key(v, k) {
        Some(i) => {
            proof {
                lemma_lookup_found(s0, k, i as int);
                lemma_remove_key_at(s0, k, i as int);
            }
            let t = v.remove(i);
            proof {
                assert(views(v@) =~= s0.remove(i as int));
            }
            Some(t)
        },
        None => {
            proof {
                lemma_lookup_absent(s0, k);
                lemma_remove_key_absent(s0, k);
            }
            None
        },
    }
}

/// Replace the row of `v` carrying key `k` by `t`; report whether one stood
/// there. Where none does, `v` is unchanged and `t` is dropped.
pub fn replace_by_key<T: Entity>(v: &mut Vec<T>, k: u64, t: T) -> (found: bool) where T::V: Keyed
    requires
        t@.key() == k,
    ensures
        found == has_key(views(old(v)@), k),
        views(final(v)@) == (if found {
            replace_key(views(old(v)@), k, t@)
        } else {
            views(old(v)@)
        }),
{
    let ghost s0 = views(v@);
    match index_of_key(v, k) {
        Some(i) => {
            proof {
                lemma_replace_key_at(s0, k, t@, i as int);
            }
            let _ = v.remove(i);
            v.insert(i, t);
            proof {
                assert(views(v@) =~= s0.update(i as int, t@));
            }
            true
        },
        None => {
            false
        },
    }
}

} // verus!
