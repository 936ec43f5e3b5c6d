//! Lists of dated things, the newest first.
use vstd::prelude::*;

use crate::text::{before, is_before, lemma_before_total, lemma_before_transitive, same};

verus! {

/// Something with a date, written so that the order of the texts is that of the
/// dates.
pub trait Dated: Sized {
    spec fn date(&self) -> Seq<char>;

    fn created(&self) -> (r: &str)
        ensures
            r@ == self.date(),
    ;
}

/// `s` with `x` in it, before all that is older at its end.
pub open spec fn inserted<T: Dated>(s: Seq<T>, x: T) -> Seq<T>
    decreases s.len(),
{
    if s.len() > 0 && before(s.last().date(), x.date()) {
        inserted(s.drop_last(), x).push(s.last())
    } else {
        s.push(x)
    }
}

/// `s` with the newest first; what has the same date keeps its order.
pub open spec fn newest_first<T: Dated>(s: Seq<T>) -> Seq<T>
    decreases s.len(),
{
    if s.len() == 0 {
        s
    } else {
        inserted(newest_first(s.drop_last()), s.last())
    }
}

/// Whether no element comes before a newer one.
pub open spec fn is_newest_first<T: Dated>(s: Seq<T>) -> bool {
    forall|i: int, j: int|
        0 <= i <= j < s.len() ==> !before((#[trigger] s[i]).date(), (#[trigger] s[j]).date())
}

proof fn lemma_inserted_at<T: Dated>(s: Seq<T>, x: T, k: int)
    requires
        0 <= k <= s.len(),
        forall|i: int| k <= i < s.len() ==> before((#[trigger] s[i]).date(), x.date()),
        k > 0 ==> !before(s[k - 1].date(), x.date()),
    ensures
        inserted(s, x) == s.take(k) + seq![x] + s.skip(k),
    decreases s.len(),
{
    if k < s.len() {
        lemma_inserted_at(s.drop_last(), x, k);
        assert(s.drop_last().take(k) =~= s.take(k));
        assert(s.drop_last().skip(k).push(s.last()) =~= s.skip(k));
        assert(inserted(s, x) =~= s.take(k) + seq![x] + s.skip(k));
    } else {
        assert(s.push(x) =~= s.take(k) + seq![x] + s.skip(k));
    }
}

proof fn lemma_inserted_len<T: Dated>(s: Seq<T>, x: T)
    ensures
        inserted(s, x).len() == s.len() + 1,
    decreases s.len(),
{
    if s.len() > 0 && before(s.last().date(), x.date()) {
        lemma_inserted_len(s.drop_last(), x);
    }
}

/// Sorting keeps the number of elements.
pub proof fn lemma_newest_first_len<T: Dated>(s: Seq<T>)
    ensures
        newest_first(s).len() == s.len(),
    decreases s.len(),
{
    if s.len() > 0 {
        lemma_newest_first_len(s.drop_last());
        lemma_inserted_len(newest_first(s.drop_last()), s.last());
    }
}

/// Sorts a list, the newest first.
pub fn sort_newest_first<T: Dated>(items: &mut Vec<T>)
    ensures
        final(items)@ == newest_first(old(items)@),
{
    let ghost all = items@;
    let n: usize = items.len();
    let mut i: usize = 0;
    assert(items@ =~= newest_first(all.take(0)) + all.skip(0));
    while i < n
        invariant
            i <= n,
            n == all.len(),
            all == old(items)@,
            items@ == newest_first(all.take(i as int)) + all.skip(i as int),
            newest_first(all.take(i as int)).len() == i,
        decreases n - i,
    {
        let ghost done = newest_first(all.take(i as int));
        assert(items@.len() == n);
        let x = items.remove(i);
        assert(x == all[i as int]);
        assert(items@ =~= done + all.skip(i + 1));
        let mut k: usize = i;
        while k > 0 && is_before(items[k - 1].created(), x.created())
            invariant
                k <= i,
                i < n,
                items@ == done + all.skip(i + 1),
                done.len() == i,
                forall|m: int| k <= m < i ==> before((#[trigger] done[m]).date(), x.date()),
            decreases k,
        {
            assert(items@[k - 1] == done[k - 1]);
            k = k - 1;
        }
        proof {
            if k > 0 {
                assert(items@[k - 1] == done[k - 1]);
            }
            lemma_inserted_at(done, x, k as int);
            assert(all.take(i + 1).drop_last() =~= all.take(i as int));
            lemma_newest_first_len(all.take(i + 1));
        }
        let ghost item = x;
        items.insert(k, x);
        assert(items@ =~= done.take(k as int) + seq![item] + done.skip(k as int) + all.skip(i + 1));
        i = i + 1;
    }
    assert(all.take(n as int) =~= all);
    assert(items@ =~= newest_first(all));
}

proof fn lemma_inserted_sorted<T: Dated>(s: Seq<T>, x: T)
    requires
        is_newest_first(s),
    ensures
        is_newest_first(inserted(s, x)),
        inserted(s, x).to_multiset() == s.to_multiset().insert(x),
        forall|i: int|
            0 <= i < inserted(s, x).len() ==> (#[trigger] inserted(s, x)[i]) == x || exists|k: int|
                0 <= k < s.len() && s[k] == inserted(s, x)[i],
    decreases s.len(),
{
    broadcast use vstd::seq_lib::group_to_multiset_ensures;

    if s.len() > 0 && before(s.last().date(), x.date()) {
        let front = s.drop_last();
        lemma_inserted_sorted(front, x);
        let r = inserted(front, x);
        let all = inserted(s, x);
        assert(s =~= front.push(s.last()));
        assert forall|i: int, j: int| 0 <= i <= j < all.len() implies !before(
            (#[trigger] all[i]).date(),
            (#[trigger] all[j]).date(),
        ) by {
            if j == r.len() {
                if i < r.len() {
                    assert(all[i] == r[i]);
                    if r[i] == x {
                        lemma_before_total(x.date(), s.last().date());
                    } else {
                        let k = choose|k: int| 0 <= k < front.len() && front[k] == r[i];
                        assert(s[k] == r[i]);
                    }
                } else {
                    lemma_before_total(s.last().date(), s.last().date());
                }
            } else {
                assert(all[i] == r[i] && all[j] == r[j]);
            }
        }
        assert forall|i: int| 0 <= i < all.len() implies (#[trigger] all[i]) == x || exists|k: int|
            0 <= k < s.len() && s[k] == all[i] by {
            if i < r.len() {
                assert(all[i] == r[i]);
                if r[i] != x {
                    let k = choose|k: int| 0 <= k < front.len() && front[k] == r[i];
                    assert(s[k] == all[i]);
                }
            } else {
                assert(s[s.len() - 1] == all[i]);
            }
        }
        assert(s.to_multiset() == front.to_multiset().insert(s.last()));
        assert(all.to_multiset() == r.to_multiset().insert(s.last()));
        assert(front.to_multiset().insert(x).insert(s.last()) =~= front.to_multiset().insert(
            s.last(),
        ).insert(x));
    } else {
        let all = s.push(x);
        assert forall|i: int, j: int| 0 <= i <= j < all.len() implies !before(
            (#[trigger] all[i]).date(),
            (#[trigger] all[j]).date(),
        ) by {
            if j == s.len() {
                if i < s.len() {
                    let last = s[s.len() - 1].date();
                    assert(!before(s[i].date(), last));
                    assert(!before(last, x.date()));
                    lemma_not_before(s[i].date(), last, x.date());
                } else {
                    lemma_before_total(x.date(), x.date());
                }
            }
        }
        assert forall|i: int| 0 <= i < all.len() implies (#[trigger] all[i]) == x || exists|k: int|
            0 <= k < s.len() && s[k] == all[i] by {
            if i < s.len() {
                assert(s[i] == all[i]);
            }
        }
    }
}

proof fn lemma_not_before(a: Seq<char>, b: Seq<char>, c: Seq<char>)
    requires
        !before(a, b),
        !before(b, c),
    ensures
        !before(a, c),
{
    lemma_before_total(a, b);
    lemma_before_total(b, c);
    lemma_before_total(a, c);
    if before(a, c) {
        if a == b || b == c {
        } else {
            lemma_before_transitive(c, b, a);
            lemma_before_total(c, a);
        }
    }
}

/// Sorting puts the newest first, and neither loses nor adds anything.
pub proof fn law_sorted<T: Dated>(s: Seq<T>)
    ensures
        is_newest_first(newest_first(s)),
        newest_first(s).to_multiset() == s.to_multiset(),
    decreases s.len(),
{
    broadcast use vstd::seq_lib::group_to_multiset_ensures;

    if s.len() > 0 {
        law_sorted(s.drop_last());
        lemma_inserted_sorted(newest_first(s.drop_last()), s.last());
        assert(s =~= s.drop_last().push(s.last()));
    }
}

/// Whether `x` has the date `d`.
pub open spec fn dated<T: Dated>(d: Seq<char>) -> spec_fn(T) -> bool {
    |x: T| x.date() == d
}

proof fn lemma_inserted_stable<T: Dated>(s: Seq<T>, x: T, d: Seq<char>)
    ensures
        inserted(s, x).filter(dated::<T>(d)) == if x.date() == d {
            s.filter(dated::<T>(d)).push(x)
        } else {
            s.filter(dated::<T>(d))
        },
    decreases s.len(),
{
    reveal(Seq::filter);
    if s.len() > 0 && before(s.last().date(), x.date()) {
        lemma_inserted_stable(s.drop_last(), x, d);
        lemma_before_total(s.last().date(), x.date());
        assert(inserted(s, x).drop_last() =~= inserted(s.drop_last(), x));
    } else {
        assert(s.push(x).drop_last() =~= s);
    }
}

/// Sorting keeps the order of what has the same date.
pub proof fn law_sorting_is_stable<T: Dated>(s: Seq<T>, d: Seq<char>)
    ensures
        newest_first(s).filter(dated::<T>(d)) == s.filter(dated::<T>(d)),
    decreases s.len(),
{
    reveal(Seq::filter);
    if s.len() > 0 {
        law_sorting_is_stable(s.drop_last(), d);
        lemma_inserted_stable(newest_first(s.drop_last()), s.last(), d);
    }
}

// ---- entries ----

/// A dated thing that is found by its identity.
pub trait Entry: Dated {
    spec fn key(&self) -> Seq<char>;

    fn id(&self) -> (r: &str)
        ensures
            r@ == self.key(),
    ;
}

/// The first entry, from `from` on, with this identity.
pub open spec fn first_with<T: Entry>(s: Seq<T>, key: Seq<char>, from: int) -> Option<int>
    decreases s.len() - from,
{
    if from < 0 || from >= s.len() {
        None
    } else if s[from].key() == key {
        Some(from)
    } else {
        first_with(s, key, from + 1)
    }
}

/// Finds the first entry with this identity.
pub fn find_entry<T: Entry>(items: &Vec<T>, key: &str) -> (r: Option<usize>)
    ensures
        match r {
            Some(i) => i < items.len() && first_with(items@, key@, 0) == Some(i as int),
            None => first_with(items@, key@, 0) is None,
        },
{
    let mut i: usize = 0;
    while i < items.len()
        invariant
            i <= items.len(),
            first_with(items@, key@, 0) == first_with(items@, key@, i as int),
        decreases items.len() - i,
    {
        if same(items[i].id(), key) {
            return Some(i);
        }
        i = i + 1;
    }
    None
}

/// The place of the first entry with an identity holds that identity, and no
/// earlier place does.
pub proof fn lemma_first_with<T: Entry>(s: Seq<T>, key: Seq<char>, from: int)
    requires
        0 <= from,
    ensures
        match first_with(s, key, from) {
            Some(i) => from <= i < s.len() && s[i].key() == key && forall|k: int|
                from <= k < i ==> (#[trigger] s[k]).key() != key,
            None => forall|k: int| from <= k < s.len() ==> (#[trigger] s[k]).key() != key,
        },
    decreases s.len() - from,
{
    if from < s.len() && s[from].key() != key {
        lemma_first_with(s, key, from + 1);
    }
}

/// `s` with `x` at its end.
pub open spec fn with_new<T: Dated>(s: Seq<T>, x: T) -> Seq<T> {
    newest_first(s.push(x))
}

/// The first `n` of a list, or all of it.
pub open spec fn at_most<T>(s: Seq<T>, n: int) -> Seq<T> {
    if s.len() <= n {
        s
    } else {
        s.take(n)
    }
}

/// Something new that is newer than all else comes first, and stays in the list however
/// short it is cut.
pub proof fn law_newest_is_kept<T: Dated>(s: Seq<T>, x: T, n: int)
    requires
        n >= 1,
        forall|i: int| 0 <= i < s.len() ==> before((#[trigger] s[i]).date(), x.date()),
    ensures
        at_most(with_new(s, x), n).len() >= 1,
        at_most(with_new(s, x), n)[0] == x,
{
    broadcast use vstd::seq_lib::group_to_multiset_ensures;

    let done = newest_first(s);
    assert(s.push(x).drop_last() =~= s);
    law_sorted(s);
    assert forall|i: int| 0 <= i < done.len() implies before(
        (#[trigger] done[i]).date(),
        x.date(),
    ) by {
        assert(done.to_multiset().count(done[i]) > 0);
        assert(s.contains(done[i]));
        let k = choose|k: int| 0 <= k < s.len() && s[k] == done[i];
        assert(before(s[k].date(), x.date()));
    }
    lemma_inserted_at(done, x, 0);
}

/// What is behind the first `n` of a list, from its end.
pub open spec fn beyond<T>(s: Seq<T>, n: int) -> Seq<T> {
    if s.len() <= n {
        seq![]
    } else {
        s.skip(n).reverse()
    }
}

/// Takes entries off the end of a list until `n` are left. Returns what was
/// taken off.
pub fn cut_to<T>(items: &mut Vec<T>, n: usize) -> (r: Vec<T>)
    ensures
        final(items)@ == at_most(old(items)@, n as int),
        r@ == beyond(old(items)@, n as int),
{
    let ghost all = items@;
    let mut gone: Vec<T> = Vec::new();
    assert(all.skip(all.len() as int).reverse() =~= Seq::<T>::empty());
    assert(all.take(all.len() as int) =~= all);
    while items.len() > n
        invariant
            all == old(items)@,
            items.len() <= all.len(),
            items.len() >= n || items.len() == all.len(),
            items@ == all.take(items@.len() as int),
            gone@ == all.skip(items@.len() as int).reverse(),
        decreases items.len(),
    {
        let ghost m = items@.len() as int;
        if let Some(x) = items.pop() {
            assert(items@ =~= all.take(m - 1));
            gone.push(x);
            assert(gone@ =~= all.skip(m - 1).reverse());
        }
    }
    gone
}

// ---- names ----

/// `s` with `x` in it, before all that comes after `x` at its end.
pub open spec fn name_inserted(s: Seq<String>, x: String) -> Seq<String>
    decreases s.len(),
{
    if s.len() > 0 && before(x@, s.last()@) {
        name_inserted(s.drop_last(), x).push(s.last())
    } else {
        s.push(x)
    }
}

/// Names in the order of their texts.
pub open spec fn sorted_names(s: Seq<String>) -> Seq<String>
    decreases s.len(),
{
    if s.len() == 0 {
        s
    } else {
        name_inserted(sorted_names(s.drop_last()), s.last())
    }
}

/// Whether no name comes before an earlier one.
pub open spec fn names_in_order(s: Seq<String>) -> bool {
    forall|i: int, j: int| 0 <= i <= j < s.len() ==> !before((#[trigger] s[j])@, (#[trigger] s[i])@)
}

proof fn lemma_name_inserted_at(s: Seq<String>, x: String, k: int)
    requires
        0 <= k <= s.len(),
        forall|i: int| k <= i < s.len() ==> before(x@, (#[trigger] s[i])@),
        k > 0 ==> !before(x@, s[k - 1]@),
    ensures
        name_inserted(s, x) == s.take(k) + seq![x] + s.skip(k),
    decreases s.len(),
{
    if k < s.len() {
        lemma_name_inserted_at(s.drop_last(), x, k);
        assert(s.drop_last().take(k) =~= s.take(k));
        assert(s.drop_last().skip(k).push(s.last()) =~= s.skip(k));
        assert(name_inserted(s, x) =~= s.take(k) + seq![x] + s.skip(k));
    } else {
        assert(s.push(x) =~= s.take(k) + seq![x] + s.skip(k));
    }
}

proof fn lemma_name_inserted_len(s: Seq<String>, x: String)
    ensures
        name_inserted(s, x).len() == s.len() + 1,
    decreases s.len(),
{
    if s.len() > 0 && before(x@, s.last()@) {
        lemma_name_inserted_len(s.drop_last(), x);
    }
}

proof fn lemma_sorted_names_len(s: Seq<String>)
    ensures
        sorted_names(s).len() == s.len(),
    decreases s.len(),
{
    if s.len() > 0 {
        lemma_sorted_names_len(s.drop_last());
        lemma_name_inserted_len(sorted_names(s.drop_last()), s.last());
    }
}

/// Sorts names by their texts.
pub fn sort_names(items: &mut Vec<String>)
    ensures
        final(items)@ == sorted_names(old(items)@),
{
    let ghost all = items@;
    let n: usize = items.len();
    let mut i: usize = 0;
    assert(items@ =~= sorted_names(all.take(0)) + all.skip(0));
    while i < n
        invariant
            i <= n,
            n == all.len(),
            all == old(items)@,
            items@ == sorted_names(all.take(i as int)) + all.skip(i as int),
            sorted_names(all.take(i as int)).len() == i,
        decreases n - i,
    {
        let ghost done = sorted_names(all.take(i as int));
        assert(items@.len() == n);
        let x = items.remove(i);
        assert(x == all[i as int]);
        assert(items@ =~= done + all.skip(i + 1));
        let mut k: usize = i;
        while k > 0 && is_before(x.as_str(), items[k - 1].as_str())
            invariant
                k <= i,
                i < n,
                items@ == done + all.skip(i + 1),
                done.len() == i,
                forall|m: int| k <= m < i ==> before(x@, (#[trigger] done[m])@),
            decreases k,
        {
            assert(items@[k - 1] == done[k - 1]);
            k = k - 1;
        }
        proof {
            if k > 0 {
                assert(items@[k - 1] == done[k - 1]);
            }
            lemma_name_inserted_at(done, x, k as int);
            assert(all.take(i + 1).drop_last() =~= all.take(i as int));
            lemma_sorted_names_len(all.take(i + 1));
        }
        let ghost item = x;
        items.insert(k, x);
        assert(items@ =~= done.take(k as int) + seq![item] + done.skip(k as int) + all.skip(i + 1));
        i = i + 1;
    }
    assert(all.take(n as int) =~= all);
    assert(items@ =~= sorted_names(all));
}

proof fn lemma_name_inserted_sorted(s: Seq<String>, x: String)
    requires
        names_in_order(s),
    ensures
        names_in_order(name_inserted(s, x)),
        name_inserted(s, x).to_multiset() == s.to_multiset().insert(x),
        forall|i: int|
            0 <= i < name_inserted(s, x).len() ==> (#[trigger] name_inserted(s, x)[i]) == x
                || exists|k: int| 0 <= k < s.len() && s[k] == name_inserted(s, x)[i],
    decreases s.len(),
{
    broadcast use vstd::seq_lib::group_to_multiset_ensures;

    if s.len() > 0 && before(x@, s.last()@) {
        let front = s.drop_last();
        lemma_name_inserted_sorted(front, x);
        let r = name_inserted(front, x);
        let all = name_inserted(s, x);
        assert(s =~= front.push(s.last()));
        assert forall|i: int, j: int| 0 <= i <= j < all.len() implies !before(
            (#[trigger] all[j])@,
            (#[trigger] all[i])@,
        ) by {
            if j == r.len() {
                if i < r.len() {
                    assert(all[i] == r[i]);
                    if r[i] == x {
                        lemma_before_total(x@, s.last()@);
                    } else {
                        let k = choose|k: int| 0 <= k < front.len() && front[k] == r[i];
                        assert(s[k] == r[i]);
                    }
                } else {
                    lemma_before_total(s.last()@, s.last()@);
                }
            } else {
                assert(all[i] == r[i] && all[j] == r[j]);
            }
        }
        assert forall|i: int| 0 <= i < all.len() implies (#[trigger] all[i]) == x || exists|k: int|
            0 <= k < s.len() && s[k] == all[i] by {
            if i < r.len() {
                assert(all[i] == r[i]);
                if r[i] != x {
                    let k = choose|k: int| 0 <= k < front.len() && front[k] == r[i];
                    assert(s[k] == all[i]);
                }
            } else {
                assert(s[s.len() - 1] == all[i]);
            }
        }
        assert(front.to_multiset().insert(x).insert(s.last()) =~= front.to_multiset().insert(
            s.last(),
        ).insert(x));
    } else {
        let all = s.push(x);
        assert forall|i: int, j: int| 0 <= i <= j < all.len() implies !before(
            (#[trigger] all[j])@,
            (#[trigger] all[i])@,
        ) by {
            if j == s.len() {
                if i < s.len() {
                    let last = s[s.len() - 1]@;
                    assert(!before(last, s[i]@));
                    assert(!before(x@, last));
                    lemma_not_before(x@, last, s[i]@);
                } else {
                    lemma_before_total(x@, x@);
                }
            }
        }
        assert forall|i: int| 0 <= i < all.len() implies (#[trigger] all[i]) == x || exists|k: int|
            0 <= k < s.len() && s[k] == all[i] by {
            if i < s.len() {
                assert(s[i] == all[i]);
            }
        }
    }
}

/// Sorting names puts them in order, and neither loses nor adds any.
pub proof fn law_names_sorted(s: Seq<String>)
    ensures
        names_in_order(sorted_names(s)),
        sorted_names(s).to_multiset() == s.to_multiset(),
    decreases s.len(),
{
    broadcast use vstd::seq_lib::group_to_multiset_ensures;

    if s.len() > 0 {
        law_names_sorted(s.drop_last());
        lemma_name_inserted_sorted(sorted_names(s.drop_last()), s.last());
        assert(s =~= s.drop_last().push(s.last()));
    }
}

/// The first `n` names without those that repeat the one before them.
pub open spec fn without_repeats(s: Seq<String>, n: int) -> Seq<String>
    decreases n,
{
    if n <= 0 {
        seq![]
    } else if n > 1 && s[n - 1]@ == s[n - 2]@ {
        without_repeats(s, n - 1)
    } else {
        without_repeats(s, n - 1).push(s[n - 1])
    }
}

/// Leaves out the names that repeat the one before them.
pub fn drop_repeats(items: &Vec<String>) -> (r: Vec<String>)
    ensures
        r@ == without_repeats(items@, items@.len() as int),
{
    let mut out: Vec<String> = Vec::new();
    let mut i: usize = 0;
    while i < items.len()
        invariant
            i <= items.len(),
            out@ == without_repeats(items@, i as int),
        decreases items.len() - i,
    {
        if i == 0 || !same(items[i].as_str(), items[i - 1].as_str()) {
            out.push(items[i].clone());
        }
        i = i + 1;
    }
    out
}

proof fn lemma_without_repeats(s: Seq<String>, n: int)
    requires
        0 <= n <= s.len(),
        names_in_order(s),
    ensures
        n > 0 ==> without_repeats(s, n).len() > 0 && without_repeats(s, n).last()@ == s[n - 1]@,
        forall|i: int, j: int|
            0 <= i < j < without_repeats(s, n).len() ==> before(
                (#[trigger] without_repeats(s, n)[i])@,
                (#[trigger] without_repeats(s, n)[j])@,
            ),
    decreases n,
{
    if n > 0 {
        lemma_without_repeats(s, n - 1);
        let front = without_repeats(s, n - 1);
        let all = without_repeats(s, n);
        if !(n > 1 && s[n - 1]@ == s[n - 2]@) && n > 1 {
            assert(!before(s[n - 1]@, s[n - 2]@));
            lemma_before_total(s[n - 2]@, s[n - 1]@);
            assert(before(front.last()@, s[n - 1]@));
            assert forall|i: int, j: int| 0 <= i < j < all.len() implies before(
                (#[trigger] all[i])@,
                (#[trigger] all[j])@,
            ) by {
                if j == front.len() {
                    assert(all[i] == front[i]);
                    if i < front.len() - 1 {
                        assert(before(front[i]@, front[front.len() - 1]@));
                        lemma_before_transitive(front[i]@, front.last()@, s[n - 1]@);
                    }
                } else {
                    assert(all[i] == front[i] && all[j] == front[j]);
                }
            }
        }
    }
}

/// Of sorted names, dropping the repetitions leaves each name once, in order.
pub proof fn law_repeats_dropped(s: Seq<String>, i: int, j: int)
    requires
        names_in_order(s),
        0 <= i < j < without_repeats(s, s.len() as int).len(),
    ensures
        before(
            without_repeats(s, s.len() as int)[i]@,
            without_repeats(s, s.len() as int)[j]@,
        ),
{
    lemma_without_repeats(s, s.len() as int);
}

/// When something new comes into a list that is cut to `n`, the list holds as many as it may,
/// the newest first; what leaves it is what it held or the new thing, and none of that is
/// newer than what stays.
pub proof fn law_kept_and_gone<T: Dated>(s: Seq<T>, x: T, n: int)
    requires
        n >= 0,
    ensures
        ({
            let kept = at_most(with_new(s, x), n);
            let gone = beyond(with_new(s, x), n);
            &&& s.len() < n ==> kept.len() == s.len() + 1
            &&& s.len() >= n ==> kept.len() == n
            &&& kept.to_multiset().add(gone.to_multiset()) =~= s.to_multiset().insert(x)
            &&& forall|i: int, j: int|
                0 <= i < j < kept.len() ==> !before(
                    (#[trigger] kept[i]).date(),
                    (#[trigger] kept[j]).date(),
                )
            &&& forall|i: int, j: int|
                0 <= i < kept.len() && 0 <= j < gone.len() ==> !before(
                    (#[trigger] kept[i]).date(),
                    (#[trigger] gone[j]).date(),
                )
        }),
{
    broadcast use vstd::seq_lib::group_to_multiset_ensures;

    let all = with_new(s, x);
    let kept = at_most(all, n);
    let gone = beyond(all, n);
    law_sorted(s.push(x));
    lemma_newest_first_len(s.push(x));
    if all.len() <= n {
        assert(gone.to_multiset() =~= vstd::multiset::Multiset::empty());
        assert(kept.to_multiset().add(gone.to_multiset()) =~= all.to_multiset());
    } else {
        all.skip(n).lemma_reverse_to_multiset();
        assert(all.take(n) + all.skip(n) =~= all);
        vstd::seq_lib::lemma_multiset_commutative(all.take(n), all.skip(n));
        assert forall|i: int, j: int| 0 <= i < kept.len() && 0 <= j < gone.len() implies !before(
            (#[trigger] kept[i]).date(),
            (#[trigger] gone[j]).date(),
        ) by {
            assert(gone[j] == all[all.len() - 1 - j]);
            assert(kept[i] == all[i]);
        }
    }
    assert forall|i: int, j: int| 0 <= i < j < kept.len() implies !before(
        (#[trigger] kept[i]).date(),
        (#[trigger] kept[j]).date(),
    ) by {
        assert(kept[i] == all[i] && kept[j] == all[j]);
    }
}

/// Names that are sorted and rid of repetitions are those that there were, all of them and
/// nothing else, each once and in the order of the texts.
pub proof fn law_names_listed(s: Seq<String>, name: Seq<char>)
    ensures
        ({
            let sorted = sorted_names(s);
            let r = without_repeats(sorted, sorted.len() as int);
            &&& (exists|i: int| 0 <= i < r.len() && (#[trigger] r[i])@ == name) <==> (exists|i: int|
                0 <= i < s.len() && (#[trigger] s[i])@ == name)
            &&& forall|i: int, j: int|
                0 <= i < j < r.len() ==> before((#[trigger] r[i])@, (#[trigger] r[j])@)
        }),
{
    broadcast use vstd::seq_lib::group_to_multiset_ensures;

    let sorted = sorted_names(s);
    let r = without_repeats(sorted, sorted.len() as int);
    law_names_sorted(s);
    lemma_without_repeats(sorted, sorted.len() as int);
    lemma_repeats_keep(sorted, sorted.len() as int, name);
    if exists|i: int| 0 <= i < sorted.len() && (#[trigger] sorted[i])@ == name {
        let i = choose|i: int| 0 <= i < sorted.len() && (#[trigger] sorted[i])@ == name;
        assert(sorted.to_multiset().count(sorted[i]) > 0);
        assert(s.contains(sorted[i]));
        let k = choose|k: int| 0 <= k < s.len() && s[k] == sorted[i];
        assert(s[k]@ == name);
    }
    if exists|i: int| 0 <= i < s.len() && (#[trigger] s[i])@ == name {
        let i = choose|i: int| 0 <= i < s.len() && (#[trigger] s[i])@ == name;
        assert(s.to_multiset().count(s[i]) > 0);
        assert(sorted.contains(s[i]));
        let k = choose|k: int| 0 <= k < sorted.len() && sorted[k] == s[i];
        assert(sorted[k]@ == name);
    }
}

proof fn lemma_repeats_keep(s: Seq<String>, n: int, name: Seq<char>)
    requires
        0 <= n <= s.len(),
    ensures
        (exists|i: int| 0 <= i < without_repeats(s, n).len() && (#[trigger] without_repeats(s, n)[i])@
            == name) <==> (exists|i: int| 0 <= i < n && (#[trigger] s[i])@ == name),
    decreases n,
{
    if n > 0 {
        lemma_repeats_keep(s, n - 1, name);
        let front = without_repeats(s, n - 1);
        let all = without_repeats(s, n);
        if exists|i: int| 0 <= i < all.len() && (#[trigger] all[i])@ == name {
            let i = choose|i: int| 0 <= i < all.len() && (#[trigger] all[i])@ == name;
            if i < front.len() {
                assert(front[i]@ == name);
                let k = choose|k: int| 0 <= k < n - 1 && (#[trigger] s[k])@ == name;
                assert(s[k]@ == name);
            } else {
                assert(s[n - 1]@ == name);
            }
        }
        if exists|i: int| 0 <= i < n && (#[trigger] s[i])@ == name {
            let i = choose|i: int| 0 <= i < n && (#[trigger] s[i])@ == name;
            if i == n - 1 && n > 1 && s[n - 1]@ == s[n - 2]@ {
                assert(s[n - 2]@ == name);
            }
            if i == n - 1 && !(n > 1 && s[n - 1]@ == s[n - 2]@) {
                assert(all[front.len() as int]@ == name);
            } else {
                assert(exists|k: int| 0 <= k < n - 1 && (#[trigger] s[k])@ == name);
                let k = choose|k: int| 0 <= k < front.len() && (#[trigger] front[k])@ == name;
                assert(all[k]@ == name);
            }
        }
    }
}

} // verus!
