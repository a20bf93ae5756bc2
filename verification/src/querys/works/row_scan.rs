//! Reading query rows that each name a module or a box: a row without the
//! name stops the reading with an error, and a name seen before is skipped.
use vstd::prelude::*;
use crate::text::{contains_text, lemma_unique_contains, lemma_unique_distinct, unique_in_order, views};

verus! {

/// A query row that may name what it describes.
pub trait KeyedRow {
    /// The name the row holds, if any.
    spec fn row_key(&self) -> Option<Seq<char>>;

    /// The name the row holds, if any.
    fn key_ref(&self) -> (r: Option<&String>)
        ensures
            match r {
                Some(s) => self.row_key() == Some(s@),
                None => self.row_key() is None,
            },
    ;
}

/// The names the rows hold, in order.
pub open spec fn present_keys<T: KeyedRow>(rows: Seq<T>) -> Seq<Seq<char>>
    decreases rows.len(),
{
    if rows.len() == 0 {
        Seq::empty()
    } else {
        match rows.last().row_key() {
            Some(k) => present_keys(rows.drop_last()).push(k),
            None => present_keys(rows.drop_last()),
        }
    }
}

/// Reading the rows in order: whether a row without a name was met, and the
/// rows kept before it, each the first with its name.
pub open spec fn scan_keys<T: KeyedRow>(rows: Seq<T>) -> (bool, Seq<T>)
    decreases rows.len(),
{
    if rows.len() == 0 {
        (false, Seq::empty())
    } else {
        let (failed, kept) = scan_keys(rows.drop_last());
        if failed {
            (true, kept)
        } else {
            match rows.last().row_key() {
                None => (true, kept),
                Some(k) => if present_keys(rows.drop_last()).contains(k) {
                    (false, kept)
                } else {
                    (false, kept.push(rows.last()))
                },
            }
        }
    }
}

/// Reads the rows in order, stopping at the first row without a name; of the
/// rows read, keeps the first with each name. Returns whether it stopped
/// early, and the rows kept.
pub fn scan_rows<T: KeyedRow>(rows: Vec<T>) -> (r: (bool, Vec<T>))
    ensures
        r.0 == scan_keys(rows@).0,
        r.1@ == scan_keys(rows@).1,
{
    let ghost all = rows@;
    let n = rows.len();
    let mut rest = rows;
    let mut seen: Vec<String> = Vec::new();
    let mut kept: Vec<T> = Vec::new();
    let mut i: usize = 0;
    assert(all.take(0) =~= Seq::<T>::empty());
    while i < n
        invariant
            i <= n,
            n == all.len(),
            all == rows@,
            rest@ == all.skip(i as int),
            views(seen@) == present_keys(all.take(i as int)),
            !scan_keys(all.take(i as int)).0,
            kept@ == scan_keys(all.take(i as int)).1,
        decreases n - i,
    {
        let x = rest.remove(0);
        let ghost t = all.take(i as int);
        proof {
            assert(x == all[i as int]);
            assert(rest@ =~= all.skip(i + 1));
            assert(all.take(i + 1).drop_last() =~= t);
            assert(all.take(i + 1).last() == x);
        }
        let key = match x.key_ref() {
            Some(k) => k.clone(),
            None => {
                proof {
                    assert(scan_keys(all.take(i + 1)) == (true, scan_keys(t).1));
                    lemma_scan_failed_stays(all, i + 1);
                }
                return (true, kept);
            },
        };
        if contains_text(&seen, key.as_str()) {
            let ghost before = seen@;
            seen.push(key);
            assert(views(seen@) =~= views(before).push(x.row_key()->0));
        } else {
            let ghost before = seen@;
            seen.push(key);
            assert(views(seen@) =~= views(before).push(x.row_key()->0));
            kept.push(x);
        }
        i = i + 1;
    }
    assert(all.take(n as int) =~= all);
    (false, kept)
}

/// Once a row without a name is met, reading more rows changes nothing.
proof fn lemma_scan_failed_stays<T: KeyedRow>(all: Seq<T>, i: int)
    requires
        0 <= i <= all.len(),
        scan_keys(all.take(i)).0,
    ensures
        scan_keys(all) == scan_keys(all.take(i)),
    decreases all.len() - i,
{
    if i == all.len() {
        assert(all.take(i) =~= all);
    } else {
        let a = all.take(i + 1);
        assert(a.drop_last() =~= all.take(i));
        lemma_scan_failed_stays(all, i + 1);
    }
}

/// The names of rows that all have one.
pub open spec fn kept_keys<T: KeyedRow>(kept: Seq<T>) -> Seq<Seq<char>> {
    kept.map_values(|x: T| x.row_key()->0)
}

/// Reading rows keeps each name once: when no row lacks a name, the rows kept
/// have names, and their names are the distinct names of the rows, in the
/// order they first occur.
pub proof fn law_scan_keeps_each_name_once<T: KeyedRow>(rows: Seq<T>)
    requires
        !scan_keys(rows).0,
    ensures
        forall|i: int| 0 <= i < scan_keys(rows).1.len() ==> (#[trigger] scan_keys(rows).1[i]).row_key() is Some,
        kept_keys(scan_keys(rows).1) == unique_in_order(present_keys(rows)),
        forall|i: int, j: int|
            0 <= i < j < scan_keys(rows).1.len() ==> #[trigger] scan_keys(rows).1[i].row_key() != #[trigger] scan_keys(rows).1[j].row_key(),
    decreases rows.len(),
{
    if rows.len() == 0 {
        assert(kept_keys(scan_keys(rows).1) =~= Seq::<Seq<char>>::empty());
    } else {
        let t = rows.drop_last();
        let x = rows.last();
        law_scan_keeps_each_name_once(t);
        let kt = scan_keys(t).1;
        let k = x.row_key()->0;
        assert(present_keys(rows) == present_keys(t).push(k));
        assert(present_keys(rows).drop_last() =~= present_keys(t));
        lemma_unique_contains(present_keys(t), k);
        if present_keys(t).contains(k) {
            assert(scan_keys(rows).1 == kt);
        } else {
            assert(scan_keys(rows).1 == kt.push(x));
            assert(kept_keys(kt.push(x)) =~= kept_keys(kt).push(k));
        }
    }
    let kept = scan_keys(rows).1;
    lemma_unique_distinct(present_keys(rows));
    assert forall|i: int, j: int|
        0 <= i < j < kept.len() implies #[trigger] kept[i].row_key() != #[trigger] kept[j].row_key() by {
        assert(kept_keys(kept)[i] == kept[i].row_key()->0);
        assert(kept_keys(kept)[j] == kept[j].row_key()->0);
    }
}

} // verus!
