//! Stable ordering of rows by their box number.
//!
//! Query results are shown and exported ordered by box number, compared as
//! text (byte-wise, as `str` compares). Rows with the same box number keep
//! the order they came in.
use vstd::prelude::*;
use crate::text::{bytes_lt, slice_lt, utf8};
use crate::strmap::{text_lookup, StrMap};
use crate::records::{BoxBandData, Datas};

verus! {

/// `bytes_lt` never holds of a value and itself.
pub proof fn lemma_bytes_lt_irreflexive(a: Seq<u8>)
    ensures
        !bytes_lt(a, a),
    decreases a.len(),
{
    if a.len() > 0 {
        lemma_bytes_lt_irreflexive(a.drop_first());
    }
}

/// `bytes_lt` is transitive.
pub proof fn lemma_bytes_lt_transitive(a: Seq<u8>, b: Seq<u8>, c: Seq<u8>)
    requires
        bytes_lt(a, b),
        bytes_lt(b, c),
    ensures
        bytes_lt(a, c),
    decreases a.len(),
{
    if a.len() > 0 && b.len() > 0 && c.len() > 0 && a[0] == b[0] && b[0] == c[0] {
        lemma_bytes_lt_transitive(a.drop_first(), b.drop_first(), c.drop_first());
    }
}

/// Of two different values, one is `bytes_lt` the other.
pub proof fn lemma_bytes_lt_total(a: Seq<u8>, b: Seq<u8>)
    requires
        a != b,
    ensures
        bytes_lt(a, b) || bytes_lt(b, a),
    decreases a.len(),
{
    if a.len() == 0 {
        if b.len() == 0 {
            assert(a =~= b);
        }
    } else if b.len() == 0 {
    } else if a[0] == b[0] {
        if a.drop_first() == b.drop_first() {
            assert(a =~= seq![a[0]] + a.drop_first());
            assert(b =~= seq![b[0]] + b.drop_first());
        }
        lemma_bytes_lt_total(a.drop_first(), b.drop_first());
    }
}

/// A row that can be ordered by its box number.
pub trait BoxKeyed {
    /// Whether the row has a box number.
    spec fn has_box_key(&self) -> bool;

    /// The UTF-8 bytes of its box number.
    spec fn box_key(&self) -> Seq<u8>;

    /// The bytes of its box number.
    fn box_key_bytes(&self) -> (r: &[u8])
        requires
            self.has_box_key(),
        ensures
            r@ == self.box_key(),
    ;
}

/// `r` lists the rows of `s` in the order `p` picks them: `r[i]` is `s[p[i]]`,
/// and `p` uses each position of `s` once.
pub open spec fn permuted_by<T>(r: Seq<T>, s: Seq<T>, p: Seq<int>) -> bool {
    &&& p.len() == s.len()
    &&& r.len() == s.len()
    &&& forall|i: int| 0 <= i < p.len() ==> 0 <= #[trigger] p[i] < s.len()
    &&& forall|i: int, j: int| 0 <= i < j < p.len() ==> p[i] != p[j]
    &&& forall|i: int| 0 <= i < r.len() ==> r[i] == s[#[trigger] p[i]]
}

/// No row sorts after a later one.
pub open spec fn sorted_by_box<T: BoxKeyed>(r: Seq<T>) -> bool {
    forall|i: int, j: int| 0 <= i < j < r.len() ==> !bytes_lt(#[trigger] r[j].box_key(), #[trigger] r[i].box_key())
}

/// `r` is `s` sorted by box number, with rows of equal box number in their order in `s`.
pub open spec fn stable_sort_of<T: BoxKeyed>(r: Seq<T>, s: Seq<T>) -> bool {
    exists|p: Seq<int>| {
        &&& permuted_by(r, s, p)
        &&& sorted_by_box(r)
        &&& forall|i: int, j: int|
            0 <= i < j < r.len() && r[i].box_key() == r[j].box_key() ==> #[trigger] p[i] < #[trigger] p[j]
    }
}

/// Sorts rows by box number, keeping rows with equal box numbers in their order.
pub fn sort_by_box_no<T: BoxKeyed>(v: Vec<T>) -> (r: Vec<T>)
    requires
        forall|i: int| 0 <= i < v@.len() ==> #[trigger] v@[i].has_box_key(),
    ensures
        stable_sort_of(r@, v@),
{
    let ghost s = v@;
    let n = v.len();
    let mut rest = v;
    let mut r: Vec<T> = Vec::new();
    let ghost mut p: Seq<int> = Seq::empty();
    let mut k: usize = 0;
    while k < n
        invariant
            n == s.len(),
            k <= n,
            rest@ == s.skip(k as int),
            r@.len() == k,
            p.len() == k,
            forall|i: int| 0 <= i < p.len() ==> 0 <= #[trigger] p[i] < k,
            forall|i: int, j: int| 0 <= i < j < p.len() ==> p[i] != p[j],
            forall|i: int| 0 <= i < r@.len() ==> r@[i] == s[#[trigger] p[i]],
            forall|i: int| 0 <= i < s.len() ==> #[trigger] s[i].has_box_key(),
            sorted_by_box(r@),
            forall|i: int, j: int|
                0 <= i < j < r@.len() && r@[i].box_key() == r@[j].box_key() ==> #[trigger] p[i] < #[trigger] p[j],
        decreases n - k,
    {
        let x = rest.remove(0);
        assert(x == s[k as int]);
        assert(rest@ =~= s.skip(k + 1));
        let mut pos: usize = 0;
        assert forall|i: int| 0 <= i < r@.len() implies #[trigger] r@[i].has_box_key() by {
            assert(r@[i] == s[p[i]]);
        }
        while pos < r.len()
            invariant
                pos <= r@.len(),
                x.has_box_key(),
                forall|i: int| 0 <= i < r@.len() ==> #[trigger] r@[i].has_box_key(),
                forall|i: int| 0 <= i < pos ==> !bytes_lt(x.box_key(), #[trigger] r@[i].box_key()),
            ensures
                pos <= r@.len(),
                forall|i: int| 0 <= i < pos ==> !bytes_lt(x.box_key(), #[trigger] r@[i].box_key()),
                pos < r@.len() ==> bytes_lt(x.box_key(), r@[pos as int].box_key()),
            decreases r@.len() - pos,
        {
            if slice_lt(x.box_key_bytes(), r[pos].box_key_bytes()) {
                break;
            }
            pos = pos + 1;
        }
        let ghost old_r = r@;
        let ghost old_p = p;
        proof {
            assert forall|m: int| pos <= m < old_r.len() implies !bytes_lt(#[trigger] old_r[m].box_key(), x.box_key())
                && old_r[m].box_key() != x.box_key() by {
                assert(bytes_lt(x.box_key(), old_r[pos as int].box_key()));
                if m > pos {
                    assert(!bytes_lt(old_r[m].box_key(), old_r[pos as int].box_key()));
                }
                if bytes_lt(old_r[m].box_key(), x.box_key()) {
                    lemma_bytes_lt_transitive(old_r[m].box_key(), x.box_key(), old_r[pos as int].box_key());
                    if m == pos {
                        lemma_bytes_lt_irreflexive(old_r[m].box_key());
                    }
                }
                if old_r[m].box_key() == x.box_key() {
                    if m == pos {
                        lemma_bytes_lt_irreflexive(x.box_key());
                    }
                }
            }
        }
        r.insert(pos, x);
        proof {
            p = old_p.insert(pos as int, k as int);
            assert(r@ == old_r.insert(pos as int, x));
            assert forall|i: int| 0 <= i < r@.len() implies r@[i] == s[#[trigger] p[i]] by {
                if i < pos {
                } else if i == pos {
                } else {
                    assert(r@[i] == old_r[i - 1]);
                    assert(p[i] == old_p[i - 1]);
                }
            }
            assert forall|i: int| 0 <= i < p.len() implies 0 <= #[trigger] p[i] < k + 1 by {
                if i > pos {
                    assert(p[i] == old_p[i - 1]);
                }
            }
            assert forall|i: int, j: int| 0 <= i < j < p.len() implies p[i] != p[j] by {
                if i < pos && j < pos {
                } else if i < pos && j == pos {
                } else if i < pos {
                    assert(p[j] == old_p[j - 1]);
                } else if i == pos {
                    assert(p[j] == old_p[j - 1]);
                } else {
                    assert(p[i] == old_p[i - 1]);
                    assert(p[j] == old_p[j - 1]);
                }
            }
            assert forall|i: int, j: int| 0 <= i < j < r@.len() implies !bytes_lt(
                #[trigger] r@[j].box_key(),
                #[trigger] r@[i].box_key(),
            ) by {
                if j < pos {
                } else if j == pos {
                    assert(r@[i] == old_r[i]);
                } else if i < pos {
                    assert(r@[j] == old_r[j - 1]);
                    assert(r@[i] == old_r[i]);
                } else if i == pos {
                    assert(r@[j] == old_r[j - 1]);
                } else {
                    assert(r@[j] == old_r[j - 1]);
                    assert(r@[i] == old_r[i - 1]);
                }
            }
            assert forall|i: int, j: int|
                0 <= i < j < r@.len() && r@[i].box_key() == r@[j].box_key() implies #[trigger] p[i]
                < #[trigger] p[j] by {
                if j < pos {
                } else if j == pos {
                    assert(p[i] == old_p[i]);
                } else if i < pos {
                    assert(r@[j] == old_r[j - 1]);
                    assert(p[j] == old_p[j - 1]);
                } else if i == pos {
                    assert(r@[j] == old_r[j - 1]);
                } else {
                    assert(r@[j] == old_r[j - 1]);
                    assert(r@[i] == old_r[i - 1]);
                    assert(p[i] == old_p[i - 1]);
                    assert(p[j] == old_p[j - 1]);
                }
            }
        }
        k = k + 1;
    }
    assert(permuted_by(r@, s, p));
    r
}

/// A result row is ordered by the text under its "box_no" key.
impl BoxKeyed for StrMap<String> {
    open spec fn has_box_key(&self) -> bool {
        text_lookup(self@, "box_no"@) is Some
    }

    open spec fn box_key(&self) -> Seq<u8> {
        utf8(text_lookup(self@, "box_no"@)->0)
    }

    fn box_key_bytes(&self) -> (r: &[u8]) {
        match self.get("box_no") {
            Some(v) => v.as_str().as_bytes(),
            None => "".as_bytes(),
        }
    }
}

/// A module is ordered by the number of its box.
impl BoxKeyed for Datas {
    open spec fn has_box_key(&self) -> bool {
        true
    }

    open spec fn box_key(&self) -> Seq<u8> {
        utf8(self.pack_data.box_no@)
    }

    fn box_key_bytes(&self) -> (r: &[u8]) {
        self.pack_data.box_no.as_str().as_bytes()
    }
}

/// A box to bind is ordered by its number.
impl BoxKeyed for BoxBandData {
    open spec fn has_box_key(&self) -> bool {
        true
    }

    open spec fn box_key(&self) -> Seq<u8> {
        utf8(self.box_no@)
    }

    fn box_key_bytes(&self) -> (r: &[u8]) {
        self.box_no.as_str().as_bytes()
    }
}

} // verus!
