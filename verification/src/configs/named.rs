//! Lookups shared by the stored configurations, which are lists of named items.
use vstd::prelude::*;
use crate::text::{is_first_index, str_eq, unique_in_order, unique_texts, views};

verus! {

/// A stored configuration item that carries a name.
pub trait NamedItem {
    /// Its name.
    spec fn item_name(&self) -> Seq<char>;

    /// Its name, as text.
    fn name_text(&self) -> (r: &str)
        ensures
            r@ == self.item_name(),
    ;

    /// A copy of its name.
    fn name_string(&self) -> (r: String)
        ensures
            r@ == self.item_name(),
    ;
}

/// The names of a list of items, in order.
pub open spec fn names_of<T: NamedItem>(data: Seq<T>) -> Seq<Seq<char>> {
    data.map_values(|c: T| c.item_name())
}

/// Whether an item is not named `name`.
pub open spec fn not_named<T: NamedItem>(name: Seq<char>) -> spec_fn(T) -> bool {
    |c: T| c.item_name() != name
}

/// The position of the first item named `name`, if any.
pub fn find_named<T: NamedItem>(data: &Vec<T>, name: &str) -> (r: Option<usize>)
    ensures
        match r {
            Some(i) => is_first_index(names_of(data@), name@, i as int),
            None => !names_of(data@).contains(name@),
        },
{
    let mut i: usize = 0;
    while i < data.len()
        invariant
            i <= data@.len(),
            forall|j: int| 0 <= j < i ==> names_of(data@)[j] != name@,
        decreases data.len() - i,
    {
        if str_eq(data[i].name_text(), name) {
            return Some(i);
        }
        i = i + 1;
    }
    None
}

/// The distinct names of the items, each where it first occurs.
pub fn unique_names<T: NamedItem>(data: &Vec<T>) -> (r: Vec<String>)
    ensures
        views(r@) == unique_in_order(names_of(data@)),
{
    let mut names: Vec<String> = Vec::new();
    let mut i: usize = 0;
    while i < data.len()
        invariant
            i <= data@.len(),
            views(names@) == names_of(data@).take(i as int),
        decreases data.len() - i,
    {
        let ghost before = names@;
        let name = data[i].name_string();
        assert(name@ == names_of(data@)[i as int]);
        names.push(name);
        assert(names@ == before.push(name));
        assert(views(names@) =~= views(before).push(name@));
        assert(names_of(data@).take(i + 1) =~= names_of(data@).take(i as int).push(name@));
        i = i + 1;
    }
    assert(names_of(data@).take(data@.len() as int) =~= names_of(data@));
    unique_texts(names)
}

/// Removes every item named `name`; tells whether there was one.
pub fn delete_named<T: NamedItem>(data: &mut Vec<T>, name: &str) -> (r: bool)
    ensures
        final(data)@ == old(data)@.filter(not_named::<T>(name@)),
        r == names_of(old(data)@).contains(name@),
{
    let ghost keep = not_named::<T>(name@);
    let initial_length = data.len();
    let mut kept: Vec<T> = Vec::new();
    let mut rest: Vec<T> = Vec::new();
    std::mem::swap(&mut rest, data);
    let ghost s = rest@;
    let ghost mut found = false;
    let mut i: usize = 0;
    proof {
        reveal(Seq::filter);
        assert(s.take(0).filter(keep) =~= Seq::<T>::empty());
        assert(names_of(s.take(0)) =~= Seq::<Seq<char>>::empty());
    }
    while i < initial_length
        invariant
            i <= initial_length,
            initial_length == s.len(),
            s == old(data)@,
            keep == not_named::<T>(name@),
            rest@ == s.skip(i as int),
            kept@ == s.take(i as int).filter(keep),
            found == names_of(s.take(i as int)).contains(name@),
            !found ==> kept@.len() == i,
            found ==> kept@.len() < i,
        decreases initial_length - i,
    {
        let item = rest.remove(0);
        let ghost t = s.take(i as int);
        proof {
            assert(item == s[i as int]);
            assert(rest@ =~= s.skip(i + 1));
            assert(s.take(i + 1) =~= t.push(s[i as int]));
            assert(names_of(s.take(i + 1)) =~= names_of(t).push(item.item_name()));
            t.lemma_filter_push(s[i as int], keep);
        }
        let ghost names1 = names_of(s.take(i + 1));
        let ghost names0 = names_of(t);
        let ghost old_kept = kept@;
        if str_eq(item.name_text(), name) {
            proof {
                assert(names1[i as int] == name@);
                assert(!keep(s[i as int]));
                found = true;
            }
        } else {
            proof {
                if names1.contains(name@) {
                    let w = choose|w: int| 0 <= w < names1.len() && names1[w] == name@;
                    assert(w < i);
                    assert(names0[w] == name@);
                }
                if names0.contains(name@) {
                    let w = choose|w: int| 0 <= w < names0.len() && names0[w] == name@;
                    assert(names1[w] == name@);
                }
                assert(keep(s[i as int]));
            }
            kept.push(item);
            assert(kept@ == old_kept.push(s[i as int]));
        }
        i = i + 1;
    }
    assert(s.take(initial_length as int) =~= s);
    *data = kept;
    data.len() != initial_length
}

/// Deleting by name leaves no item of that name, and every other name stays
/// exactly where it was present.
pub proof fn law_delete_removes_name<T: NamedItem>(data: Seq<T>, name: Seq<char>)
    ensures
        !names_of(data.filter(not_named::<T>(name))).contains(name),
        forall|other: Seq<char>|
            other != name ==> (#[trigger] names_of(data.filter(not_named::<T>(name))).contains(other)
                <==> names_of(data).contains(other)),
    decreases data.len(),
{
    reveal(Seq::filter);
    let f = data.filter(not_named::<T>(name));
    if data.len() == 0 {
        assert(names_of(f) =~= Seq::<Seq<char>>::empty());
    } else {
        let t = data.drop_last();
        let x = data.last();
        law_delete_removes_name(t, name);
        let ft = t.filter(not_named::<T>(name));
        assert(names_of(data) =~= names_of(t).push(x.item_name()));
        if x.item_name() != name {
            assert(f == ft.push(x));
            assert(names_of(f) =~= names_of(ft).push(x.item_name()));
        } else {
            assert(f == ft);
        }
        assert forall|other: Seq<char>| other != name implies (#[trigger] names_of(f).contains(other)
            <==> names_of(data).contains(other)) by {
            if names_of(data).contains(other) {
                let w = choose|w: int| 0 <= w < names_of(data).len() && names_of(data)[w] == other;
                if w < t.len() {
                    assert(names_of(t)[w] == names_of(data)[w]);
                    assert(names_of(t).contains(other));
                    assert(names_of(ft).contains(other));
                    let v = choose|v: int| 0 <= v < names_of(ft).len() && names_of(ft)[v] == other;
                    assert(names_of(f)[v] == other);
                } else {
                    assert(x.item_name() == other);
                    assert(names_of(f)[names_of(f).len() - 1] == other);
                }
            }
            if names_of(f).contains(other) {
                let w = choose|w: int| 0 <= w < names_of(f).len() && names_of(f)[w] == other;
                if w < names_of(ft).len() {
                    assert(names_of(ft)[w] == other);
                    assert(names_of(ft).contains(other));
                    assert(names_of(t).contains(other));
                    let v = choose|v: int| 0 <= v < names_of(t).len() && names_of(t)[v] == other;
                    assert(names_of(data)[v] == names_of(t)[v]);
                } else {
                    assert(names_of(data)[data.len() - 1] == other);
                }
            }
        }
        if names_of(f).contains(name) {
            let w = choose|w: int| 0 <= w < names_of(f).len() && names_of(f)[w] == name;
            if w < names_of(ft).len() {
                assert(names_of(ft)[w] == name);
            }
        }
    }
}

/// An item added under a new name is the first (and only) item of that name,
/// so lookups by name find it.
pub proof fn law_added_item_first<T: NamedItem>(data: Seq<T>, item: T)
    requires
        !names_of(data).contains(item.item_name()),
    ensures
        is_first_index(names_of(data.push(item)), item.item_name(), data.len() as int),
{
    let n = names_of(data.push(item));
    assert(n =~= names_of(data).push(item.item_name()));
    assert forall|j: int| 0 <= j < data.len() implies n[j] != item.item_name() by {
        assert(n[j] == names_of(data)[j]);
    }
}

/// Updating the first item of a name, keeping its name, leaves it the first
/// item of that name, so lookups by name find the update.
pub proof fn law_update_stays_first<T: NamedItem>(data: Seq<T>, i: int, new_item: T)
    requires
        is_first_index(names_of(data), new_item.item_name(), i),
    ensures
        is_first_index(names_of(data.update(i, new_item)), new_item.item_name(), i),
{
    let n = names_of(data.update(i, new_item));
    assert(n =~= names_of(data).update(i, new_item.item_name()));
}

} // verus!
