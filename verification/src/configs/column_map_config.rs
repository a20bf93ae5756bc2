//! Column mappings: for each export template, which data column fills each
//! sheet column.
use vstd::prelude::*;
use crate::error::{MyError, MyTip};
use crate::strmap::{has_key, keys_distinct, lemma_has_key_take_step, lemma_insert, lemma_lookup_at, lookup, text_lookup, StrMap};
use crate::text::{concat, is_first_index, str_eq, text, unique_in_order, views};
use crate::configs::named::{delete_named, find_named, names_of, not_named, unique_names, NamedItem};

verus! {

/// Where the mappings are stored.
pub const TOML_FILE_PATH: &'static str = "././configs/column_map_config.toml";

/// The stored file: a list of mappings.
pub struct ColumnMapConfigRoot {
    /// The mappings, in file order.
    pub column_maps: Vec<ColumnMapConfig>,
}

/// The column mapping of one template.
pub struct ColumnMapConfig {
    /// Its id.
    pub id: u32,
    /// The template it belongs to.
    pub template_name: String,
    /// When it was created.
    pub create_time: String,
    /// When it was last changed.
    pub update_time: Option<String>,
    /// Sheet column to data column.
    pub fields: StrMap<String>,
}

/// The path of the stored mappings.
pub fn get_file_path() -> (r: String)
    ensures
        r@ == TOML_FILE_PATH@,
{
    text(TOML_FILE_PATH)
}

impl NamedItem for ColumnMapConfig {
    open spec fn item_name(&self) -> Seq<char> {
        self.template_name@
    }

    fn name_text(&self) -> (r: &str) {
        self.template_name.as_str()
    }

    fn name_string(&self) -> (r: String) {
        self.template_name.clone()
    }
}

/// The template names of a list of mappings.
pub open spec fn map_names(data: Seq<ColumnMapConfig>) -> Seq<Seq<char>> {
    names_of(data)
}

/// Every mapping's fields have distinct keys.
pub open spec fn maps_wf(data: Seq<ColumnMapConfig>) -> bool {
    forall|i: int| 0 <= i < data.len() ==> (#[trigger] data[i]).fields.wf()
}

/// Keys that are never reported as mapped columns.
pub open spec fn excluded_map_key(k: Seq<char>) -> bool {
    k == "template_name"@ || k == "id"@ || k == "create_time"@ || k == "update_time"@
}

/// Whether `k` is one of the keys never reported as mapped columns.
pub fn is_excluded_map_key(k: &str) -> (r: bool)
    ensures
        r == excluded_map_key(k@),
{
    str_eq(k, "template_name") || str_eq(k, "id") || str_eq(k, "create_time") || str_eq(k, "update_time")
}

/// The value the mappings named `name` give `k`: that of the last such mapping
/// that has `k`.
pub open spec fn merged_mapping(items: Seq<ColumnMapConfig>, name: Seq<char>, k: Seq<char>) -> Option<String>
    decreases items.len(),
{
    if items.len() == 0 {
        None
    } else if items.last().template_name@ == name && has_key(items.last().fields@, k) {
        lookup(items.last().fields@, k)
    } else {
        merged_mapping(items.drop_last(), name, k)
    }
}

/// The distinct template names, each where it first occurs; an error when
/// there are no mappings.
pub fn get_map_templates(data: &Vec<ColumnMapConfig>) -> (r: Result<Vec<String>, MyError>)
    ensures
        data@.len() == 0 ==> r == Err::<Vec<String>, MyError>(MyError::UnLoadedTemplates),
        data@.len() > 0 ==> (r matches Ok(t) && views(t@) == unique_in_order(map_names(data@))),
{
    if data.len() == 0 {
        return Err(MyError::UnLoadedTemplates);
    }
    Ok(unique_names(data))
}

/// The mapped columns of template `name`: every key of its mappings except the
/// bookkeeping ones, valued as the last mapping that has it says; an error when
/// there are no mappings at all.
pub fn get_template_map_config(data: &Vec<ColumnMapConfig>, template_name: &str) -> (r: Result<StrMap<String>, MyError>)
    requires
        maps_wf(data@),
    ensures
        data@.len() == 0 ==> r == Err::<StrMap<String>, MyError>(MyError::UnLoadedTemplates),
        data@.len() > 0 ==> (r matches Ok(m) && m.wf() && forall|k: Seq<char>|
            #[trigger] lookup(m@, k) == if excluded_map_key(k) {
                None
            } else {
                merged_mapping(data@, template_name@, k)
            }),
{
    if data.len() == 0 {
        return Err(MyError::UnLoadedTemplates);
    }
    let mut m: StrMap<String> = StrMap::new();
    let mut i: usize = 0;
    while i < data.len()
        invariant
            i <= data@.len(),
            maps_wf(data@),
            m.wf(),
            forall|k: Seq<char>|
                #[trigger] lookup(m@, k) == if excluded_map_key(k) {
                    None
                } else {
                    merged_mapping(data@.take(i as int), template_name@, k)
                },
        decreases data.len() - i,
    {
        let item = &data[i];
        let ghost f = item.fields@;
        let ghost prev = data@.take(i as int);
        assert(data@.take(i + 1).drop_last() =~= prev);
        assert(data@.take(i + 1).last() == *item);
        if str_eq(item.template_name.as_str(), template_name) {
            assert(item.fields.wf());
            let n = item.fields.len();
            let mut j: usize = 0;
            assert(f.take(0) =~= Seq::<(Seq<char>, String)>::empty());
            while j < n
                invariant
                    j <= n,
                    n == f.len(),
                    f == item.fields@,
                    keys_distinct(f),
                    m.wf(),
                    forall|k: Seq<char>|
                        #[trigger] lookup(m@, k) == if excluded_map_key(k) {
                            None
                        } else if has_key(f.take(j as int), k) {
                            lookup(f, k)
                        } else {
                            merged_mapping(prev, template_name@, k)
                        },
                decreases n - j,
            {
                let key = item.fields.key_at(j);
                let ghost kj = f[j as int].0;
                proof {
                    lemma_lookup_at(f, j as int);
                    assert forall|k: Seq<char>| true implies has_key(f.take(j + 1), k) == (has_key(f.take(j as int), k) || kj == k) by {
                        lemma_has_key_take_step(f, j as int, k);
                    }
                }
                let ghost before = m@;
                if !is_excluded_map_key(key.as_str()) {
                    let value = item.fields.value_at(j).clone();
                    proof {
                        lemma_insert(before, kj, value);
                    }
                    m.insert(key.clone(), value);
                    assert forall|k: Seq<char>| #[trigger] lookup(m@, k) == if excluded_map_key(k) {
                        None
                    } else if has_key(f.take(j + 1), k) {
                        lookup(f, k)
                    } else {
                        merged_mapping(prev, template_name@, k)
                    } by {
                        if k != kj {
                            assert(lookup(m@, k) == lookup(before, k));
                        }
                    }
                } else {
                    assert forall|k: Seq<char>| #[trigger] lookup(m@, k) == if excluded_map_key(k) {
                        None
                    } else if has_key(f.take(j + 1), k) {
                        lookup(f, k)
                    } else {
                        merged_mapping(prev, template_name@, k)
                    } by {
                        if k != kj {
                            assert(lookup(m@, k) == lookup(before, k));
                        }
                    }
                }
                j = j + 1;
            }
            assert(f.take(n as int) =~= f);
        }
        i = i + 1;
    }
    assert(data@.take(data@.len() as int) =~= data@);
    Ok(m)
}

/// Adds the mapping of template `template_name`, created at `now`, with the next id.
pub fn add_new_template_map(
    data: &mut Vec<ColumnMapConfig>,
    template_name: String,
    new_fields: StrMap<String>,
    now: String,
)
    requires
        old(data)@.len() > 0 ==> old(data)@.last().id < u32::MAX,
    ensures
        final(data)@.len() == old(data)@.len() + 1,
        final(data)@.take(old(data)@.len() as int) == old(data)@,
        final(data)@.last().id == if old(data)@.len() == 0 { 1 } else { old(data)@.last().id + 1 },
        final(data)@.last().template_name == template_name,
        final(data)@.last().create_time == now,
        final(data)@.last().update_time.is_none(),
        final(data)@.last().fields == new_fields,
{
    let new_id: u32 = if data.len() > 0 {
        data[data.len() - 1].id + 1
    } else {
        1
    };
    data.push(ColumnMapConfig { id: new_id, template_name, create_time: now, update_time: None, fields: new_fields });
    assert(data@.take(old(data)@.len() as int) =~= old(data)@);
}

/// The text stored for an updated column: "None" and "none" clear it.
pub open spec fn normalized_map_value(v: Seq<char>) -> Seq<char> {
    if v == "None"@ || v == "none"@ {
        Seq::empty()
    } else {
        v
    }
}

/// An updated column given "None" or "none" is cleared; any other text is
/// stored as given.
pub proof fn law_none_clears_column(v: Seq<char>)
    ensures
        v == "None"@ ==> normalized_map_value(v) == Seq::<char>::empty(),
        v == "none"@ ==> normalized_map_value(v) == Seq::<char>::empty(),
        v != "None"@ && v != "none"@ ==> normalized_map_value(v) == v,
{
}

/// Overwrites columns of the first mapping of template `template_name` and
/// stamps it with `now`; an error naming the template when it has none.
pub fn update_template_map(
    data: &mut Vec<ColumnMapConfig>,
    template_name: &str,
    map_infos: StrMap<String>,
    now: String,
) -> (r: Result<MyTip, MyError>)
    requires
        maps_wf(old(data)@),
        map_infos.wf(),
    ensures
        maps_wf(final(data)@),
        r matches Ok(MyTip::UpdateDone(m)) ==> m@ == "映射模板: "@ + template_name@,
        r matches Err(MyError::NotFound(m)) ==> m@ == "映射模板: "@ + template_name@,
        r is Ok || r matches Err(MyError::NotFound(_)),
        r is Ok ==> r matches Ok(MyTip::UpdateDone(_)),
        r is Ok <==> map_names(old(data)@).contains(template_name@),
        r is Err ==> final(data)@ == old(data)@,
        r is Ok ==> exists|i: int| #![trigger is_first_index(map_names(old(data)@), template_name@, i)] {
            &&& is_first_index(map_names(old(data)@), template_name@, i)
            &&& final(data)@.len() == old(data)@.len()
            &&& forall|j: int| 0 <= j < old(data)@.len() && j != i ==> #[trigger] final(data)@[j] == old(data)@[j]
            &&& final(data)@[i].id == old(data)@[i].id
            &&& final(data)@[i].template_name == old(data)@[i].template_name
            &&& final(data)@[i].create_time == old(data)@[i].create_time
            &&& final(data)@[i].update_time == Some(now)
            &&& forall|k: Seq<char>|
                #[trigger] text_lookup(final(data)@[i].fields@, k) == if has_key(map_infos@, k) {
                    Some(normalized_map_value(text_lookup(map_infos@, k).unwrap()))
                } else {
                    text_lookup(old(data)@[i].fields@, k)
                }
            &&& forall|k: Seq<char>| #![trigger text_lookup(final(data)@[i].fields@, k)]
                (text_lookup(map_infos@, k) == Some("None"@) || text_lookup(map_infos@, k) == Some("none"@))
                    ==> text_lookup(final(data)@[i].fields@, k) == Some(Seq::<char>::empty())
            &&& forall|k: Seq<char>| #![trigger text_lookup(final(data)@[i].fields@, k)]
                (has_key(map_infos@, k) && text_lookup(map_infos@, k) != Some("None"@)
                    && text_lookup(map_infos@, k) != Some("none"@))
                    ==> text_lookup(final(data)@[i].fields@, k) == text_lookup(map_infos@, k)
            &&& forall|k: Seq<char>| #![trigger text_lookup(final(data)@[i].fields@, k)]
                !has_key(map_infos@, k) ==> text_lookup(final(data)@[i].fields@, k) == text_lookup(old(data)@[i].fields@, k)
        },
{
    let i = match find_named(data, template_name) {
        Some(i) => i,
        None => {
            return Err(MyError::NotFound(concat("映射模板: ", template_name)));
        },
    };
    let mut item = data.remove(i);
    assert(item == old(data)@[i as int]);
    assert(item.fields.wf());
    let ghost now_v = now;
    item.update_time = Some(now);
    let n = map_infos.len();
    let ghost mi = map_infos@;
    let ghost f0 = item.fields@;
    let mut j: usize = 0;
    while j < n
        invariant
            j <= n,
            n == mi.len(),
            mi == map_infos@,
            keys_distinct(mi),
            item.fields.wf(),
            item.update_time == Some(now_v),
            item.id == old(data)@[i as int].id,
            item.template_name == old(data)@[i as int].template_name,
            item.create_time == old(data)@[i as int].create_time,
            f0 == old(data)@[i as int].fields@,
            forall|k: Seq<char>|
                #[trigger] text_lookup(item.fields@, k) == if has_key(mi.take(j as int), k) {
                    Some(normalized_map_value(text_lookup(mi, k).unwrap()))
                } else {
                    text_lookup(f0, k)
                },
        decreases n - j,
    {
        let key = map_infos.key_at(j);
        let value = map_infos.value_at(j);
        let ghost kj = mi[j as int].0;
        proof {
            lemma_lookup_at(mi, j as int);
            assert forall|k: Seq<char>| true implies has_key(mi.take(j + 1), k) == (has_key(mi.take(j as int), k) || kj == k) by {
                lemma_has_key_take_step(mi, j as int, k);
            }
        }
        let stored = if str_eq(value.as_str(), "None") || str_eq(value.as_str(), "none") {
            String::new()
        } else {
            value.clone()
        };
        assert(stored@ == normalized_map_value(value@));
        let ghost before = item.fields@;
        proof {
            lemma_insert(before, kj, stored);
        }
        item.fields.insert(key.clone(), stored);
        assert forall|k: Seq<char>| #[trigger] text_lookup(item.fields@, k) == if has_key(mi.take(j + 1), k) {
            Some(normalized_map_value(text_lookup(mi, k).unwrap()))
        } else {
            text_lookup(f0, k)
        } by {
            lemma_has_key_take_step(mi, j as int, k);
            if k != kj {
                assert(lookup(item.fields@, k) == lookup(before, k));
                assert(text_lookup(before, k) == if has_key(mi.take(j as int), k) {
                    Some(normalized_map_value(text_lookup(mi, k).unwrap()))
                } else {
                    text_lookup(f0, k)
                });
            } else {
                assert(lookup(item.fields@, kj) == Some(stored));
                assert(lookup(mi, kj) == Some(*value));
            }
        }
        j = j + 1;
    }
    assert(mi.take(n as int) =~= mi);
    let ghost item_after = item;
    data.insert(i, item);
    proof {
        assert forall|j: int| 0 <= j < old(data)@.len() && j != i implies #[trigger] data@[j] == old(data)@[j] by {}
        assert(is_first_index(map_names(old(data)@), template_name@, i as int));
        assert forall|j: int| 0 <= j < data@.len() implies (#[trigger] data@[j]).fields.wf() by {
            if j != i {
                assert(data@[j] == old(data)@[j]);
            }
        }
        assert(map_names(old(data)@).contains(template_name@));
        let ii = i as int;
        assert(data@[ii] == item_after);
        assert(data@[ii].update_time == Some(now_v));
        assert(forall|k: Seq<char>|
                #[trigger] text_lookup(data@[ii].fields@, k) == if has_key(map_infos@, k) {
                    Some(normalized_map_value(text_lookup(map_infos@, k).unwrap()))
                } else {
                    text_lookup(old(data)@[ii].fields@, k)
                });
        assert forall|k: Seq<char>|
            (text_lookup(map_infos@, k) == Some("None"@) || text_lookup(map_infos@, k) == Some("none"@))
            implies #[trigger] text_lookup(data@[ii].fields@, k) == Some(Seq::<char>::empty()) by {
            assert(has_key(map_infos@, k));
        }
        assert forall|k: Seq<char>|
            (has_key(map_infos@, k) && text_lookup(map_infos@, k) != Some("None"@)
                && text_lookup(map_infos@, k) != Some("none"@))
            implies #[trigger] text_lookup(data@[ii].fields@, k) == text_lookup(map_infos@, k) by {
        }
    }
    Ok(MyTip::UpdateDone(concat("映射模板: ", template_name)))
}

/// Removes every mapping of template `template_name`; an error naming it when
/// there was none.
pub fn delete_template_map(data: &mut Vec<ColumnMapConfig>, template_name: &str) -> (r: Result<MyTip, MyError>)
    ensures
        final(data)@ == old(data)@.filter(not_named::<ColumnMapConfig>(template_name@)),
        r is Ok <==> map_names(old(data)@).contains(template_name@),
        r matches Ok(t) ==> t matches MyTip::DeleteDone(m) && m@ == "映射模板: "@ + template_name@,
        r matches Err(e) ==> e matches MyError::NotFound(m) && m@ == "映射模板: "@ + template_name@,
{
    if delete_named(data, template_name) {
        Ok(MyTip::DeleteDone(concat("映射模板: ", template_name)))
    } else {
        Err(MyError::NotFound(concat("映射模板: ", template_name)))
    }
}

/// A mapping added for a template is what its configuration then reports:
/// every key the new mapping has takes the new value; every other key keeps
/// what the earlier mappings gave it.
pub proof fn law_added_mapping_wins(data: Seq<ColumnMapConfig>, item: ColumnMapConfig, k: Seq<char>)
    ensures
        has_key(item.fields@, k) ==> merged_mapping(data.push(item), item.template_name@, k) == lookup(item.fields@, k),
        !has_key(item.fields@, k) ==> merged_mapping(data.push(item), item.template_name@, k) == merged_mapping(data, item.template_name@, k),
        forall|other: Seq<char>| other != item.template_name@ ==> #[trigger] merged_mapping(data.push(item), other, k) == merged_mapping(data, other, k),
{
    assert(data.push(item).drop_last() =~= data);
    assert forall|other: Seq<char>| other != item.template_name@ implies #[trigger] merged_mapping(data.push(item), other, k) == merged_mapping(data, other, k) by {
        assert(data.push(item).drop_last() =~= data);
    }
}

} // verus!
