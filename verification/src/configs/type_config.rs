//! Product types: which export templates each type uses and which extra
//! lookups its carton query makes.
use vstd::prelude::*;
use crate::configs::named::{delete_named, find_named, names_of, not_named, unique_names, NamedItem};
use crate::error::{MyError, MyTip};
use crate::strmap::{has_key, lemma_insert, StrMap};
use crate::text::{
    concat, decimal, decimal_text, is_first_index, lemma_decimal_injective, parse_usize, parse_usize_spec,
    str_eq, text, unique_in_order, views,
};

verus! {

/// Where the product types are stored.
pub const TOML_FILE_PATH: &'static str = "././configs/type_config.toml";

/// The lookups a product type's carton query makes.
#[derive(Debug, Clone, Copy, PartialEq, Eq)]
pub struct Infos {
    /// Look up the batch code.
    pub is_have_pch: bool,
    /// Take the batch code from the carton label (else from the box label).
    pub carton_pch: bool,
    /// Take the batch code from the box label.
    pub box_pch: bool,
    /// Look up the label binding.
    pub jz_band: bool,
    /// Boxes are custom boxes bound to cartons.
    pub zdy_box: bool,
}

/// No lookup enabled.
pub open spec fn no_infos() -> Infos {
    Infos { is_have_pch: false, carton_pch: false, box_pch: false, jz_band: false, zdy_box: false }
}

impl Default for Infos {
    fn default() -> (r: Self)
        ensures
            r == no_infos(),
    {
        Infos { is_have_pch: false, carton_pch: false, box_pch: false, jz_band: false, zdy_box: false }
    }
}

/// The stored file: a list of product types.
pub struct TypeConfigRoot {
    /// The product types, in file order.
    pub types: Vec<ConfigType>,
}

/// One product type.
pub struct ConfigType {
    /// Its id.
    pub id: u32,
    /// Its name.
    pub kind_name: String,
    /// When it was created.
    pub create_time: String,
    /// When it was last changed.
    pub update_time: Option<String>,
    /// Its query lookups.
    pub infos: Infos,
    /// Its templates, keyed by their number.
    pub template: StrMap<String>,
}

impl NamedItem for ConfigType {
    open spec fn item_name(&self) -> Seq<char> {
        self.kind_name@
    }

    fn name_text(&self) -> (r: &str) {
        self.kind_name.as_str()
    }

    fn name_string(&self) -> (r: String) {
        self.kind_name.clone()
    }
}

/// The path of the stored product types.
pub fn get_file_path() -> (r: String)
    ensures
        r@ == TOML_FILE_PATH@,
{
    text(TOML_FILE_PATH)
}

/// Every type's template map has distinct keys.
pub open spec fn types_wf(data: Seq<ConfigType>) -> bool {
    forall|i: int| 0 <= i < data.len() ==> (#[trigger] data[i]).template.wf()
}

/// Keys of a template map that are not template names.
pub open spec fn excluded_type_key(k: Seq<char>) -> bool {
    k == "type"@ + "_name"@ || k == "id"@ || k == "create_time"@ || k == "update_time"@
}

/// Whether `k` is a key that is not a template name.
pub fn is_excluded_type_key(k: &str) -> (r: bool)
    ensures
        r == excluded_type_key(k@),
{
    str_eq(k, concat("type", "_name").as_str()) || str_eq(k, "id") || str_eq(k, "create_time") || str_eq(k, "update_time")
}

/// The template names of a template map, in order.
pub open spec fn kept_values(t: Seq<(Seq<char>, String)>) -> Seq<Seq<char>>
    decreases t.len(),
{
    if t.len() == 0 {
        Seq::empty()
    } else if excluded_type_key(t.last().0) {
        kept_values(t.drop_last())
    } else {
        kept_values(t.drop_last()).push(t.last().1@)
    }
}

/// The template names of every type named `name`, in order.
pub open spec fn type_template_values(items: Seq<ConfigType>, name: Seq<char>) -> Seq<Seq<char>>
    decreases items.len(),
{
    if items.len() == 0 {
        Seq::empty()
    } else if items.last().kind_name@ == name {
        type_template_values(items.drop_last(), name) + kept_values(items.last().template@)
    } else {
        type_template_values(items.drop_last(), name)
    }
}

/// The lookups of the last type named `name`, none when there is none.
pub open spec fn type_infos_of(items: Seq<ConfigType>, name: Seq<char>) -> Infos
    decreases items.len(),
{
    if items.len() == 0 {
        no_infos()
    } else if items.last().kind_name@ == name {
        items.last().infos
    } else {
        type_infos_of(items.drop_last(), name)
    }
}

/// The template names and lookups of type `kind_name`; an error naming the
/// type when there are no types at all.
pub fn get_type_infos(data: &Vec<ConfigType>, kind_name: &str) -> (r: Result<(Vec<String>, Infos), MyError>)
    ensures
        data@.len() == 0 ==> (r matches Err(MyError::NoResult(m)) && m@ == "型号: "@ + kind_name@),
        data@.len() > 0 ==> (r matches Ok((t, infos)) && views(t@) == type_template_values(data@, kind_name@)
            && infos == type_infos_of(data@, kind_name@)),
{
    if data.len() == 0 {
        return Err(MyError::NoResult(concat("型号: ", kind_name)));
    }
    let mut type_infos: Vec<String> = Vec::new();
    let mut infos = Infos::default();
    let mut i: usize = 0;
    while i < data.len()
        invariant
            i <= data@.len(),
            views(type_infos@) == type_template_values(data@.take(i as int), kind_name@),
            infos == type_infos_of(data@.take(i as int), kind_name@),
        decreases data.len() - i,
    {
        let item = &data[i];
        let ghost prev = data@.take(i as int);
        assert(data@.take(i + 1).drop_last() =~= prev);
        assert(data@.take(i + 1).last() == *item);
        if str_eq(item.kind_name.as_str(), kind_name) {
            let ghost t = item.template@;
            let ghost base = views(type_infos@);
            let n = item.template.len();
            let mut j: usize = 0;
            assert(t.take(0) =~= Seq::<(Seq<char>, String)>::empty());
            assert(base + kept_values(t.take(0)) =~= base);
            while j < n
                invariant
                    j <= n,
                    n == t.len(),
                    t == item.template@,
                    views(type_infos@) == base + kept_values(t.take(j as int)),
                decreases n - j,
            {
                assert(t.take(j + 1).drop_last() =~= t.take(j as int));
                assert(t.take(j + 1).last() == t[j as int]);
                let key = item.template.key_at(j);
                if !is_excluded_type_key(key.as_str()) {
                    let ghost before = type_infos@;
                    let v = item.template.value_at(j).clone();
                    type_infos.push(v);
                    assert(views(type_infos@) =~= views(before).push(v@));
                }
                j = j + 1;
            }
            assert(t.take(n as int) =~= t);
            infos = item.infos;
        }
        i = i + 1;
    }
    assert(data@.take(data@.len() as int) =~= data@);
    Ok((type_infos, infos))
}

/// The distinct type names, each where it first occurs; an error when there
/// are no types.
pub fn get_kind_names(data: &Vec<ConfigType>) -> (r: Result<Vec<String>, MyError>)
    ensures
        data@.len() == 0 ==> r == Err::<Vec<String>, MyError>(MyError::UnLoadedTypes),
        data@.len() > 0 ==> (r matches Ok(t) && views(t@) == unique_in_order(names_of(data@))),
{
    if data.len() == 0 {
        return Err(MyError::UnLoadedTypes);
    }
    Ok(unique_names(data))
}

/// Template names numbered from `start`: the `i`-th is stored under the
/// decimal text of `start + i`.
pub open spec fn numbered_view(vals: Seq<String>, start: int) -> Seq<(Seq<char>, String)> {
    Seq::new(vals.len(), |i: int| (decimal((start + i) as nat), vals[i]))
}

/// A template map numbering `values` from `start`.
pub fn numbered_templates(values: Vec<String>, start: usize) -> (r: StrMap<String>)
    requires
        start as int + values@.len() <= usize::MAX as int + 1,
    ensures
        r.wf(),
        r@ == numbered_view(values@, start as int),
{
    let ghost vals = values@;
    let n = values.len();
    let mut rest = values;
    let mut m: StrMap<String> = StrMap::new();
    let mut i: usize = 0;
    assert(numbered_view(vals.take(0), start as int) =~= m@);
    while i < n
        invariant
            i <= n,
            n == vals.len(),
            start as int + n <= usize::MAX as int + 1,
            rest@ == vals.skip(i as int),
            m.wf(),
            m@ == numbered_view(vals.take(i as int), start as int),
        decreases n - i,
    {
        let v = rest.remove(0);
        assert(v == vals[i as int]);
        assert(rest@ =~= vals.skip(i + 1));
        let key = decimal_text(start + i);
        proof {
            if has_key(m@, key@) {
                let j = choose|j: int| 0 <= j < m@.len() && m@[j].0 == key@;
                lemma_decimal_injective((start + j) as nat, (start + i) as nat);
            }
            lemma_insert(m@, key@, v);
        }
        m.insert(key, v);
        assert(m@ =~= numbered_view(vals.take(i + 1), start as int));
        i = i + 1;
    }
    assert(vals.take(n as int) =~= vals);
    m
}

/// Adds type `kind_name` with `templates` numbered from 1, stamped `now`,
/// with id one more than the number of types; an error when the name is taken.
pub fn add_new_type(
    data: &mut Vec<ConfigType>,
    kind_name: String,
    templates: Vec<String>,
    infos: Infos,
    now: String,
) -> (r: Result<MyTip, MyError>)
    requires
        old(data)@.len() < u32::MAX,
    ensures
        r matches Err(e) ==> e matches MyError::Haved(m) && m@ == "型号: "@ + kind_name@,
        r matches Ok(t) ==> t matches MyTip::AddDone(m) && m@ == "型号: "@ + kind_name@,
        r is Err <==> names_of(old(data)@).contains(kind_name@),
        r is Err ==> final(data)@ == old(data)@,
        r is Ok ==> {
            &&& final(data)@.len() == old(data)@.len() + 1
            &&& final(data)@.take(old(data)@.len() as int) == old(data)@
            &&& final(data)@.last().id == old(data)@.len() + 1
            &&& final(data)@.last().kind_name == kind_name
            &&& final(data)@.last().create_time == now
            &&& final(data)@.last().update_time.is_none()
            &&& final(data)@.last().infos == infos
            &&& final(data)@.last().template.wf()
            &&& final(data)@.last().template@ == numbered_view(templates@, 1)
        },
{
    if find_named(data, kind_name.as_str()).is_some() {
        return Err(MyError::Haved(concat("型号: ", kind_name.as_str())));
    }
    let message = concat("型号: ", kind_name.as_str());
    let count = templates.len();
    assert(1 + templates@.len() <= usize::MAX as int + 1) by {
        assert(count == templates@.len());
    }
    let template = numbered_templates(templates, 1);
    let id = data.len() as u32 + 1;
    data.push(ConfigType { id, kind_name, create_time: now, update_time: None, infos, template });
    assert(data@.take(old(data)@.len() as int) =~= old(data)@);
    Ok(MyTip::AddDone(message))
}

/// The largest template number among the keys of a template map, 0 when no
/// key is a number.
pub open spec fn key_index_max(t: Seq<(Seq<char>, String)>) -> nat
    decreases t.len(),
{
    if t.len() == 0 {
        0
    } else {
        let p = key_index_max(t.drop_last());
        match parse_usize_spec(t.last().0) {
            Some(v) => if v > p { v } else { p },
            None => p,
        }
    }
}

/// The largest template number of the types named `name`, 0 when they have none.
pub open spec fn last_template_index(items: Seq<ConfigType>, name: Seq<char>) -> nat
    decreases items.len(),
{
    if items.len() == 0 {
        0
    } else {
        let p = last_template_index(items.drop_last(), name);
        if items.last().kind_name@ == name {
            let q = key_index_max(items.last().template@);
            if q > p { q } else { p }
        } else {
            p
        }
    }
}

fn template_index_max(t: &StrMap<String>) -> (r: usize)
    ensures
        r == key_index_max(t@),
{
    let n = t.len();
    let mut best: usize = 0;
    let mut j: usize = 0;
    assert(t@.take(0) =~= Seq::<(Seq<char>, String)>::empty());
    while j < n
        invariant
            j <= n,
            n == t@.len(),
            best == key_index_max(t@.take(j as int)),
        decreases n - j,
    {
        assert(t@.take(j + 1).drop_last() =~= t@.take(j as int));
        assert(t@.take(j + 1).last() == t@[j as int]);
        match parse_usize(t.key_at(j).as_str()) {
            Some(v) => {
                if v > best {
                    best = v;
                }
            },
            None => {},
        }
        j = j + 1;
    }
    assert(t@.take(n as int) =~= t@);
    best
}

/// The largest template number of the types named `name`.
pub fn get_last_template_index(data: &Vec<ConfigType>, kind_name: &str) -> (r: usize)
    ensures
        r == last_template_index(data@, kind_name@),
{
    let mut best: usize = 0;
    let mut i: usize = 0;
    while i < data.len()
        invariant
            i <= data@.len(),
            best == last_template_index(data@.take(i as int), kind_name@),
        decreases data.len() - i,
    {
        assert(data@.take(i + 1).drop_last() =~= data@.take(i as int));
        assert(data@.take(i + 1).last() == data@[i as int]);
        if str_eq(data[i].kind_name.as_str(), kind_name) {
            let q = template_index_max(&data[i].template);
            if q > best {
                best = q;
            }
        }
        i = i + 1;
    }
    assert(data@.take(data@.len() as int) =~= data@);
    best
}

/// Replaces the templates and lookups of the first type named `kind_name`,
/// numbering the templates after the largest number its name already uses,
/// and stamps it `now`; an error naming the type when there is none.
pub fn update_type(
    data: &mut Vec<ConfigType>,
    kind_name: &str,
    template: Vec<String>,
    infos: Infos,
    now: String,
) -> (r: Result<MyTip, MyError>)
    requires
        template@.len() > 0 ==> last_template_index(old(data)@, kind_name@) + template@.len() <= usize::MAX,
    ensures
        r matches Err(e) ==> e matches MyError::NotFound(m) && m@ == "型号: "@ + kind_name@,
        r matches Ok(t) ==> t matches MyTip::UpdateDone(m) && m@ == "型号: "@ + kind_name@,
        r is Ok <==> names_of(old(data)@).contains(kind_name@),
        r is Err ==> final(data)@ == old(data)@,
        r is Ok ==> exists|i: int| #![trigger is_first_index(names_of(old(data)@), kind_name@, i)] {
            &&& is_first_index(names_of(old(data)@), kind_name@, i)
            &&& final(data)@ == old(data)@.update(i, ConfigType {
                template: final(data)@[i].template,
                infos,
                update_time: Some(now),
                ..old(data)@[i]
            })
            &&& final(data)@[i].template.wf()
            &&& final(data)@[i].template@ == numbered_view(
                template@,
                last_template_index(old(data)@, kind_name@) + 1int,
            )
        },
{
    let last = get_last_template_index(data, kind_name);
    let start: usize = if template.len() > 0 { last + 1 } else { 0 };
    let ghost vals = template@;
    let new_template = numbered_templates(template, start);
    assert(vals.len() == 0 ==> numbered_view(vals, start as int) =~= numbered_view(vals, last + 1int));
    match find_named(data, kind_name) {
        Some(i) => {
            let mut item = data.remove(i);
            let ghost old_item = item;
            item.template = new_template;
            item.infos = infos;
            item.update_time = Some(now);
            data.insert(i, item);
            proof {
                assert(data@ =~= old(data)@.update(i as int, item));
            }
            Ok(MyTip::UpdateDone(concat("型号: ", kind_name)))
        },
        None => Err(MyError::NotFound(concat("型号: ", kind_name))),
    }
}

/// Removes every type named `kind_name`; an error naming it when there was none.
pub fn delete_type(data: &mut Vec<ConfigType>, kind_name: &str) -> (r: Result<MyTip, MyError>)
    ensures
        final(data)@ == old(data)@.filter(not_named::<ConfigType>(kind_name@)),
        r is Ok <==> names_of(old(data)@).contains(kind_name@),
        r matches Ok(t) ==> t matches MyTip::DeleteDone(m) && m@ == "型号: "@ + kind_name@,
        r matches Err(e) ==> e matches MyError::NotFound(m) && m@ == "型号: "@ + kind_name@,
{
    if delete_named(data, kind_name) {
        Ok(MyTip::DeleteDone(concat("型号: ", kind_name)))
    } else {
        Err(MyError::NotFound(concat("型号: ", kind_name)))
    }
}

/// A type that is not stored has no templates and no lookups.
pub proof fn lemma_absent_type(items: Seq<ConfigType>, name: Seq<char>)
    requires
        !names_of(items).contains(name),
    ensures
        type_template_values(items, name) == Seq::<Seq<char>>::empty(),
        type_infos_of(items, name) == no_infos(),
    decreases items.len(),
{
    if items.len() > 0 {
        let t = items.drop_last();
        assert(names_of(items)[items.len() - 1] == items.last().kind_name@);
        if names_of(t).contains(name) {
            let w = choose|w: int| 0 <= w < names_of(t).len() && names_of(t)[w] == name;
            assert(names_of(items)[w] == name);
        }
        lemma_absent_type(t, name);
    }
}

/// Numbered keys are never bookkeeping keys: the template names of a numbered
/// map are its values, in order.
pub proof fn lemma_numbered_values(vals: Seq<String>, start: int)
    requires
        start >= 0,
    ensures
        kept_values(numbered_view(vals, start)) == views(vals),
    decreases vals.len(),
{
    reveal_strlit("id");
    reveal_strlit("create_time");
    reveal_strlit("update_time");
    reveal_strlit("type");
    reveal_strlit("_name");
    if vals.len() > 0 {
        let t = vals.drop_last();
        lemma_numbered_values(t, start);
        let nv = numbered_view(vals, start);
        assert(nv.drop_last() =~= numbered_view(t, start));
        let key = decimal((start + vals.len() - 1) as nat);
        assert(nv.last().0 == key);
        crate::text::lemma_decimal_nonempty((start + vals.len() - 1) as nat);
        crate::text::lemma_decimal_digits((start + vals.len() - 1) as nat);
        assert(!excluded_type_key(key)) by {
            assert(key.len() > 0);
            assert(crate::text::is_digit_char(key[0]));
        }
        assert(views(vals) =~= views(t).push(vals.last()@));
    } else {
        assert(views(vals) =~= Seq::<Seq<char>>::empty());
    }
}

/// A type added is what its lookup then reports: the templates it was added
/// with, in order, and its lookups.
pub proof fn law_added_type_found(data: Seq<ConfigType>, item: ConfigType, templates: Seq<String>)
    requires
        !names_of(data).contains(item.kind_name@),
        item.template@ == numbered_view(templates, 1),
    ensures
        type_template_values(data.push(item), item.kind_name@) == views(templates),
        type_infos_of(data.push(item), item.kind_name@) == item.infos,
{
    let d = data.push(item);
    assert(d.drop_last() =~= data);
    lemma_absent_type(data, item.kind_name@);
    lemma_numbered_values(templates, 1);
    assert(Seq::<Seq<char>>::empty() + views(templates) =~= views(templates));
}

} // verus!
