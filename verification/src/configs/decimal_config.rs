//! Export templates: per sheet column, how values are rounded and filled in.
use vstd::prelude::*;
use crate::configs::named::{delete_named, find_named, names_of, not_named, unique_names, NamedItem};
use crate::error::{MyError, MyTip};
use crate::strmap::{assoc_keys, StrMap};
use crate::text::{
    blank, concat, is_blank, is_first_index, str_eq, strip_line_breaks, text, unique_in_order, views,
    without_line_breaks,
};

verus! {

/// Where the templates are stored.
pub const TOML_FILE_PATH: &'static str = "././configs/decimal_config.toml";

/// The stored file: a list of templates.
pub struct Config {
    /// The templates, in file order.
    pub templates: Vec<Template>,
}

/// One export template.
pub struct Template {
    /// Its id.
    pub id: u32,
    /// Its name, also the name of its sheet file.
    pub template_name: String,
    /// When it was created.
    pub create_time: String,
    /// When it was last changed.
    pub update_time: Option<String>,
    /// How many header rows the sheet has ("1" for one, else two).
    pub row: String,
    /// Per sheet column, how its values are formatted.
    pub infos: StrMap<InfoDetail>,
    /// Fixed cells: address to value or to one of "Date", "DateTime", "Quantity".
    pub tables: StrMap<String>,
}

/// How the values of one sheet column are formatted.
pub struct InfoDetail {
    /// Whether values are randomised within bounds.
    pub roudan: bool,
    /// Lower bound.
    pub roudan_min: String,
    /// Upper bound.
    pub roudan_max: String,
    /// Step.
    pub roudan_size: String,
    /// Kind of value.
    pub data_type: String,
    /// Where the value comes from.
    pub data_select: String,
    /// Text written as is.
    pub fixed_content: String,
    /// Number of decimals.
    pub decimal: String,
}

impl InfoDetail {
    /// Nothing configured.
    pub open spec fn is_blank(&self) -> bool {
        &&& !self.roudan
        &&& self.roudan_min@.len() == 0
        &&& self.roudan_max@.len() == 0
        &&& self.roudan_size@.len() == 0
        &&& self.data_type@.len() == 0
        &&& self.data_select@.len() == 0
        &&& self.fixed_content@.len() == 0
        &&& self.decimal@.len() == 0
    }

    /// A column format with nothing configured.
    pub fn empty() -> (r: Self)
        ensures
            r.is_blank(),
    {
        InfoDetail {
            roudan: false,
            roudan_min: String::new(),
            roudan_max: String::new(),
            roudan_size: String::new(),
            data_type: String::new(),
            data_select: String::new(),
            fixed_content: String::new(),
            decimal: String::new(),
        }
    }
}

/// What an export needs of a template.
pub struct TemplateConfig {
    /// How many header rows the sheet has.
    pub row: String,
    /// Per sheet column, how its values are formatted.
    pub infos: StrMap<InfoDetail>,
    /// Fixed cells.
    pub tables: StrMap<String>,
}

impl NamedItem for Template {
    open spec fn item_name(&self) -> Seq<char> {
        self.template_name@
    }

    fn name_text(&self) -> (r: &str) {
        self.template_name.as_str()
    }

    fn name_string(&self) -> (r: String) {
        self.template_name.clone()
    }
}

/// The path of the stored templates.
pub fn get_file_path() -> (r: String)
    ensures
        r@ == TOML_FILE_PATH@,
{
    text(TOML_FILE_PATH)
}

/// The distinct template names, each where it first occurs; an error when
/// there are no templates.
pub fn get_templates(data: &Vec<Template>) -> (r: Result<Vec<String>, MyError>)
    ensures
        data@.len() == 0 ==> r == Err::<Vec<String>, MyError>(MyError::UnLoadedTemplates),
        data@.len() > 0 ==> (r matches Ok(t) && views(t@) == unique_in_order(names_of(data@))),
{
    if data.len() == 0 {
        return Err(MyError::UnLoadedTemplates);
    }
    Ok(unique_names(data))
}

/// The configuration of the first template named `template_name`. Errors:
/// no templates at all; no such template; neither column formats nor fixed
/// cells configured.
pub fn get_decimal_config_value(data: Vec<Template>, template_name: &str) -> (r: Result<TemplateConfig, MyError>)
    ensures
        data@.len() == 0 ==> (r matches Err(MyError::UnLoadedTemplates)),
        data@.len() > 0 && !names_of(data@).contains(template_name@) ==> (r matches Err(MyError::NotFound(m))
            && m@ == "模板: "@ + template_name@),
        forall|i: int| is_first_index(names_of(data@), template_name@, i) ==> {
            let t = #[trigger] data@[i];
            if t.infos@.len() == 0 && t.tables@.len() == 0 {
                r matches Err(MyError::NotFound(m)) && m@ == "模板: "@ + template_name@ + " 的 infos 和 tables 字段均为空"@
            } else {
                r matches Ok(c) && c.row == t.row && c.infos == t.infos && c.tables == t.tables
            }
        },
{
    if data.len() == 0 {
        return Err(MyError::UnLoadedTemplates);
    }
    let ghost d = data@;
    let mut data = data;
    match find_named(&data, template_name) {
        Some(i) => {
            let item = data.remove(i);
            proof {
                assert forall|j: int| is_first_index(names_of(d), template_name@, j) implies j == i by {
                    if j < i {
                        assert(names_of(d)[j] != template_name@);
                    } else if j > i {
                        assert(names_of(d)[i as int] != template_name@);
                    }
                }
            }
            if item.infos.is_empty() && item.tables.is_empty() {
                let mut m = concat("模板: ", template_name);
                m.append(" 的 infos 和 tables 字段均为空");
                return Err(MyError::NotFound(m));
            }
            Ok(TemplateConfig { row: item.row, infos: item.infos, tables: item.tables })
        },
        None => Err(MyError::NotFound(concat("模板: ", template_name))),
    }
}

/// The message refusing a template name already taken.
pub open spec fn taken_message(name: Seq<char>) -> Seq<char> {
    "模板："@ + name + " 已存在"@
}

/// Refuses a template name that is already taken.
pub fn ensure_new_template(data: &Vec<Template>, template_name: &str) -> (r: Result<(), MyError>)
    ensures
        r is Ok <==> !names_of(data@).contains(template_name@),
        r matches Err(e) ==> e matches MyError::Haved(m) && m@ == taken_message(template_name@),
{
    if find_named(data, template_name).is_some() {
        let mut m = concat("模板：", template_name);
        m.append(" 已存在");
        return Err(MyError::Haved(m));
    }
    Ok(())
}

/// The sheet rows holding the header: the last row when the header has one
/// row ("1"), else the last two.
pub fn header_rows_to_scan(highest_row: u32, rows: &str) -> (r: Vec<u32>)
    requires
        rows@ != "1"@ ==> highest_row >= 1,
    ensures
        rows@ == "1"@ ==> r@ == seq![highest_row],
        rows@ != "1"@ ==> r@ == seq![(highest_row - 1) as u32, highest_row],
{
    if str_eq(rows, "1") {
        vec![highest_row]
    } else {
        vec![highest_row - 1, highest_row]
    }
}

/// Cells of the header rows: `cells[r][c]` is the text of column `c + 1` in
/// the `r`-th scanned row, `None` where the sheet has no cell.
pub type HeaderCells = Vec<Vec<Option<String>>>;

/// The text of a header cell, `None` past the end of its row.
pub open spec fn cell_text(cells: Seq<Vec<Option<String>>>, r: int, c: int) -> Option<Seq<char>> {
    if 0 <= c < cells[r]@.len() {
        match cells[r]@[c] {
            Some(s) => Some(s@),
            None => None,
        }
    } else {
        None
    }
}

/// The cell holds something other than white space.
pub open spec fn filled(cells: Seq<Vec<Option<String>>>, r: int, c: int) -> bool {
    cell_text(cells, r, c) matches Some(t) && !blank(t)
}

/// The filled cells of column `c` in the first `k` header rows, joined.
pub open spec fn column_text_upto(cells: Seq<Vec<Option<String>>>, c: int, k: int) -> Seq<char>
    decreases k,
{
    if k <= 0 {
        Seq::empty()
    } else if filled(cells, k - 1, c) {
        column_text_upto(cells, c, k - 1) + cell_text(cells, k - 1, c).unwrap()
    } else {
        column_text_upto(cells, c, k - 1)
    }
}

/// Column `c` has a filled cell in some header row.
pub open spec fn column_found(cells: Seq<Vec<Option<String>>>, c: int) -> bool {
    exists|r: int| 0 <= r < cells.len() && #[trigger] filled(cells, r, c)
}

/// `h` are the header texts: one per column from the first on, the filled
/// cells of each column joined, ending before the first column without any.
pub open spec fn are_headers(cells: Seq<Vec<Option<String>>>, h: Seq<Seq<char>>) -> bool {
    &&& forall|c: int| 0 <= c < h.len() ==> #[trigger] column_found(cells, c)
    &&& forall|c: int| 0 <= c < h.len() ==> #[trigger] h[c] == column_text_upto(cells, c, cells.len() as int)
    &&& !column_found(cells, h.len() as int)
}

/// The header texts of a sheet, read column by column until a column whose
/// header cells are all empty.
pub fn combine_headers(cells: &HeaderCells) -> (headers: Vec<String>)
    ensures
        are_headers(cells@, views(headers@)),
{
    let mut width: usize = 0;
    let mut k: usize = 0;
    while k < cells.len()
        invariant
            k <= cells@.len(),
            forall|j: int| 0 <= j < k ==> cells@[j]@.len() <= width,
        decreases cells.len() - k,
    {
        if cells[k].len() > width {
            width = cells[k].len();
        }
        k = k + 1;
    }
    let mut headers: Vec<String> = Vec::new();
    let ghost mut wit: Seq<int> = Seq::empty();
    let mut col: usize = 0;
    loop
        invariant
            col == headers@.len(),
            col == wit.len(),
            forall|j: int| 0 <= j < cells@.len() ==> cells@[j]@.len() <= width,
            forall|c: int| 0 <= c < col ==> 0 <= #[trigger] wit[c] < cells@.len() && filled(cells@, wit[c], c),
            forall|c: int| 0 <= c < col ==> #[trigger] views(headers@)[c]
                == column_text_upto(cells@, c, cells@.len() as int),
            col <= width + 1,
        ensures
            col == headers@.len(),
            col == wit.len(),
            forall|c: int| 0 <= c < col ==> 0 <= #[trigger] wit[c] < cells@.len() && filled(cells@, wit[c], c),
            forall|c: int| 0 <= c < col ==> #[trigger] views(headers@)[c]
                == column_text_upto(cells@, c, cells@.len() as int),
            !column_found(cells@, col as int),
        decreases width + 1 - col,
    {
        let mut combined = String::new();
        let mut found = false;
        let ghost mut at: int = 0;
        let mut r: usize = 0;
        while r < cells.len()
            invariant
                r <= cells@.len(),
                combined@ == column_text_upto(cells@, col as int, r as int),
                found ==> 0 <= at < r && filled(cells@, at, col as int),
                !found ==> forall|j: int| 0 <= j < r ==> !#[trigger] filled(cells@, j, col as int),
            decreases cells.len() - r,
        {
            let row = &cells[r];
            if col < row.len() {
                match &row[col] {
                    Some(v) => {
                        if !is_blank(v.as_str()) {
                            combined.append(v.as_str());
                            found = true;
                            proof {
                                at = r as int;
                            }
                        }
                    },
                    None => {},
                }
            }
            r = r + 1;
        }
        if !found {
            break;
        }
        proof {
            assert(col < cells@[at]@.len());
        }
        let ghost before = headers@;
        let ghost cv = combined@;
        headers.push(combined);
        proof {
            let old_wit = wit;
            wit = wit.push(at);
            assert forall|c: int| 0 <= c < col + 1 implies 0 <= #[trigger] wit[c] < cells@.len() && filled(cells@, wit[c], c) by {
                if c < col {
                    assert(wit[c] == old_wit[c]);
                }
            }
            assert forall|c: int| 0 <= c < col + 1 implies #[trigger] views(headers@)[c]
                == column_text_upto(cells@, c, cells@.len() as int) by {
                if c < col {
                    assert(views(headers@)[c] == views(before)[c]);
                } else {
                    assert(views(headers@)[c] == cv);
                }
            }
        }
        col = col + 1;
    }
    assert forall|c: int| 0 <= c < views(headers@).len() implies #[trigger] column_found(cells@, c) by {
        assert(0 <= wit[c] < cells@.len() && filled(cells@, wit[c], c));
    }
    assert(are_headers(cells@, views(headers@)));
    headers
}

/// The column formats of a new template: one blank format per distinct
/// header, once its line breaks are removed.
pub open spec fn new_info_keys(headers: Seq<Seq<char>>) -> Seq<Seq<char>> {
    unique_in_order(headers.map_values(|h: Seq<char>| without_line_breaks(h)))
}

fn blank_infos(headers: &Vec<String>) -> (r: StrMap<InfoDetail>)
    ensures
        r.wf(),
        assoc_keys(r@) == new_info_keys(views(headers@)),
        forall|i: int| 0 <= i < r@.len() ==> (#[trigger] r@[i]).1.is_blank(),
{
    let ghost hs = views(headers@).map_values(|h: Seq<char>| without_line_breaks(h));
    let mut m: StrMap<InfoDetail> = StrMap::new();
    let mut i: usize = 0;
    assert(assoc_keys(m@) =~= unique_in_order(hs.take(0)));
    while i < headers.len()
        invariant
            i <= headers@.len(),
            hs == views(headers@).map_values(|h: Seq<char>| without_line_breaks(h)),
            m.wf(),
            assoc_keys(m@) == unique_in_order(hs.take(i as int)),
            forall|j: int| 0 <= j < m@.len() ==> (#[trigger] m@[j]).1.is_blank(),
        decreases headers.len() - i,
    {
        let key = strip_line_breaks(headers[i].as_str());
        assert(key@ == hs[i as int]);
        assert(hs.take(i + 1).drop_last() =~= hs.take(i as int));
        assert(hs.take(i + 1).last() == key@);
        let ghost before = m@;
        if !m.contains_key(key.as_str()) {
            proof {
                if assoc_keys(before).contains(key@) {
                    let w = choose|w: int| 0 <= w < assoc_keys(before).len() && assoc_keys(before)[w] == key@;
                    assert(before[w].0 == key@);
                }
            }
            m.insert(key, InfoDetail::empty());
            assert(assoc_keys(m@) =~= assoc_keys(before).push(hs[i as int]));
        } else {
            proof {
                let w = choose|w: int| 0 <= w < before.len() && before[w].0 == key@;
                assert(assoc_keys(before)[w] == key@);
            }
        }
        i = i + 1;
    }
    assert(hs.take(headers@.len() as int) =~= hs);
    m
}

/// Adds template `template_name`: its header is read from `header_cells` (the
/// rows `header_rows_to_scan` names), each distinct header gets a blank column
/// format, it has no fixed cells, the next id and is stamped `now`. An error
/// when the name is taken.
pub fn add_new_template(
    data: &mut Vec<Template>,
    template_name: String,
    rows: String,
    header_cells: &HeaderCells,
    now: String,
) -> (r: Result<MyTip, MyError>)
    requires
        old(data)@.len() > 0 ==> old(data)@.last().id < u32::MAX,
    ensures
        r is Err <==> names_of(old(data)@).contains(template_name@),
        r matches Err(e) ==> e matches MyError::Haved(m) && m@ == taken_message(template_name@),
        r matches Ok(t) ==> t matches MyTip::AddDone(m) && m@ == "模板: "@ + template_name@,
        r is Err ==> final(data)@ == old(data)@,
        r is Ok ==> exists|headers: Seq<Seq<char>>| #![trigger are_headers(header_cells@, headers)] {
            &&& are_headers(header_cells@, headers)
            &&& final(data)@.len() == old(data)@.len() + 1
            &&& final(data)@.take(old(data)@.len() as int) == old(data)@
            &&& final(data)@.last().id == if old(data)@.len() == 0 { 1 } else { old(data)@.last().id + 1 }
            &&& final(data)@.last().template_name == template_name
            &&& final(data)@.last().create_time == now
            &&& final(data)@.last().update_time.is_none()
            &&& final(data)@.last().row == rows
            &&& final(data)@.last().infos.wf()
            &&& assoc_keys(final(data)@.last().infos@) == new_info_keys(headers)
            &&& forall|i: int| 0 <= i < final(data)@.last().infos@.len() ==> (#[trigger] final(data)@.last().infos@[i]).1.is_blank()
            &&& final(data)@.last().tables@.len() == 0
        },
{
    match ensure_new_template(data, template_name.as_str()) {
        Ok(()) => {},
        Err(e) => {
            return Err(e);
        },
    }
    let headers = combine_headers(header_cells);
    let new_id: u32 = if data.len() > 0 {
        data[data.len() - 1].id + 1
    } else {
        1
    };
    let infos = blank_infos(&headers);
    let message = concat("模板: ", template_name.as_str());
    data.push(Template {
        id: new_id,
        template_name,
        create_time: now,
        update_time: None,
        row: rows,
        infos,
        tables: StrMap::new(),
    });
    assert(data@.take(old(data)@.len() as int) =~= old(data)@);
    assert(are_headers(header_cells@, views(headers@)));
    Ok(MyTip::AddDone(message))
}

/// Replaces the configuration of the first template named `template_name`
/// and stamps it `now`; an error naming the template when there is none.
pub fn update_template(
    data: &mut Vec<Template>,
    template_name: &str,
    template_config: TemplateConfig,
    now: String,
) -> (r: Result<MyTip, MyError>)
    ensures
        r is Ok <==> names_of(old(data)@).contains(template_name@),
        r matches Ok(t) ==> t matches MyTip::UpdateDone(m) && m@ == "模板: "@ + template_name@,
        r matches Err(e) ==> e matches MyError::NotFound(m) && m@ == "模板: "@ + template_name@,
        r is Err ==> final(data)@ == old(data)@,
        r is Ok ==> exists|i: int| #![trigger is_first_index(names_of(old(data)@), template_name@, i)] {
            &&& is_first_index(names_of(old(data)@), template_name@, i)
            &&& final(data)@ == old(data)@.update(i, Template {
                update_time: Some(now),
                row: template_config.row,
                infos: template_config.infos,
                tables: template_config.tables,
                ..old(data)@[i]
            })
        },
{
    match find_named(data, template_name) {
        Some(i) => {
            let mut item = data.remove(i);
            item.update_time = Some(now);
            item.row = template_config.row;
            item.infos = template_config.infos;
            item.tables = template_config.tables;
            data.insert(i, item);
            assert(data@ =~= old(data)@.update(i as int, item));
            Ok(MyTip::UpdateDone(concat("模板: ", template_name)))
        },
        None => Err(MyError::NotFound(concat("模板: ", template_name))),
    }
}

/// Removes every template named `template_name`; an error naming it when
/// there was none.
pub fn delete_template(data: &mut Vec<Template>, template_name: &str) -> (r: Result<MyTip, MyError>)
    ensures
        final(data)@ == old(data)@.filter(not_named::<Template>(template_name@)),
        r is Ok <==> names_of(old(data)@).contains(template_name@),
        r matches Ok(t) ==> t matches MyTip::DeleteDone(m) && m@ == "模板: "@ + template_name@,
        r matches Err(e) ==> e matches MyError::NotFound(m) && m@ == "模板: "@ + template_name@,
{
    if delete_named(data, template_name) {
        Ok(MyTip::DeleteDone(concat("模板: ", template_name)))
    } else {
        Err(MyError::NotFound(concat("模板: ", template_name)))
    }
}

} // verus!
