//! What the export page decides: its button label, its labels, and when the
//! modules of a query have all arrived.
use vstd::prelude::*;
use crate::configs::type_config::Infos;
use crate::records::Datas;
use crate::sorting::{sort_by_box_no, stable_sort_of};
use crate::text::{concat, decimal, join_texts, seq_join, text, views};

verus! {

/// "启用" for a switch that is on, "未启用" for one that is off.
pub open spec fn bool2string_spec(value: bool) -> Seq<char> {
    if value { "启用"@ } else { "未启用"@ }
}

/// The text of a switch.
pub fn bool2string(value: bool) -> (r: String)
    ensures
        r@ == bool2string_spec(value),
{
    if value { text("启用") } else { text("未启用") }
}

/// The query button asks for a batch query when no carton number is typed in.
pub open spec fn query_button_spec(input: Seq<char>) -> Seq<char> {
    if input.len() == 0 { "批量查询"@ } else { "箱号查询"@ }
}

/// The label of the query button.
pub fn query_button_text(input: &str) -> (r: String)
    ensures
        r@ == query_button_spec(input@),
{
    if input.unicode_len() == 0 { text("批量查询") } else { text("箱号查询") }
}

/// Whether the query button's label asks for a batch query.
pub fn is_batch_label(label: &str) -> (r: bool)
    ensures
        r == (label@ == "批量查询"@),
{
    crate::text::str_eq(label, "批量查询")
}

/// The labels describing a product type: its lookups and its templates.
pub open spec fn type_labels_spec(templates: Seq<Seq<char>>, infos: Infos) -> Seq<Seq<char>> {
    seq![
        "批次号查询: "@ + bool2string_spec(infos.is_have_pch),
        "批次号-箱号查询: "@ + bool2string_spec(infos.carton_pch),
        "批次号-盒号查询: "@ + bool2string_spec(infos.box_pch),
        "尾标绑定查询: "@ + bool2string_spec(infos.jz_band),
        "自定义盒号查询: "@ + bool2string_spec(infos.zdy_box),
        "关联模板: "@ + seq_join(templates, ", "@),
    ]
}

/// The labels describing a product type; none when it has no templates (the
/// page then keeps its labels).
pub fn type_labels(templates: &Vec<String>, infos: &Infos) -> (r: Option<Vec<String>>)
    ensures
        templates@.len() == 0 ==> r is None,
        templates@.len() > 0 ==> (r matches Some(v) && views(v@) == type_labels_spec(views(templates@), *infos)),
{
    if templates.len() == 0 {
        return None;
    }
    let mut v: Vec<String> = Vec::new();
    v.push(concat("批次号查询: ", bool2string(infos.is_have_pch).as_str()));
    v.push(concat("批次号-箱号查询: ", bool2string(infos.carton_pch).as_str()));
    v.push(concat("批次号-盒号查询: ", bool2string(infos.box_pch).as_str()));
    v.push(concat("尾标绑定查询: ", bool2string(infos.jz_band).as_str()));
    v.push(concat("自定义盒号查询: ", bool2string(infos.zdy_box).as_str()));
    v.push(concat("关联模板: ", join_texts(templates, ", ").as_str()));
    assert(views(v@) =~= type_labels_spec(views(templates@), *infos));
    Some(v)
}

/// The modules a carton export has received, and how many it expects.
pub struct ExportState {
    /// How many modules the queries announced.
    pub qty: usize,
    /// The modules received so far.
    pub export_datas: Vec<Datas>,
}

/// All announced modules have arrived.
pub open spec fn all_arrived(received: nat, qty: nat) -> bool {
    qty > 0 && received == qty
}

impl ExportState {
    /// Nothing expected, nothing received.
    pub fn new() -> (r: Self)
        ensures
            r.qty == 0,
            r.export_datas@.len() == 0,
    {
        ExportState { qty: 0, export_datas: Vec::new() }
    }

    /// A new query starts: nothing expected, nothing received.
    pub fn reset(&mut self)
        ensures
            final(self).qty == 0,
            final(self).export_datas@.len() == 0,
    {
        self.qty = 0;
        self.export_datas = Vec::new();
    }

    /// A query announces `qty` more modules; returns the quantity label.
    pub fn on_qty(&mut self, qty: usize) -> (r: String)
        requires
            old(self).qty + qty <= usize::MAX,
        ensures
            final(self).qty == old(self).qty + qty,
            final(self).export_datas@ == old(self).export_datas@,
            r@ == "总数量: "@ + decimal(final(self).qty as nat) + " PCS"@,
    {
        self.qty = self.qty + qty;
        crate::data_import::work::qty_text(self.qty)
    }

    /// A module arrives. When it is the last one announced, the modules are
    /// ordered by box number (stable), and `true` is returned.
    pub fn on_back(&mut self, data: Datas) -> (r: bool)
        ensures
            final(self).qty == old(self).qty,
            r == all_arrived((old(self).export_datas@.len() + 1) as nat, old(self).qty as nat),
            !r ==> final(self).export_datas@ == old(self).export_datas@.push(data),
            r ==> stable_sort_of(final(self).export_datas@, old(self).export_datas@.push(data)),
    {
        self.export_datas.push(data);
        let done = self.qty > 0 && self.export_datas.len() == self.qty;
        if done {
            let mut datas: Vec<Datas> = Vec::new();
            std::mem::swap(&mut datas, &mut self.export_datas);
            self.export_datas = sort_by_box_no(datas);
        }
        done
    }

    /// An export can start once modules have arrived.
    pub fn can_export(&self) -> (r: bool)
        ensures
            r == (self.export_datas@.len() > 0),
    {
        self.export_datas.len() > 0
    }
}

} // verus!
