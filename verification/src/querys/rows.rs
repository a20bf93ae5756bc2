//! What each row of the result tables shows, column by column.
use vstd::prelude::*;
use crate::records::{CartonData, Datas, ImportDBDatas};
use crate::text::views;

verus! {

/// The columns of a carton table row: carton, box, part number, box and
/// carton packing times.
pub open spec fn carton_row_spec(d: Datas) -> Seq<Seq<char>> {
    seq![
        d.carton_data.carton_no@,
        d.pack_data.box_no@,
        d.carton_data.yypn@,
        d.pack_data.pack_packtime@,
        d.carton_data.carton_packtime@,
    ]
}

/// The texts of a carton table row.
pub fn carton_row_texts(d: &Datas) -> (r: Vec<String>)
    ensures
        views(r@) == carton_row_spec(*d),
{
    let mut r: Vec<String> = Vec::new();
    r.push(d.carton_data.carton_no.clone());
    r.push(d.pack_data.box_no.clone());
    r.push(d.carton_data.yypn.clone());
    r.push(d.pack_data.pack_packtime.clone());
    r.push(d.carton_data.carton_packtime.clone());
    assert(views(r@) =~= carton_row_spec(*d));
    r
}

/// The columns of a serial-number table row: carton, box, serial number, part
/// number, the test values, the test time, and the packing times.
pub open spec fn sn_row_spec(d: Datas) -> Seq<Seq<char>> {
    seq![
        d.carton_data.carton_no@,
        d.pack_data.box_no@,
        d.sn_data.sn@,
        d.carton_data.yypn@,
        d.sn_data.ith@,
        d.sn_data.po@,
        d.sn_data.se@,
        d.sn_data.vf@,
        d.sn_data.im@,
        d.sn_data.rs@,
        d.sn_data.res@,
        d.sn_data.sen@,
        d.sn_data.icc@,
        d.sn_data.idark@,
        d.sn_data.i_xtalk@,
        d.sn_data.kink@,
        d.sn_data.imkink@,
        d.sn_data.testdate@,
        d.pack_data.pack_packtime@,
        d.carton_data.carton_packtime@,
    ]
}

/// The texts of a serial-number table row.
pub fn sn_row_texts(d: &Datas) -> (r: Vec<String>)
    ensures
        views(r@) == sn_row_spec(*d),
{
    let mut r: Vec<String> = Vec::new();
    r.push(d.carton_data.carton_no.clone());
    r.push(d.pack_data.box_no.clone());
    r.push(d.sn_data.sn.clone());
    r.push(d.carton_data.yypn.clone());
    r.push(d.sn_data.ith.clone());
    r.push(d.sn_data.po.clone());
    r.push(d.sn_data.se.clone());
    r.push(d.sn_data.vf.clone());
    r.push(d.sn_data.im.clone());
    r.push(d.sn_data.rs.clone());
    r.push(d.sn_data.res.clone());
    r.push(d.sn_data.sen.clone());
    r.push(d.sn_data.icc.clone());
    r.push(d.sn_data.idark.clone());
    r.push(d.sn_data.i_xtalk.clone());
    r.push(d.sn_data.kink.clone());
    r.push(d.sn_data.imkink.clone());
    r.push(d.sn_data.testdate.clone());
    r.push(d.pack_data.pack_packtime.clone());
    r.push(d.carton_data.carton_packtime.clone());
    assert(views(r@) =~= sn_row_spec(*d));
    r
}

/// The columns of an import table row: the module's fields in sheet order.
pub open spec fn import_row_spec(d: ImportDBDatas) -> Seq<Seq<char>> {
    seq![d.sn@, d.condition_unit@, d.ith@, d.se@, d.po@, d.vf@, d.im@, d.sen@, d.icc@]
}

/// The texts of an import table row.
pub fn import_row_texts(d: &ImportDBDatas) -> (r: Vec<String>)
    ensures
        views(r@) == import_row_spec(*d),
{
    let mut r: Vec<String> = Vec::new();
    r.push(d.sn.clone());
    r.push(d.condition_unit.clone());
    r.push(d.ith.clone());
    r.push(d.se.clone());
    r.push(d.po.clone());
    r.push(d.vf.clone());
    r.push(d.im.clone());
    r.push(d.sen.clone());
    r.push(d.icc.clone());
    assert(views(r@) =~= import_row_spec(*d));
    r
}

/// The modules of a carton, shown under the carton row they were opened from:
/// each takes that row's carton data.
pub fn with_carton_data(datas: Vec<Datas>, carton: &CartonData) -> (r: Vec<Datas>)
    ensures
        r@.len() == datas@.len(),
        forall|i: int| 0 <= i < r@.len() ==> (#[trigger] r@[i]).carton_data == *carton
            && r@[i].pack_data == datas@[i].pack_data
            && r@[i].sn_data == datas@[i].sn_data
            && r@[i].band_data == datas@[i].band_data,
{
    let ghost s = datas@;
    let n = datas.len();
    let mut rest = datas;
    let mut out: Vec<Datas> = Vec::new();
    let mut i: usize = 0;
    while i < n
        invariant
            i <= n,
            n == s.len(),
            rest@ == s.skip(i as int),
            out@.len() == i,
            forall|k: int| 0 <= k < i ==> (#[trigger] out@[k]).carton_data == *carton
                && out@[k].pack_data == s[k].pack_data
                && out@[k].sn_data == s[k].sn_data
                && out@[k].band_data == s[k].band_data,
        decreases n - i,
    {
        let mut d = rest.remove(0);
        assert(d == s[i as int]);
        assert(rest@ =~= s.skip(i + 1));
        d.carton_data = carton.copy();
        out.push(d);
        i = i + 1;
    }
    out
}

} // verus!
