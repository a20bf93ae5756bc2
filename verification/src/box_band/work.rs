//! The boxes of a carton to bind, the binding rows written, and the outcome
//! of a binding run.
use vstd::prelude::*;
use crate::error::MyError;
use crate::records::{or_empty, text_or_empty, BoxBandData};
use crate::sorting::{sort_by_box_no, stable_sort_of};
use crate::text::{concat, contains_text, text, views};

verus! {

/// Writes one binding row; its values are those `band_params` lists.
pub const BIND_INSERT_SQL: &'static str = "INSERT INTO [mes_Factory].[dbo].[jz_box_bind] (carton_No, pkg_No, box_No, [module], p_No, status, createtime) VALUES (@P1, @P2, @P3, @P4, @P5, @P6, @P7)";

/// The boxes of a carton, newest packing first.
pub const CARTON_BOXES_SQL: &'static str = "SELECT a.Pack_no, a.pn, b.CartonNo, a.CreateTime\n        FROM [mes_Factory].[dbo].[MaterialPackSn] a\n        INNER JOIN [mes_Factory].[dbo].[packing_carton] b ON a.Pack_no = b.Packing_no\n        WHERE b.CartonNo = @P1 AND b.PnOptionID = '-100'\n        ORDER BY b.CreateTime DESC, b.Packing_no DESC, a.Pack_no ASC";

/// Whether a carton has an active binding.
pub const CHECK_BOUND_SQL: &'static str = "SELECT TOP 1 carton_No \n        FROM [mes_Factory].[dbo].[jz_box_bind]\n        WHERE carton_No = @P1 AND status = '0'";

/// Ends the bindings of a box, by old or new box number.
pub const UNBIND_BOX_SQL: &'static str = "UPDATE [mes_Factory].[dbo].[jz_box_bind] \n               SET status = '1' \n               WHERE pkg_No = @P1 OR box_No = @P1";

/// Ends the bindings of a carton.
pub const UNBIND_CARTON_SQL: &'static str = "UPDATE [mes_Factory].[dbo].[jz_box_bind] \n               SET status = '1' \n               WHERE carton_No = @P1";


/// One row of the query of a carton's boxes, as read from the database.
pub struct BandRow {
    /// Box number.
    pub box_no: Option<String>,
    /// Part number.
    pub pn: Option<String>,
    /// Carton number.
    pub carton_no: Option<String>,
    /// Packing time, formatted.
    pub create_time: String,
}

/// The box numbers of the rows, an absent one read as empty.
pub open spec fn band_row_boxes(rows: Seq<BandRow>) -> Seq<Seq<char>> {
    rows.map_values(|x: BandRow| or_empty(x.box_no))
}

/// The rows kept: the first with each box number (an absent one read as empty).
pub open spec fn kept_band_rows(rows: Seq<BandRow>) -> Seq<BandRow>
    decreases rows.len(),
{
    if rows.len() == 0 {
        Seq::empty()
    } else {
        let p = kept_band_rows(rows.drop_last());
        if band_row_boxes(rows.drop_last()).contains(or_empty(rows.last().box_no)) {
            p
        } else {
            p.push(rows.last())
        }
    }
}

/// `d` is the box a kept row describes, with no new box number yet.
pub open spec fn band_data_of_row(d: BoxBandData, x: BandRow) -> bool {
    &&& d.box_no@ == or_empty(x.box_no)
    &&& d.pn@ == or_empty(x.pn)
    &&& d.carton_no@ == or_empty(x.carton_no)
    &&& d.create_time == x.create_time
    &&& d.new_box_no@.len() == 0
}

/// The message of a carton without boxes.
pub open spec fn no_boxes_message() -> Seq<char> {
    "未查询到相关信息!!!"@
}

/// The boxes of a carton from the rows of its query: the first row of each
/// box number, ordered by box number; an error when there is none.
pub fn carton_boxes_from_rows(rows: Vec<BandRow>) -> (r: Result<Vec<BoxBandData>, MyError>)
    ensures
        kept_band_rows(rows@).len() == 0 ==> (r matches Err(MyError::Zdyknown(m)) && m@ == no_boxes_message()),
        kept_band_rows(rows@).len() > 0 ==> (r matches Ok(v) && exists|d: Seq<BoxBandData>| {
            &&& #[trigger] d.len() == kept_band_rows(rows@).len()
            &&& forall|i: int| 0 <= i < d.len() ==> band_data_of_row(#[trigger] d[i], kept_band_rows(rows@)[i])
            &&& stable_sort_of(v@, d)
        }),
{
    let ghost all = rows@;
    let n = rows.len();
    let mut rest = rows;
    let mut seen: Vec<String> = Vec::new();
    let mut out: Vec<BoxBandData> = Vec::new();
    let mut i: usize = 0;
    assert(all.take(0) =~= Seq::<BandRow>::empty());
    while i < n
        invariant
            i <= n,
            n == all.len(),
            rest@ == all.skip(i as int),
            views(seen@) == band_row_boxes(all.take(i as int)),
            out@.len() == kept_band_rows(all.take(i as int)).len(),
            forall|k: int| 0 <= k < out@.len() ==> band_data_of_row(#[trigger] out@[k], kept_band_rows(all.take(i as int))[k]),
        decreases n - i,
    {
        let x = rest.remove(0);
        let ghost t = all.take(i as int);
        proof {
            assert(x == all[i as int]);
            assert(rest@ =~= all.skip(i + 1));
            assert(all.take(i + 1).drop_last() =~= t);
            assert(all.take(i + 1).last() == x);
        }
        let box_no = text_or_empty(&x.box_no);
        let ghost before_seen = seen@;
        if !contains_text(&seen, box_no.as_str()) {
            let d = BoxBandData {
                box_no: box_no.clone(),
                pn: text_or_empty(&x.pn),
                carton_no: text_or_empty(&x.carton_no),
                new_box_no: String::new(),
                create_time: x.create_time.clone(),
            };
            out.push(d);
        }
        seen.push(box_no);
        assert(views(seen@) =~= views(before_seen).push(or_empty(x.box_no)));
        assert(band_row_boxes(all.take(i + 1)) =~= band_row_boxes(t).push(or_empty(x.box_no)));
        i = i + 1;
    }
    assert(all.take(n as int) =~= all);
    if out.len() == 0 {
        return Err(MyError::Zdyknown(text("未查询到相关信息!!!")));
    }
    let ghost d = out@;
    let sorted = sort_by_box_no(out);
    assert(d.len() == kept_band_rows(all).len());
    Ok(sorted)
}

/// The message of a carton whose boxes are bound already.
pub open spec fn bound_message(carton_no: Seq<char>) -> Seq<char> {
    "箱号: "@ + carton_no + " 已经绑定过。"@
}

/// Refuses a carton with an active binding.
pub fn check_binded(carton_no: &str, already_bound: bool) -> (r: Result<(), MyError>)
    ensures
        already_bound ==> (r matches Err(MyError::Zdyknown(m)) && m@ == bound_message(carton_no@)),
        !already_bound ==> r is Ok,
{
    if already_bound {
        let mut m = concat("箱号: ", carton_no);
        m.append(" 已经绑定过。");
        Err(MyError::Zdyknown(m))
    } else {
        Ok(())
    }
}

/// The values of a binding row: carton, new box number, old box number,
/// module "0", part number, status "0" (active) and the time of binding.
pub open spec fn band_params_spec(d: BoxBandData, datetime: Seq<char>) -> Seq<Seq<char>> {
    seq![d.carton_no@, d.new_box_no@, d.box_no@, "0"@, d.pn@, "0"@, datetime]
}

/// The values of the binding row of a box.
pub fn band_params(d: &BoxBandData, datetime: &str) -> (r: Vec<String>)
    ensures
        views(r@) == band_params_spec(*d, datetime@),
{
    let mut r: Vec<String> = Vec::new();
    r.push(d.carton_no.clone());
    r.push(d.new_box_no.clone());
    r.push(d.box_no.clone());
    r.push(text("0"));
    r.push(d.pn.clone());
    r.push(text("0"));
    r.push(text(datetime));
    assert(views(r@) =~= band_params_spec(*d, datetime@));
    r
}

/// Whether some outcome is an error.
pub open spec fn has_error(results: Seq<Result<(), MyError>>) -> bool {
    exists|i: int| 0 <= i < results.len() && results[i] is Err
}

/// The first failed outcome, in order.
pub open spec fn first_error_at(results: Seq<Result<(), MyError>>, i: int) -> bool {
    &&& 0 <= i < results.len()
    &&& results[i] is Err
    &&& forall|k: int| 0 <= k < i ==> results[k] is Ok
}

/// The outcome of binding every box: the first failure, in the order the
/// boxes were given, or success when none failed.
pub fn first_error(results: Vec<Result<(), MyError>>) -> (r: Result<(), MyError>)
    ensures
        !has_error(results@) ==> r is Ok,
        has_error(results@) ==> exists|i: int| first_error_at(results@, i) && r == results@[i],
{
    let ghost all = results@;
    let n = results.len();
    let mut rest = results;
    let mut i: usize = 0;
    while i < n
        invariant
            i <= n,
            n == all.len(),
            all == results@,
            rest@ == all.skip(i as int),
            forall|k: int| 0 <= k < i ==> all[k] is Ok,
        decreases n - i,
    {
        let x = rest.remove(0);
        assert(x == all[i as int]);
        assert(rest@ =~= all.skip(i + 1));
        match x {
            Ok(()) => {},
            Err(e) => {
                assert(first_error_at(all, i as int));
                return Err(e);
            },
        }
        i = i + 1;
    }
    Ok(())
}

} // verus!
