//! Reading the measured modules of a sheet, naming their part number from the
//! file name, and the values written for each.
use vstd::prelude::*;
use crate::records::{DbData, ImportDBDatas};
use crate::text::{decimal, decimal_text, concat, text, utf8, views};
use vstd::utf8::{decode_utf8, encode_utf8_decode_utf8, is_char_boundary};

verus! {

/// Writes one imported module; its values are those `import_params` lists.
pub const IMPORT_INSERT_SQL: &'static str = "\n        INSERT INTO MAC_10GBOSADATA (\n            SN, Tester, ProductBill, TestType, TestTemp, Sen, Icc, Ith, SE, Pf, Im, Result, TestDate, TcMode, TeMode, TestMethod\n        ) VALUES (\n            @P1, @P2, @P3, @P4, @P5, @P6, @P7, @P8, @P9, @P10, @P11, @P12, @P13, @P14, @P15, @P16\n        )\n    ";


/// One sheet row: the text of each cell, and the power cell as the import
/// writes it (in µW, from mW).
pub struct SheetRow {
    /// The text of each cell, in column order.
    pub cells: Vec<String>,
    /// The power cell, converted.
    pub po: String,
}

/// The rows of the sheets that hold a module: after the four header rows of
/// each sheet, those with at least nine cells.
pub open spec fn data_rows(sheets: Seq<Vec<SheetRow>>) -> Seq<SheetRow>
    decreases sheets.len(),
{
    if sheets.len() == 0 {
        Seq::empty()
    } else {
        data_rows(sheets.drop_last()) + after_header(sheets.last()@).filter(|x: SheetRow| x.cells@.len() >= 9)
    }
}

/// The rows of a sheet after its four header rows.
pub open spec fn after_header(rows: Seq<SheetRow>) -> Seq<SheetRow> {
    if rows.len() <= 4 {
        Seq::empty()
    } else {
        rows.skip(4)
    }
}

/// `d` is the module of a sheet row: serial number, test condition, threshold
/// current, slope efficiency, power, forward voltage, monitor current,
/// sensitivity and supply current, in column order, the power converted.
pub open spec fn import_of_row(d: ImportDBDatas, x: SheetRow) -> bool {
    &&& d.sn@ == x.cells@[0]@
    &&& d.condition_unit@ == x.cells@[1]@
    &&& d.ith@ == x.cells@[2]@
    &&& d.se@ == x.cells@[3]@
    &&& d.po@ == x.po@
    &&& d.vf@ == x.cells@[5]@
    &&& d.im@ == x.cells@[6]@
    &&& d.sen@ == x.cells@[7]@
    &&& d.icc@ == x.cells@[8]@
}

/// The module of a sheet row with nine cells or more.
fn import_from_row(x: &SheetRow) -> (d: ImportDBDatas)
    requires
        x.cells@.len() >= 9,
    ensures
        import_of_row(d, *x),
{
    ImportDBDatas {
        sn: x.cells[0].clone(),
        condition_unit: x.cells[1].clone(),
        ith: x.cells[2].clone(),
        se: x.cells[3].clone(),
        po: x.po.clone(),
        vf: x.cells[5].clone(),
        im: x.cells[6].clone(),
        sen: x.cells[7].clone(),
        icc: x.cells[8].clone(),
    }
}

/// The modules of the sheets, in order.
pub fn extract_rows(sheets: &Vec<Vec<SheetRow>>) -> (r: Vec<ImportDBDatas>)
    ensures
        r@.len() == data_rows(sheets@).len(),
        forall|i: int| 0 <= i < r@.len() ==> import_of_row(#[trigger] r@[i], data_rows(sheets@)[i]),
{
    let mut out: Vec<ImportDBDatas> = Vec::new();
    let mut s: usize = 0;
    assert(sheets@.take(0) =~= Seq::<Vec<SheetRow>>::empty());
    while s < sheets.len()
        invariant
            s <= sheets@.len(),
            out@.len() == data_rows(sheets@.take(s as int)).len(),
            forall|i: int| 0 <= i < out@.len() ==> import_of_row(#[trigger] out@[i], data_rows(sheets@.take(s as int))[i]),
        decreases sheets.len() - s,
    {
        let sheet = &sheets[s];
        let ghost before = data_rows(sheets@.take(s as int));
        let ghost t = sheets@.take(s + 1);
        assert(t.drop_last() =~= sheets@.take(s as int));
        assert(t.last() == sheet);
        let ghost pred = |x: SheetRow| x.cells@.len() >= 9;
        let ghost rows = after_header(sheet@);
        proof {
            reveal(Seq::filter);
        }
        assert(rows.take(0) =~= Seq::<SheetRow>::empty());
        if sheet.len() > 4 {
            let mut j: usize = 4;
            while j < sheet.len()
                invariant
                    4 <= j <= sheet@.len(),
                    sheet@.len() > 4,
                    rows == sheet@.skip(4),
                    out@.len() == before.len() + rows.take(j - 4).filter(pred).len(),
                    forall|i: int| 0 <= i < before.len() ==> import_of_row(#[trigger] out@[i], before[i]),
                    forall|i: int| 0 <= i < rows.take(j - 4).filter(pred).len() ==> import_of_row(
                        #[trigger] out@[before.len() + i],
                        rows.take(j - 4).filter(pred)[i],
                    ),
                    pred == (|x: SheetRow| x.cells@.len() >= 9),
                decreases sheet.len() - j,
            {
                let ghost tk = rows.take(j - 3);
                assert(tk.drop_last() =~= rows.take(j - 4));
                assert(tk.last() == sheet@[j as int]);
                proof {
                    reveal(Seq::filter);
                }
                let x = &sheet[j];
                if x.cells.len() >= 9 {
                    let ghost old_out = out@;
                    out.push(import_from_row(x));
                    assert forall|i: int| 0 <= i < before.len() implies import_of_row(#[trigger] out@[i], before[i]) by {
                        assert(out@[i] == old_out[i]);
                    }
                    assert forall|i: int| 0 <= i < tk.filter(pred).len() implies import_of_row(
                        #[trigger] out@[before.len() + i],
                        tk.filter(pred)[i],
                    ) by {
                        if i < rows.take(j - 4).filter(pred).len() {
                            assert(out@[before.len() + i] == old_out[before.len() + i]);
                        }
                    }
                }
                j = j + 1;
            }
            assert(rows.take(sheet@.len() - 4) =~= rows);
        }
        proof {
            assert(data_rows(t) =~= before + rows.filter(pred));
            assert forall|i: int| 0 <= i < out@.len() implies import_of_row(#[trigger] out@[i], data_rows(t)[i]) by {
                if i >= before.len() {
                    let k = i - before.len();
                    assert(out@[before.len() + k] == out@[i]);
                }
            }
        }
        s = s + 1;
    }
    assert(sheets@.take(sheets@.len() as int) =~= sheets@);
    out
}

/// The part number a file name gives: its first eight bytes.
pub open spec fn pn_of_file_name(f: Seq<char>) -> Seq<char> {
    decode_utf8(utf8(f).subrange(0, 8))
}

/// The first eight bytes of the file name can be cut off.
pub open spec fn pn_cut_ok(f: Seq<char>) -> bool {
    utf8(f).len() >= 8 && is_char_boundary(utf8(f), 8)
}

/// The part number of an import, from its file name.
pub fn pn_from_file_name(f: &str) -> (r: String)
    requires
        pn_cut_ok(f@),
    ensures
        r@ == pn_of_file_name(f@),
{
    let (head, _tail) = f.split_at(8);
    proof {
        encode_utf8_decode_utf8(head@);
    }
    head.to_owned()
}

/// The values written for one module: serial number, tester and bill
/// "hyd_wx", test type the part number, condition, sensitivity, supply
/// current, threshold current, slope efficiency, power, monitor current,
/// result "Ok", the test time, and the modes "0", "1", "point".
pub open spec fn import_params_spec(d: ImportDBDatas, pn: Seq<char>, test_date: Seq<char>) -> Seq<Seq<char>> {
    seq![
        d.sn@, "hyd_wx"@, "hyd_wx"@, pn, d.condition_unit@, d.sen@, d.icc@, d.ith@, d.se@, d.po@, d.im@,
        "Ok"@, test_date, "0"@, "1"@, "point"@,
    ]
}

/// The columns of `IMPORT_INSERT_SQL`, in the order of its parameters.
pub open spec fn import_columns() -> Seq<Seq<char>> {
    seq![
        "SN"@, "Tester"@, "ProductBill"@, "TestType"@, "TestTemp"@, "Sen"@, "Icc"@, "Ith"@, "SE"@, "Pf"@, "Im"@,
        "Result"@, "TestDate"@, "TcMode"@, "TeMode"@, "TestMethod"@,
    ]
}

/// Each column of the insert gets the module's own measurement: the serial
/// number goes to SN, the part number to TestType, the test condition to
/// TestTemp, the sensitivity to Sen, the supply current to Icc, the threshold
/// current to Ith, the slope efficiency to SE, the power to Pf and the monitor
/// current to Im; there is one value per column.
pub proof fn law_import_values_match_columns(d: ImportDBDatas, pn: Seq<char>, test_date: Seq<char>)
    ensures
        import_params_spec(d, pn, test_date).len() == import_columns().len(),
        import_columns()[0] == "SN"@ && import_params_spec(d, pn, test_date)[0] == d.sn@,
        import_columns()[3] == "TestType"@ && import_params_spec(d, pn, test_date)[3] == pn,
        import_columns()[4] == "TestTemp"@ && import_params_spec(d, pn, test_date)[4] == d.condition_unit@,
        import_columns()[5] == "Sen"@ && import_params_spec(d, pn, test_date)[5] == d.sen@,
        import_columns()[6] == "Icc"@ && import_params_spec(d, pn, test_date)[6] == d.icc@,
        import_columns()[7] == "Ith"@ && import_params_spec(d, pn, test_date)[7] == d.ith@,
        import_columns()[8] == "SE"@ && import_params_spec(d, pn, test_date)[8] == d.se@,
        import_columns()[9] == "Pf"@ && import_params_spec(d, pn, test_date)[9] == d.po@,
        import_columns()[10] == "Im"@ && import_params_spec(d, pn, test_date)[10] == d.im@,
        import_columns()[12] == "TestDate"@ && import_params_spec(d, pn, test_date)[12] == test_date,
{
}

/// The values written for one module.
pub fn import_params(d: &ImportDBDatas, pn: &str, test_date: &str) -> (r: Vec<String>)
    ensures
        views(r@) == import_params_spec(*d, pn@, test_date@),
        r@.len() == 16,
        r@[0]@ == d.sn@,
        r@[1]@ == "hyd_wx"@,
        r@[2]@ == "hyd_wx"@,
        r@[3]@ == pn@,
        r@[4]@ == d.condition_unit@,
        r@[5]@ == d.sen@,
        r@[6]@ == d.icc@,
        r@[7]@ == d.ith@,
        r@[8]@ == d.se@,
        r@[9]@ == d.po@,
        r@[10]@ == d.im@,
        r@[11]@ == "Ok"@,
        r@[12]@ == test_date@,
        r@[13]@ == "0"@,
        r@[14]@ == "1"@,
        r@[15]@ == "point"@,
{
    let mut r: Vec<String> = Vec::new();
    r.push(d.sn.clone());
    r.push(text("hyd_wx"));
    r.push(text("hyd_wx"));
    r.push(text(pn));
    r.push(d.condition_unit.clone());
    r.push(d.sen.clone());
    r.push(d.icc.clone());
    r.push(d.ith.clone());
    r.push(d.se.clone());
    r.push(d.po.clone());
    r.push(d.im.clone());
    r.push(text("Ok"));
    r.push(text(test_date));
    r.push(text("0"));
    r.push(text("1"));
    r.push(text("point"));
    assert(views(r@) =~= import_params_spec(*d, pn@, test_date@));
    r
}

/// The modules of a sheet file and the part number its name gives.
pub fn db_data(data: Vec<ImportDBDatas>, file_name: &str, file_path: String) -> (r: DbData)
    requires
        pn_cut_ok(file_name@),
    ensures
        r.data@ == data@,
        r.pn@ == pn_of_file_name(file_name@),
        r.file_path == file_path,
{
    DbData { data, pn: pn_from_file_name(file_name), file_path }
}

/// The quantity of modules, as the pages show it.
pub fn qty_text(qty: usize) -> (r: String)
    ensures
        r@ == "总数量: "@ + decimal(qty as nat) + " PCS"@,
{
    let mut r = concat("总数量: ", decimal_text(qty).as_str());
    r.append(" PCS");
    r
}

} // verus!
