//! The rows the queries, the export and the import work on.
use vstd::prelude::*;

verus! {

/// A copy of an optional text.
pub fn copy_opt(s: &Option<String>) -> (r: Option<String>)
    ensures
        r == *s,
{
    match s {
        Some(t) => Some(t.clone()),
        None => None,
    }
}

/// The text of an optional value, empty when there is none.
pub open spec fn or_empty(o: Option<String>) -> Seq<char> {
    match o {
        Some(s) => s@,
        None => Seq::empty(),
    }
}

/// The text of an optional value, empty when there is none.
pub fn text_or_empty(o: &Option<String>) -> (r: String)
    ensures
        r@ == or_empty(*o),
{
    match o {
        Some(s) => s.clone(),
        None => String::new(),
    }
}

/// The carton a module was packed into.
#[derive(Debug, Clone, Default, PartialEq, Eq)]
pub struct CartonData {
    /// Carton number.
    pub carton_no: String,
    /// Batch code: the last two digits of the year and the week.
    pub pch: String,
    /// Part number.
    pub yypn: String,
    /// Who packed the carton.
    pub carton_worker: String,
    /// When the carton was packed.
    pub carton_packtime: String,
}

impl CartonData {
    /// Every text field is empty.
    pub open spec fn is_blank(&self) -> bool {
        &&& self.carton_no@.len() == 0
        &&& self.pch@.len() == 0
        &&& self.yypn@.len() == 0
        &&& self.carton_worker@.len() == 0
        &&& self.carton_packtime@.len() == 0
    }

    /// A value whose text fields are all empty.
    pub fn empty() -> (r: Self)
        ensures
            r.is_blank(),
    {
        CartonData {
            carton_no: String::new(),
            pch: String::new(),
            yypn: String::new(),
            carton_worker: String::new(),
            carton_packtime: String::new(),
        }
    }

    /// A field-by-field copy.
    pub fn copy(&self) -> (r: Self)
        ensures
            r == *self,
    {
        CartonData {
            carton_no: self.carton_no.clone(),
            pch: self.pch.clone(),
            yypn: self.yypn.clone(),
            carton_worker: self.carton_worker.clone(),
            carton_packtime: self.carton_packtime.clone(),
        }
    }
}

/// The box a module was packed into.
#[derive(Debug, Clone, Default, PartialEq, Eq)]
pub struct PackData {
    /// Box number.
    pub box_no: String,
    /// Who packed the box.
    pub pack_worker: String,
    /// When the box was packed.
    pub pack_packtime: String,
}

impl PackData {
    /// Every text field is empty.
    pub open spec fn is_blank(&self) -> bool {
        &&& self.box_no@.len() == 0
        &&& self.pack_worker@.len() == 0
        &&& self.pack_packtime@.len() == 0
    }

    /// A value whose text fields are all empty.
    pub fn empty() -> (r: Self)
        ensures
            r.is_blank(),
    {
        PackData {
            box_no: String::new(),
            pack_worker: String::new(),
            pack_packtime: String::new(),
        }
    }

    /// A field-by-field copy.
    pub fn copy(&self) -> (r: Self)
        ensures
            r == *self,
    {
        PackData {
            box_no: self.box_no.clone(),
            pack_worker: self.pack_worker.clone(),
            pack_packtime: self.pack_packtime.clone(),
        }
    }
}

/// The label binding of a module.
#[derive(Debug, Clone, Default, PartialEq, Eq)]
pub struct BandData {
    /// Serial number of the module.
    pub w_sn: String,
    /// Serial number it was bound to.
    pub b_sn: String,
    /// When it was bound.
    pub band_time: String,
    /// Who bound it.
    pub band_worker: String,
}

impl BandData {
    /// Every text field is empty.
    pub open spec fn is_blank(&self) -> bool {
        &&& self.w_sn@.len() == 0
        &&& self.b_sn@.len() == 0
        &&& self.band_time@.len() == 0
        &&& self.band_worker@.len() == 0
    }

    /// A value whose text fields are all empty.
    pub fn empty() -> (r: Self)
        ensures
            r.is_blank(),
    {
        BandData {
            w_sn: String::new(),
            b_sn: String::new(),
            band_time: String::new(),
            band_worker: String::new(),
        }
    }

    /// A field-by-field copy.
    pub fn copy(&self) -> (r: Self)
        ensures
            r == *self,
    {
        BandData {
            w_sn: self.w_sn.clone(),
            b_sn: self.b_sn.clone(),
            band_time: self.band_time.clone(),
            band_worker: self.band_worker.clone(),
        }
    }
}

/// The latest test record of one module.
#[derive(Debug, Clone, Default, PartialEq, Eq)]
pub struct Data {
    /// Serial number.
    pub sn: String,
    /// Threshold current.
    pub ith: String,
    /// Forward voltage.
    pub vf: String,
    /// Monitor current.
    pub im: String,
    /// Output power.
    pub po: String,
    /// Series resistance.
    pub rs: String,
    /// Slope efficiency.
    pub se: String,
    /// Sensitivity.
    pub sen: String,
    /// Responsivity.
    pub res: String,
    /// Supply current.
    pub icc: String,
    /// Breakdown voltage.
    pub vbr: String,
    /// Kink.
    pub kink: String,
    /// Monitor-current kink.
    pub imkink: String,
    /// When it was tested.
    pub testdate: String,
    /// Who tested it.
    pub tester: String,
    /// Operating current.
    pub iop: String,
    /// Dark current.
    pub idark: String,
    /// Test verdict.
    pub result: String,
    /// Crosstalk.
    pub i_xtalk: String,
    /// Device id, empty when unknown.
    pub mdpid: String,
    /// Part number.
    pub yypn: String,
    /// Box it was last packed into.
    pub box_no: Option<String>,
    /// Carton it was last packed into.
    pub carton_no: Option<String>,
}

impl Data {
    /// Every text field but the serial number is empty.
    pub open spec fn is_blank_but_sn(&self) -> bool {
        &&& self.ith@.len() == 0
        &&& self.vf@.len() == 0
        &&& self.im@.len() == 0
        &&& self.po@.len() == 0
        &&& self.rs@.len() == 0
        &&& self.se@.len() == 0
        &&& self.sen@.len() == 0
        &&& self.res@.len() == 0
        &&& self.icc@.len() == 0
        &&& self.vbr@.len() == 0
        &&& self.kink@.len() == 0
        &&& self.imkink@.len() == 0
        &&& self.testdate@.len() == 0
        &&& self.tester@.len() == 0
        &&& self.iop@.len() == 0
        &&& self.idark@.len() == 0
        &&& self.result@.len() == 0
        &&& self.i_xtalk@.len() == 0
        &&& self.mdpid@.len() == 0
        &&& self.yypn@.len() == 0
        &&& self.box_no.is_none()
        &&& self.carton_no.is_none()
    }


    /// Every text field is empty.
    pub open spec fn is_blank(&self) -> bool {
        &&& self.sn@.len() == 0
        &&& self.ith@.len() == 0
        &&& self.vf@.len() == 0
        &&& self.im@.len() == 0
        &&& self.po@.len() == 0
        &&& self.rs@.len() == 0
        &&& self.se@.len() == 0
        &&& self.sen@.len() == 0
        &&& self.res@.len() == 0
        &&& self.icc@.len() == 0
        &&& self.vbr@.len() == 0
        &&& self.kink@.len() == 0
        &&& self.imkink@.len() == 0
        &&& self.testdate@.len() == 0
        &&& self.tester@.len() == 0
        &&& self.iop@.len() == 0
        &&& self.idark@.len() == 0
        &&& self.result@.len() == 0
        &&& self.i_xtalk@.len() == 0
        &&& self.mdpid@.len() == 0
        &&& self.yypn@.len() == 0
        &&& self.box_no.is_none()
        &&& self.carton_no.is_none()
    }

    /// A value whose text fields are all empty.
    pub fn empty() -> (r: Self)
        ensures
            r.is_blank(),
    {
        Data {
            sn: String::new(),
            ith: String::new(),
            vf: String::new(),
            im: String::new(),
            po: String::new(),
            rs: String::new(),
            se: String::new(),
            sen: String::new(),
            res: String::new(),
            icc: String::new(),
            vbr: String::new(),
            kink: String::new(),
            imkink: String::new(),
            testdate: String::new(),
            tester: String::new(),
            iop: String::new(),
            idark: String::new(),
            result: String::new(),
            i_xtalk: String::new(),
            mdpid: String::new(),
            yypn: String::new(),
            box_no: None,
            carton_no: None,
        }
    }

    /// A field-by-field copy.
    pub fn copy(&self) -> (r: Self)
        ensures
            r == *self,
    {
        Data {
            sn: self.sn.clone(),
            ith: self.ith.clone(),
            vf: self.vf.clone(),
            im: self.im.clone(),
            po: self.po.clone(),
            rs: self.rs.clone(),
            se: self.se.clone(),
            sen: self.sen.clone(),
            res: self.res.clone(),
            icc: self.icc.clone(),
            vbr: self.vbr.clone(),
            kink: self.kink.clone(),
            imkink: self.imkink.clone(),
            testdate: self.testdate.clone(),
            tester: self.tester.clone(),
            iop: self.iop.clone(),
            idark: self.idark.clone(),
            result: self.result.clone(),
            i_xtalk: self.i_xtalk.clone(),
            mdpid: self.mdpid.clone(),
            yypn: self.yypn.clone(),
            box_no: copy_opt(&self.box_no),
            carton_no: copy_opt(&self.carton_no),
        }
    }
}

/// Everything known about one module: carton, box, test record and binding.
#[derive(Debug, Clone, Default, PartialEq, Eq)]
pub struct Datas {
    /// Its carton.
    pub carton_data: CartonData,
    /// Its box.
    pub pack_data: PackData,
    /// Its test record.
    pub sn_data: Data,
    /// Its label binding.
    pub band_data: BandData,
}

impl Datas {
    /// All parts blank.
    pub open spec fn is_blank(&self) -> bool {
        &&& self.carton_data.is_blank()
        &&& self.pack_data.is_blank()
        &&& self.sn_data.is_blank()
        &&& self.band_data.is_blank()
    }

    /// A value with all parts blank.
    pub fn empty() -> (r: Self)
        ensures
            r.is_blank(),
    {
        Datas {
            carton_data: CartonData::empty(),
            pack_data: PackData::empty(),
            sn_data: Data::empty(),
            band_data: BandData::empty(),
        }
    }

    /// A part-by-part copy.
    pub fn copy(&self) -> (r: Self)
        ensures
            r == *self,
    {
        Datas {
            carton_data: self.carton_data.copy(),
            pack_data: self.pack_data.copy(),
            sn_data: self.sn_data.copy(),
            band_data: self.band_data.copy(),
        }
    }
}

/// A box of a carton, with the box it is to be bound to.
#[derive(Debug, Clone, Default, PartialEq, Eq)]
pub struct BoxBandData {
    /// Box number.
    pub box_no: String,
    /// Part number.
    pub pn: String,
    /// Carton number.
    pub carton_no: String,
    /// Box number it is bound to.
    pub new_box_no: String,
    /// When the box was packed.
    pub create_time: String,
}

impl BoxBandData {
    /// Every text field is empty.
    pub open spec fn is_blank(&self) -> bool {
        &&& self.box_no@.len() == 0
        &&& self.pn@.len() == 0
        &&& self.carton_no@.len() == 0
        &&& self.new_box_no@.len() == 0
        &&& self.create_time@.len() == 0
    }

    /// A value whose text fields are all empty.
    pub fn empty() -> (r: Self)
        ensures
            r.is_blank(),
    {
        BoxBandData {
            box_no: String::new(),
            pn: String::new(),
            carton_no: String::new(),
            new_box_no: String::new(),
            create_time: String::new(),
        }
    }

    /// A field-by-field copy.
    pub fn copy(&self) -> (r: Self)
        ensures
            r == *self,
    {
        BoxBandData {
            box_no: self.box_no.clone(),
            pn: self.pn.clone(),
            carton_no: self.carton_no.clone(),
            new_box_no: self.new_box_no.clone(),
            create_time: self.create_time.clone(),
        }
    }
}

/// One measured module read from an import sheet.
#[derive(Debug, Clone, Default, PartialEq, Eq)]
pub struct ImportDBDatas {
    /// Serial number.
    pub sn: String,
    /// Test condition.
    pub condition_unit: String,
    /// Threshold current.
    pub ith: String,
    /// Slope efficiency.
    pub se: String,
    /// Output power.
    pub po: String,
    /// Forward voltage.
    pub vf: String,
    /// Monitor current.
    pub im: String,
    /// Sensitivity.
    pub sen: String,
    /// Supply current.
    pub icc: String,
}

impl ImportDBDatas {
    /// Every text field is empty.
    pub open spec fn is_blank(&self) -> bool {
        &&& self.sn@.len() == 0
        &&& self.condition_unit@.len() == 0
        &&& self.ith@.len() == 0
        &&& self.se@.len() == 0
        &&& self.po@.len() == 0
        &&& self.vf@.len() == 0
        &&& self.im@.len() == 0
        &&& self.sen@.len() == 0
        &&& self.icc@.len() == 0
    }

    /// A value whose text fields are all empty.
    pub fn empty() -> (r: Self)
        ensures
            r.is_blank(),
    {
        ImportDBDatas {
            sn: String::new(),
            condition_unit: String::new(),
            ith: String::new(),
            se: String::new(),
            po: String::new(),
            vf: String::new(),
            im: String::new(),
            sen: String::new(),
            icc: String::new(),
        }
    }

    /// A field-by-field copy.
    pub fn copy(&self) -> (r: Self)
        ensures
            r == *self,
    {
        ImportDBDatas {
            sn: self.sn.clone(),
            condition_unit: self.condition_unit.clone(),
            ith: self.ith.clone(),
            se: self.se.clone(),
            po: self.po.clone(),
            vf: self.vf.clone(),
            im: self.im.clone(),
            sen: self.sen.clone(),
            icc: self.icc.clone(),
        }
    }
}

/// Rows read from an import sheet, with the part number and file they came from.
#[derive(Debug, Clone, Default, PartialEq, Eq)]
pub struct DbData {
    /// The measured modules.
    pub data: Vec<ImportDBDatas>,
    /// Part number, taken from the file name.
    pub pn: String,
    /// The file read.
    pub file_path: String,
}

} // verus!
