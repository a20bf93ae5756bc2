//! The slots through which query results and imported rows reach the screens.
//!
//! Each slot is created on first use and then holds the latest rows written
//! to it; a read gives back the rows of the last write.
use vstd::prelude::*;
use crate::records::{Datas, DbData, ImportDBDatas};
use crate::strmap::StrMap;

verus! {

/// One row of a query result: column name to text.
pub type Record = StrMap<String>;

/// A slot holding a list of rows, created on first use.
pub struct DataBridge<T> {
    ready: bool,
    rows: Vec<T>,
}

impl<T> DataBridge<T> {
    /// Whether the slot has been created.
    pub closed spec fn is_ready(&self) -> bool {
        self.ready
    }

    /// The rows the slot holds.
    pub closed spec fn rows(&self) -> Seq<T> {
        self.rows@
    }

    /// A slot not yet created; it holds no rows.
    pub fn new() -> (r: Self)
        ensures
            !r.is_ready(),
            r.rows() == Seq::<T>::empty(),
    {
        DataBridge { ready: false, rows: Vec::new() }
    }

    /// Creates the slot if it does not exist yet; its rows stay as they are.
    fn get_or_init(&mut self)
        ensures
            final(self).is_ready(),
            final(self).rows() == old(self).rows(),
    {
        self.ready = true;
    }

    /// Replaces the rows.
    fn replace(&mut self, rows: Vec<T>)
        ensures
            final(self).is_ready(),
            final(self).rows() == rows@,
    {
        self.get_or_init();
        self.rows = rows;
    }

    /// The rows, by reference.
    fn rows_ref(&self) -> (r: &Vec<T>)
        ensures
            r@ == self.rows(),
    {
        &self.rows
    }
}

/// The slot for query results.
pub type SharedQueryData = DataBridge<Record>;

/// The slot for rows read from an import sheet.
pub type SharedImportData = DataBridge<ImportDBDatas>;

/// Two lists of rows hold the same entries, row by row.
pub open spec fn same_records(a: Seq<Record>, b: Seq<Record>) -> bool {
    &&& a.len() == b.len()
    &&& forall|i: int| 0 <= i < a.len() ==> #[trigger] a[i]@ == b[i]@
}

/// Creates the query slot if needed and gives it back; existing rows stay.
pub fn init_bridge(bridge: &mut SharedQueryData) -> (r: &SharedQueryData)
    ensures
        final(bridge).is_ready(),
        final(bridge).rows() == old(bridge).rows(),
        *r == *final(bridge),
{
    bridge.get_or_init();
    bridge
}

/// Stores query results, replacing what the slot held.
pub fn set_query_datas(bridge: &mut SharedQueryData, data: Vec<Record>)
    ensures
        final(bridge).is_ready(),
        final(bridge).rows() == data@,
{
    bridge.replace(data);
}

/// The query slot, created if needed.
pub fn get_query_datas(bridge: &mut SharedQueryData) -> (r: &SharedQueryData)
    ensures
        final(bridge).is_ready(),
        final(bridge).rows() == old(bridge).rows(),
        *r == *final(bridge),
{
    init_bridge(bridge)
}

/// A copy of the stored query results.
pub fn get_query_datas_vec(bridge: &mut SharedQueryData) -> (r: Vec<Record>)
    ensures
        final(bridge).is_ready(),
        final(bridge).rows() == old(bridge).rows(),
        same_records(r@, old(bridge).rows()),
{
    bridge.get_or_init();
    let rows = bridge.rows_ref();
    let mut out: Vec<Record> = Vec::new();
    let mut i: usize = 0;
    while i < rows.len()
        invariant
            i <= rows@.len(),
            out@.len() == i,
            forall|j: int| 0 <= j < i ==> #[trigger] out@[j]@ == rows@[j]@,
        decreases rows.len() - i,
    {
        out.push(rows[i].copy());
        i = i + 1;
    }
    out
}

/// The number of stored query results.
pub fn query_data_len(bridge: &mut SharedQueryData) -> (r: usize)
    ensures
        final(bridge).is_ready(),
        final(bridge).rows() == old(bridge).rows(),
        r == old(bridge).rows().len(),
{
    bridge.get_or_init();
    bridge.rows_ref().len()
}

/// Creates the import slot if needed and gives it back; existing rows stay.
pub fn init_import_bridge(bridge: &mut SharedImportData) -> (r: &SharedImportData)
    ensures
        final(bridge).is_ready(),
        final(bridge).rows() == old(bridge).rows(),
        *r == *final(bridge),
{
    bridge.get_or_init();
    bridge
}

/// Stores imported rows, replacing what the slot held.
pub fn set_import_datas(bridge: &mut SharedImportData, datas: Vec<ImportDBDatas>)
    ensures
        final(bridge).is_ready(),
        final(bridge).rows() == datas@,
{
    bridge.replace(datas);
}

/// A copy of the stored imported rows.
pub fn get_import_datas(bridge: &mut SharedImportData) -> (r: Vec<ImportDBDatas>)
    ensures
        final(bridge).is_ready(),
        final(bridge).rows() == old(bridge).rows(),
        r@ == old(bridge).rows(),
{
    bridge.get_or_init();
    let rows = bridge.rows_ref();
    let mut out: Vec<ImportDBDatas> = Vec::new();
    let mut i: usize = 0;
    while i < rows.len()
        invariant
            i <= rows@.len(),
            out@.len() == i,
            forall|j: int| 0 <= j < i ==> #[trigger] out@[j] == rows@[j],
        decreases rows.len() - i,
    {
        out.push(rows[i].copy());
        i = i + 1;
    }
    assert(out@ =~= rows@);
    out
}

/// An event carried to the screens.
pub enum BusEvent {
    /// Rows found by a query.
    QueryResult(Vec<Record>),
    /// Rows collected for an export.
    ExportResult(Vec<Datas>),
    /// Rows read from an import sheet.
    DataExtractedAction(DbData),
}

/// What the bus does with an event before handing it to subscribers: query
/// results are stored in the query slot; other events leave it alone.
pub fn bridge_bus_event(bridge: &mut SharedQueryData, event: &BusEvent)
    ensures
        match event {
            BusEvent::QueryResult(data) => final(bridge).is_ready() && same_records(final(bridge).rows(), data@),
            _ => *final(bridge) == *old(bridge),
        },
{
    match event {
        BusEvent::QueryResult(data) => {
            let mut copy: Vec<Record> = Vec::new();
            let mut i: usize = 0;
            while i < data.len()
                invariant
                    i <= data@.len(),
                    copy@.len() == i,
                    forall|j: int| 0 <= j < i ==> #[trigger] copy@[j]@ == data@[j]@,
                decreases data.len() - i,
            {
                copy.push(data[i].copy());
                i = i + 1;
            }
            set_query_datas(bridge, copy);
        },
        _ => {},
    }
}

/// Reading the query slot after a write gives back the rows written, and the
/// count read is their number: `state` is the slot after `set_query_datas(data)`,
/// `read` what `get_query_datas_vec` then returned.
pub proof fn law_query_read_after_write(state: SharedQueryData, data: Seq<Record>, read: Seq<Record>)
    requires
        state.rows() == data,
        same_records(read, state.rows()),
    ensures
        same_records(read, data),
        read.len() == data.len(),
{
}

/// Reading the import slot after a write gives back the rows written.
pub proof fn law_import_read_after_write(state: SharedImportData, datas: Seq<ImportDBDatas>, read: Seq<ImportDBDatas>)
    requires
        state.rows() == datas,
        read == state.rows(),
    ensures
        read == datas,
{
}

} // verus!
