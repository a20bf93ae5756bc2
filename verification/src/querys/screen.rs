//! What the query page decides: which query a click starts, and the time
//! span it proposes.
use vstd::prelude::*;
use crate::error::MyError;
use crate::text::{concat, str_eq, text, views};

verus! {

/// The query a click starts.
#[derive(Debug, Clone, PartialEq, Eq)]
pub enum QueryPlan {
    /// A serial-number query, for the typed serial number if any.
    Sn(Vec<String>),
    /// A box query.
    Box,
    /// A carton query.
    Carton,
}

/// No condition is typed in: number, both time bounds, part number, tester.
pub open spec fn nothing_typed(input: Seq<char>, start: Seq<char>, end: Seq<char>, pn: Seq<char>, worker: Seq<char>) -> bool {
    input.len() == 0 && start.len() == 0 && end.len() == 0 && pn.len() == 0 && worker.len() == 0
}

/// The query a click starts: refused with `AllNone` when nothing is typed in;
/// else a serial-number query for type "Sn", a box query for "盒号", and a
/// carton query otherwise.
pub fn plan_query(query_type: &str, input: &str, start: &str, end: &str, pn: &str, worker: &str) -> (r: Result<QueryPlan, MyError>)
    ensures
        nothing_typed(input@, start@, end@, pn@, worker@) ==> r == Err::<QueryPlan, MyError>(MyError::AllNone),
        !nothing_typed(input@, start@, end@, pn@, worker@) ==> {
            &&& query_type@ == "Sn"@ ==> (r matches Ok(QueryPlan::Sn(sns))
                && (input@.len() == 0 ==> sns@.len() == 0)
                && (input@.len() > 0 ==> views(sns@) == seq![input@]))
            &&& query_type@ != "Sn"@ && query_type@ == "盒号"@ ==> r == Ok::<QueryPlan, MyError>(QueryPlan::Box)
            &&& query_type@ != "Sn"@ && query_type@ != "盒号"@ ==> r == Ok::<QueryPlan, MyError>(QueryPlan::Carton)
        },
{
    if input.unicode_len() == 0 && start.unicode_len() == 0 && end.unicode_len() == 0 && pn.unicode_len() == 0
        && worker.unicode_len() == 0 {
        return Err(MyError::AllNone);
    }
    if str_eq(query_type, "Sn") {
        let mut sns: Vec<String> = Vec::new();
        if input.unicode_len() > 0 {
            sns.push(text(input));
            assert(views(sns@) =~= seq![input@]);
        }
        Ok(QueryPlan::Sn(sns))
    } else if str_eq(query_type, "盒号") {
        Ok(QueryPlan::Box)
    } else {
        Ok(QueryPlan::Carton)
    }
}

/// The time span proposed when the time switch is turned on: the whole of
/// `date` (given as `YYYY-MM-DD`).
pub fn day_span(date: &str) -> (r: (String, String))
    ensures
        r.0@ == date@ + " 00:00:00"@,
        r.1@ == date@ + " 23:59:59"@,
{
    (concat(date, " 00:00:00"), concat(date, " 23:59:59"))
}

/// The serial-number filters are shown only for serial-number queries.
pub fn sn_filters_visible(query_type: &str) -> (r: bool)
    ensures
        r == (query_type@ == "Sn"@),
{
    str_eq(query_type, "Sn")
}

} // verus!
