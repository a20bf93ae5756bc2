//! Batch queries: one query per line of a file, by carton, box or serial
//! number, their results put together.
use vstd::prelude::*;
use crate::error::MyError;
use crate::text::{str_eq, text};

verus! {

/// What a batch query looks up for each line of its file.
#[derive(Debug, Clone, Copy, PartialEq, Eq)]
pub enum BatchKind {
    /// Each line is a carton number.
    Carton,
    /// Each line is a box number.
    Box,
    /// The lines are serial numbers.
    Sn,
}

/// The kind of a batch query: "箱号" for cartons, "盒号" for boxes, anything
/// else for serial numbers.
pub open spec fn batch_kind_spec(q_type: Seq<char>) -> BatchKind {
    if q_type == "箱号"@ {
        BatchKind::Carton
    } else if q_type == "盒号"@ {
        BatchKind::Box
    } else {
        BatchKind::Sn
    }
}

/// The kind of a batch query.
pub fn batch_kind(q_type: &str) -> (r: BatchKind)
    ensures
        r == batch_kind_spec(q_type@),
{
    if str_eq(q_type, "箱号") {
        BatchKind::Carton
    } else if str_eq(q_type, "盒号") {
        BatchKind::Box
    } else {
        BatchKind::Sn
    }
}

/// The message of a batch file without lines.
pub open spec fn empty_file_message() -> Seq<char> {
    "文件内未找到条码数据，请确认文件是否正确."@
}

/// Refuses a batch file without lines.
pub fn check_batch_lines(lines: &Vec<String>) -> (r: Result<(), MyError>)
    ensures
        lines@.len() == 0 ==> (r matches Err(MyError::Zdyknown(m)) && m@ == empty_file_message()),
        lines@.len() > 0 ==> r is Ok,
{
    if lines.len() == 0 {
        Err(MyError::Zdyknown(text("文件内未找到条码数据，请确认文件是否正确.")))
    } else {
        Ok(())
    }
}

/// The items of the successful results, in order; failed ones add nothing.
pub open spec fn ok_items<T>(results: Seq<Result<Vec<T>, MyError>>) -> Seq<T>
    decreases results.len(),
{
    if results.len() == 0 {
        Seq::empty()
    } else {
        let rest = ok_items(results.drop_last());
        match results.last() {
            Ok(v) => rest + v@,
            Err(_) => rest,
        }
    }
}

/// Puts the results of the queries of a batch together, leaving out those
/// that failed.
pub fn collect_batch_results<T>(results: Vec<Result<Vec<T>, MyError>>) -> (r: Vec<T>)
    ensures
        r@ == ok_items(results@),
{
    let ghost all = results@;
    let n = results.len();
    let mut rest = results;
    let mut out: Vec<T> = Vec::new();
    let mut i: usize = 0;
    assert(all.take(0) =~= Seq::<Result<Vec<T>, MyError>>::empty());
    while i < n
        invariant
            i <= n,
            n == all.len(),
            rest@ == all.skip(i as int),
            out@ == ok_items(all.take(i as int)),
        decreases n - i,
    {
        let x = rest.remove(0);
        assert(x == all[i as int]);
        assert(rest@ =~= all.skip(i + 1));
        assert(all.take(i + 1).drop_last() =~= all.take(i as int));
        match x {
            Ok(v) => {
                let mut v = v;
                let ghost before = out@;
                let ghost vv = v@;
                out.append(&mut v);
                assert(out@ =~= before + vv);
            },
            Err(_) => {},
        }
        i = i + 1;
    }
    assert(all.take(n as int) =~= all);
    out
}

} // verus!
