//! The older serial-number query of the export: the latest passing record of
//! each listed module.
use vstd::prelude::*;
use crate::text::{join_texts, quote, quoted, seq_join, text, views};

verus! {

/// The serial numbers quoted and separated by ", ", as the query lists them;
/// an error when there is none.
pub fn sn_list_text(sns: &Vec<String>) -> (r: Result<String, String>)
    ensures
        sns@.len() == 0 ==> (r matches Err(m) && m@ == "SN为空"@),
        sns@.len() > 0 ==> (r matches Ok(t) && t@ == seq_join(views(sns@).map_values(|s: Seq<char>| quoted(s)), ", "@)),
{
    if sns.len() == 0 {
        return Err(text("SN为空"));
    }
    let mut q: Vec<String> = Vec::new();
    let mut i: usize = 0;
    while i < sns.len()
        invariant
            i <= sns@.len(),
            q@.len() == i,
            forall|k: int| 0 <= k < i ==> (#[trigger] q@[k])@ == quoted(sns@[k]@),
        decreases sns.len() - i,
    {
        q.push(quote(sns[i].as_str()));
        i = i + 1;
    }
    assert(views(q@) =~= views(sns@).map_values(|s: Seq<char>| quoted(s)));
    Ok(join_texts(&q, ", "))
}

} // verus!
