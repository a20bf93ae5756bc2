//! What the binding page decides: which buttons work, what it reports, and
//! which binding an undo request removes.
use vstd::prelude::*;
use crate::error::MyError;
use crate::records::BoxBandData;
use crate::text::{concat, decimal, decimal_text, str_eq, text};

verus! {

/// The message of a query without a carton number.
pub open spec fn no_carton_message() -> Seq<char> {
    "请输入箱号!!!"@
}

/// A carton query needs a carton number.
pub fn check_query_carton(carton_no: &str) -> (r: Result<(), MyError>)
    ensures
        carton_no@.len() == 0 ==> (r matches Err(MyError::Zdyknown(m)) && m@ == no_carton_message()),
        carton_no@.len() > 0 ==> r is Ok,
{
    if carton_no.unicode_len() == 0 {
        Err(MyError::Zdyknown(text("请输入箱号!!!")))
    } else {
        Ok(())
    }
}

/// The query and bind buttons work only with a carton number typed in.
pub fn buttons_enabled(carton_input: &str) -> (r: bool)
    ensures
        r == (carton_input@.len() > 0),
{
    carton_input.unicode_len() > 0
}

/// The number of boxes found, as the page shows it.
pub fn boxes_count_text(n: usize) -> (r: String)
    ensures
        r@ == "一共: "@ + decimal(n as nat) + " 盒"@,
{
    let mut r = concat("一共: ", decimal_text(n).as_str());
    r.append(" 盒");
    r
}

/// The message of a binding without boxes.
pub open spec fn nothing_to_bind_message() -> Seq<char> {
    "没有数据，无法绑定!!!"@
}

/// Binding needs boxes.
pub fn check_bind(box_data: &Vec<BoxBandData>) -> (r: Result<(), MyError>)
    ensures
        box_data@.len() == 0 ==> (r matches Err(MyError::Zdyknown(m)) && m@ == nothing_to_bind_message()),
        box_data@.len() > 0 ==> r is Ok,
{
    if box_data.len() == 0 {
        Err(MyError::Zdyknown(text("没有数据，无法绑定!!!")))
    } else {
        Ok(())
    }
}

/// The notice of a carton bound.
pub fn bound_notice(carton: &str) -> (r: String)
    ensures
        r@ == "箱号: "@ + carton@ + " 绑定成功."@,
{
    let mut r = concat("箱号: ", carton);
    r.append(" 绑定成功.");
    r
}

/// Which binding an undo request removes.
#[derive(Debug, Clone, PartialEq, Eq)]
pub enum UnbindTarget {
    /// The bindings of a carton.
    Carton(String),
    /// The bindings of a box (old or new number).
    Box(String),
}

/// The binding an undo request `(no, select)` removes: the carton's when
/// `select` is "箱号", else the box's; both named by `no`.
pub fn unbind_target(no: &str, select: &str) -> (r: UnbindTarget)
    ensures
        select@ == "箱号"@ ==> (r matches UnbindTarget::Carton(c) && c@ == no@),
        select@ != "箱号"@ ==> (r matches UnbindTarget::Box(b) && b@ == no@),
{
    if str_eq(select, "箱号") {
        UnbindTarget::Carton(text(no))
    } else {
        UnbindTarget::Box(text(no))
    }
}

/// The notice of a binding removed.
pub fn unbound_notice(target: &UnbindTarget) -> (r: String)
    ensures
        target matches UnbindTarget::Carton(c) ==> r@ == "箱号: "@ + c@ + " 解绑成功."@,
        target matches UnbindTarget::Box(b) ==> r@ == "盒号: "@ + b@ + " 解绑成功."@,
{
    match target {
        UnbindTarget::Carton(c) => {
            let mut r = concat("箱号: ", c.as_str());
            r.append(" 解绑成功.");
            r
        },
        UnbindTarget::Box(b) => {
            let mut r = concat("盒号: ", b.as_str());
            r.append(" 解绑成功.");
            r
        },
    }
}

/// The password that allows undoing a binding.
pub const UNBIND_PASSWORD: &'static str = "Unbind";

/// What the undo dialog says of its input: the first of an empty number, an
/// empty password, no type chosen, and a wrong password; else the request
/// `(kind, no)` it sends.
pub open spec fn unbind_dialog_spec(no: Seq<char>, password: Seq<char>, kind: Seq<char>) -> Result<(Seq<char>, Seq<char>), Seq<char>> {
    if no.len() == 0 {
        Err("输入框不能为空!!"@)
    } else if password.len() == 0 {
        Err("密码框不能为空!!"@)
    } else if kind.len() == 0 {
        Err("类型选择不能为空!!"@)
    } else if password != UNBIND_PASSWORD@ {
        Err("密码错误!!"@)
    } else {
        Ok((kind, no))
    }
}

/// Checks the undo dialog's input: the request `(kind, no)` to send, or the
/// message to show.
pub fn unbind_dialog(no: &str, password: &str, kind: &str) -> (r: Result<(String, String), String>)
    ensures
        match (r, unbind_dialog_spec(no@, password@, kind@)) {
            (Ok(a), Ok(b)) => a.0@ == b.0 && a.1@ == b.1,
            (Err(a), Err(b)) => a@ == b,
            _ => false,
        },
{
    if no.unicode_len() == 0 {
        Err(text("输入框不能为空!!"))
    } else if password.unicode_len() == 0 {
        Err(text("密码框不能为空!!"))
    } else if kind.unicode_len() == 0 {
        Err(text("类型选择不能为空!!"))
    } else if !str_eq(password, UNBIND_PASSWORD) {
        Err(text("密码错误!!"))
    } else {
        Ok((text(kind), text(no)))
    }
}

/// The message of a new box number left empty.
pub open spec fn empty_input_message() -> Seq<char> {
    "输入不能为空!!!"@
}

/// Sets the new box number of the box at `item_id`; nothing happens past
/// the end of the list.
pub fn set_new_box_no(box_data: &mut Vec<BoxBandData>, item_id: usize, value: String)
    ensures
        item_id < old(box_data)@.len() ==> final(box_data)@ == old(box_data)@.update(
            item_id as int,
            BoxBandData { new_box_no: value, ..old(box_data)@[item_id as int] },
        ),
        item_id >= old(box_data)@.len() ==> final(box_data)@ == old(box_data)@,
{
    if item_id < box_data.len() {
        let d = &box_data[item_id];
        let nd = BoxBandData {
            box_no: d.box_no.clone(),
            pn: d.pn.clone(),
            carton_no: d.carton_no.clone(),
            new_box_no: value,
            create_time: d.create_time.clone(),
        };
        box_data.set(item_id, nd);
    }
}

/// A new box number typed and confirmed with Enter: an empty one is refused;
/// else it is set, and the row after, if any, is the one to type next.
pub fn confirm_new_box_no(box_data: &mut Vec<BoxBandData>, item_id: usize, value: String) -> (r: Result<Option<usize>, MyError>)
    ensures
        value@.len() == 0 ==> (r matches Err(MyError::Zdyknown(m)) && m@ == empty_input_message()) && final(box_data)@ == old(box_data)@,
        value@.len() > 0 ==> {
            &&& item_id < old(box_data)@.len() ==> final(box_data)@ == old(box_data)@.update(
                item_id as int,
                BoxBandData { new_box_no: value, ..old(box_data)@[item_id as int] },
            )
            &&& item_id >= old(box_data)@.len() ==> final(box_data)@ == old(box_data)@
            &&& item_id + 1 < old(box_data)@.len() ==> r == Ok::<Option<usize>, MyError>(Some((item_id + 1) as usize))
            &&& item_id + 1 >= old(box_data)@.len() ==> r == Ok::<Option<usize>, MyError>(None)
        },
{
    if value.unicode_len() == 0 {
        return Err(MyError::Zdyknown(text("输入不能为空!!!")));
    }
    set_new_box_no(box_data, item_id, value);
    if item_id < box_data.len() && item_id + 1 < box_data.len() {
        Ok(Some(item_id + 1))
    } else {
        Ok(None)
    }
}

/// An undo request is sent only with the password that allows it.
pub proof fn law_unbind_needs_password(no: Seq<char>, password: Seq<char>, kind: Seq<char>)
    ensures
        unbind_dialog_spec(no, password, kind) is Ok ==> password == UNBIND_PASSWORD@ && no.len() > 0 && kind.len() > 0,
{
}

} // verus!
