//! The decisions around the host transport: whether a bridge can be used, what a submit
//! code means, and what a receive count asks the caller to do.
use vstd::prelude::*;

verus! {

/// The host's answer to a submitted request.
#[derive(Clone, Copy, Debug, PartialEq, Eq, Structural)]
pub enum Admission {
    Accepted,
    Busy,
    Closed,
}

/// What one receive call produced.
#[derive(Clone, Copy, Debug, PartialEq, Eq, Structural)]
pub enum Delivery {
    /// The host closed the channel.
    Closed,
    /// Nothing is waiting.
    Idle,
    /// A message of this many bytes is in the buffer.
    Message(usize),
}

/// The bridge ABI this client speaks.
pub const ABI_VERSION: u32 = 1;

/// Checks a host bridge before use: its ABI version, context and both callbacks.
pub fn check_bridge(abi_version: u32, has_context: bool, has_submit: bool, has_receive: bool)
    -> (checked: Result<(), String>)
    ensures
        checked is Ok <==> (abi_version == ABI_VERSION && has_context && has_submit && has_receive),
        checked matches Err(e) ==> e@ == "Invalid transport ABI"@,
{
    if abi_version != ABI_VERSION || !has_context || !has_submit || !has_receive {
        return Err(String::from_str("Invalid transport ABI"));
    }
    Ok(())
}

/// The admission a submit call's result `code` reports.
pub fn admission(code: i32) -> (admitted: Result<Admission, String>)
    ensures
        match code {
            0 => admitted == Ok::<Admission, String>(Admission::Accepted),
            1 => admitted == Ok::<Admission, String>(Admission::Busy),
            2 => admitted == Ok::<Admission, String>(Admission::Closed),
            _ => admitted matches Err(e) && e@ == "Transport rejected message"@,
        },
{
    match code {
        0 => Ok(Admission::Accepted),
        1 => Ok(Admission::Busy),
        2 => Ok(Admission::Closed),
        _ => Err(String::from_str("Transport rejected message")),
    }
}

/// What a receive call's result `count` means for a buffer of `capacity` bytes.
pub fn delivery(count: i32, capacity: usize) -> (delivered: Result<Delivery, String>)
    ensures
        count == -1 ==> delivered == Ok::<Delivery, String>(Delivery::Closed),
        count == 0 ==> delivered == Ok::<Delivery, String>(Delivery::Idle),
        0 < count <= capacity ==> delivered == Ok::<Delivery, String>(Delivery::Message(count as usize)),
        (count < -1 || count > capacity) ==> (delivered matches Err(e) && e@
            == "Transport returned an invalid message size"@),
{
    if count == -1 {
        Ok(Delivery::Closed)
    } else if count == 0 {
        Ok(Delivery::Idle)
    } else if count > 0 && (count as u64) <= capacity as u64 {
        Ok(Delivery::Message(count as usize))
    } else {
        Err(String::from_str("Transport returned an invalid message size"))
    }
}

} // verus!
