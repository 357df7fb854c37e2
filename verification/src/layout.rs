//! The blocks of the bar: their names, their intervals and their order.
use crate::aggregator::{names_view, Aggregator};
use crate::format::SEPARATOR;
use vstd::prelude::*;
use vstd::string::StringExecFns;

verus! {

/// The name of the memory block.
pub const MEM_INFO: &'static str = "MemInfo";

/// The name of the load block.
pub const CPU_LOAD_AVG: &'static str = "CpuLoadAvg";

/// The name of the wireless block.
pub const WIFI_INFO: &'static str = "WifiInfo";

/// The name of the date block.
pub const DATE_INFO: &'static str = "DateInfo";

/// The name of the network block.
pub const NET_IO: &'static str = "NetworkIo";

/// Seconds between two samples of the memory block.
pub const MEM_INFO_INTERVAL: u32 = 5;

/// Seconds between two samples of the load block.
pub const CPU_LOAD_AVG_INTERVAL: u32 = 5;

/// Seconds between two samples of the wireless block.
pub const WIFI_INFO_INTERVAL: u32 = 10;

/// Seconds between two samples of the date block.
pub const DATE_INFO_INTERVAL: u32 = 30;

/// Seconds between two samples of the network block.
pub const NET_IO_INTERVAL: u32 = 3;

/// The fields of the bar from left to right.
pub open spec fn bar_order() -> Seq<Seq<char>> {
    seq![WIFI_INFO@, NET_IO@, MEM_INFO@, CPU_LOAD_AVG@, DATE_INFO@]
}

/// What stands between two fields of the bar: the separator with a blank
/// on either side.
pub open spec fn bar_separator() -> Seq<char> {
    " "@ + SEPARATOR@ + " "@
}

/// The aggregator of the bar, before any block has reported.
pub fn status_bar() -> (r: Aggregator)
    ensures
        r.order() == bar_order(),
        r.separator() == bar_separator(),
        r.latest() == Map::<Seq<char>, Seq<char>>::empty(),
{
    let mut order: Vec<String> = Vec::new();
    order.push(String::from_str(WIFI_INFO));
    order.push(String::from_str(NET_IO));
    order.push(String::from_str(MEM_INFO));
    order.push(String::from_str(CPU_LOAD_AVG));
    order.push(String::from_str(DATE_INFO));
    let mut separator = String::from_str(" ");
    separator.append(SEPARATOR);
    separator.append(" ");
    assert(names_view(order@) =~= bar_order());
    assert(separator@ =~= bar_separator());
    Aggregator::new(order, separator)
}

} // verus!
