//! The display fragments of the blocks.
use crate::clock::WallClock;
use crate::decimal::{decimal_int, push_signed_decimal};
use vstd::prelude::*;
use vstd::string::StringExecFns;

verus! {

/// The bar that stands between two fields of the status line.
pub const SEPARATOR: &'static str = "^c#FFFFFF^|";

/// The colour of a low reading.
pub const GREEN: &'static str = "#00FF00";

/// The colour of a moderate reading.
pub const YELLOW: &'static str = "#FFFF00";

/// The colour of a high reading.
pub const ORANGE: &'static str = "#FFA500";

/// The colour of a very high reading.
pub const RED: &'static str = "#FF0000";

/// The colour of the date.
pub const DATE_COLOR: &'static str = "#2e95d3";

/// The text that switches the bar to `color`.
pub open spec fn color_tag(color: Seq<char>) -> Seq<char> {
    "^c"@ + color + "^"@
}

/// The colour of a signal strength in dBm: red above -70, yellow above -80,
/// orange above -90, red at -90 and below.
pub open spec fn signal_color(strength: int) -> Seq<char> {
    if strength > -70 {
        RED@
    } else if strength > -80 {
        YELLOW@
    } else if strength > -90 {
        ORANGE@
    } else {
        RED@
    }
}

/// The wireless fragment: the strength in decimal and its unit, in the
/// colour of the strength.
pub open spec fn wifi_text(strength: int) -> Seq<char> {
    color_tag(signal_color(strength)) + decimal_int(strength) + " dBm"@
}

/// The date fragment: the printed date in the colour of the date.
pub open spec fn date_text(printed: Seq<char>) -> Seq<char> {
    color_tag(DATE_COLOR@) + printed
}

/// Renders a signal strength in dBm.
pub fn wifi_info_format(strength: i32) -> (r: String)
    ensures
        r@ == wifi_text(strength as int),
{
    let color = if strength > -70 {
        RED
    } else if strength > -80 {
        YELLOW
    } else if strength > -90 {
        ORANGE
    } else {
        RED
    };
    let mut out = String::from_str("^c");
    out.append(color);
    out.append("^");
    push_signed_decimal(&mut out, strength);
    out.append(" dBm");
    assert(out@ =~= wifi_text(strength as int));
    out
}

/// Puts a printed date in the colour of the date.
pub fn date_fragment(printed: &str) -> (r: String)
    ensures
        r@ == date_text(printed@),
{
    let mut out = String::from_str("^c");
    out.append(DATE_COLOR);
    out.append("^");
    out.append(printed);
    assert(out@ =~= date_text(printed@));
    out
}

/// Renders a wall-clock reading: month, day, weekday and time, as chrono
/// prints them.
pub fn date_info_format(date: WallClock) -> (r: String)
    ensures
        r@ == date_text(date@.text()),
{
    let printed = date.text();
    date_fragment(printed.as_str())
}

} // verus!
