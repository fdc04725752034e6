//! Market data sources and machine statistics: the quote services'
//! addresses and the choice of the disk reported on.
use vstd::prelude::*;
use crate::text::{concat2, concat3, contains, contains_spec, str_eq, strings_view};
use crate::widgets::{join, join_spec};

verus! {

broadcast use vstd::string::group_string_axioms;

/// The chart service's address for one equity symbol (one day, daily bars).
pub fn yahoo_chart_url(symbol: &str) -> (r: String)
    ensures
        r@ == "https://query1.finance.yahoo.com/v8/finance/chart/"@ + symbol@ + "?range=1d&interval=1d"@,
{
    concat3("https://query1.finance.yahoo.com/v8/finance/chart/", symbol, "?range=1d&interval=1d")
}

/// The price service's address for crypto ids, comma-separated, priced in
/// dollars with the day's change, market cap and volume.
pub fn coingecko_price_url(ids: &Vec<String>) -> (r: String)
    ensures
        r@ == "https://api.coingecko.com/api/v3/simple/price?ids="@ + join_spec(strings_view(ids@), ","@)
            + "&vs_currencies=usd&include_24hr_change=true&include_market_cap=true&include_24hr_vol=true"@,
{
    let j = join(ids, ",");
    concat3(
        "https://api.coingecko.com/api/v3/simple/price?ids=",
        j.as_str(),
        "&vs_currencies=usd&include_24hr_change=true&include_market_cap=true&include_24hr_vol=true",
    )
}

/// A disk is the main one when its mount point contains `C:` or is `/`.
pub open spec fn is_main_disk(mount: Seq<char>) -> bool {
    contains_spec(mount, "C:"@) || mount == "/"@
}

/// The disk reported on, by the position of its mount point: the first main
/// disk, else the first disk, else none.
pub fn pick_disk(mount_points: &Vec<String>) -> (r: Option<usize>)
    ensures
        mount_points@.len() == 0 ==> r is None,
        r matches Some(i) ==> i < mount_points@.len(),
        r matches Some(i) ==> (is_main_disk(mount_points@[i as int]@) ==> forall|j: int|
            0 <= j < i ==> !is_main_disk(#[trigger] mount_points@[j]@)),
        r matches Some(i) ==> (!is_main_disk(mount_points@[i as int]@) ==> i == 0 && forall|j: int|
            0 <= j < mount_points@.len() ==> !is_main_disk(#[trigger] mount_points@[j]@)),
        mount_points@.len() > 0 ==> r is Some,
{
    let mut i: usize = 0;
    while i < mount_points.len()
        invariant
            i <= mount_points@.len(),
            forall|j: int| 0 <= j < i ==> !is_main_disk(#[trigger] mount_points@[j]@),
        decreases mount_points@.len() - i,
    {
        let m = mount_points[i].as_str();
        if contains(m, "C:") || str_eq(m, "/") {
            return Some(i);
        }
        i = i + 1;
    }
    if mount_points.len() > 0 {
        Some(0)
    } else {
        None
    }
}

} // verus!
