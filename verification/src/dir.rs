//! Where charts lie on disk, and where they come from.
use crate::text::{signed_decimal, signed_decimal_text};
use vstd::prelude::*;
use vstd::string::StringExecFns;

verus! {

/// The directory of all charts.
pub fn charts() -> (r: String)
    ensures
        r@ == "data/charts"@,
{
    "data/charts".to_owned()
}

/// The directory of downloaded charts.
pub fn downloaded_charts() -> (r: String)
    ensures
        r@ == "data/charts/download"@,
{
    "data/charts/download".to_owned()
}

/// The place of a downloaded chart, below the directory of all charts.
pub fn chart_path(id: i32) -> (r: String)
    ensures
        r@ == "download/"@ + signed_decimal(id as int),
{
    let mut path: String = "download/".to_owned();
    path.append(signed_decimal_text(id).as_str());
    path
}

/// The file that describes a downloaded chart.
pub open spec fn info_file(id: int) -> Seq<char> {
    "data/charts"@ + "/"@ + "download/"@ + signed_decimal(id) + "/info.yml"@
}

/// The file that describes a downloaded chart.
pub fn info_path(id: i32) -> (r: String)
    ensures
        r@ == info_file(id as int),
{
    let mut path: String = charts();
    path.append("/");
    path.append(chart_path(id).as_str());
    path.append("/info.yml");
    assert(path@ =~= info_file(id as int));
    path
}

/// The address at which the server describes a chart.
pub fn chart_url(id: i32) -> (r: String)
    ensures
        r@ == "https://phira.5wyxi.com/chart/"@ + signed_decimal(id as int),
{
    let mut url: String = "https://phira.5wyxi.com/chart/".to_owned();
    url.append(signed_decimal_text(id).as_str());
    url
}

} // verus!
