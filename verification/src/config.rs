//! Stream and REST endpoints, and command arguments that carry no
//! floating-point settings.
use vstd::prelude::*;

use crate::text::push_str;

verus! {

/// ASCII letters `A`-`Z` mapped to `a`-`z`, every other character kept.
pub open spec fn ascii_lower(s: Seq<char>) -> Seq<char> {
    s.map_values(|c: char| if 'A' <= c && c <= 'Z' { ((c as u32) + 32) as char } else { c })
}

/// Every character is ASCII.
pub open spec fn all_ascii(s: Seq<char>) -> bool {
    forall|i: int| 0 <= i < s.len() ==> (s[i] as u32) < 128
}

/// `str::to_lowercase`. For ASCII text its documentation gives the ASCII
/// mapping, which is stated; the Unicode mapping of other text is not.
#[verifier::external_body]
fn lowercase(s: &str) -> (r: String)
    ensures
        all_ascii(s@) ==> r@ == ascii_lower(s@),
{
    s.to_lowercase()
}

/// The depth stream URL: `{ws_base}/ws/{symbol, lowercase}@depth@{speed}`.
/// Binance stream names take lowercase symbols.
pub fn depth_stream_url(ws_base: &str, symbol: &str, depth_speed: &str) -> (r: String)
    ensures
        all_ascii(symbol@) ==> r@ == ws_base@ + "/ws/"@ + ascii_lower(symbol@) + "@depth@"@
            + depth_speed@,
{
    let mut s = String::new();
    push_str(&mut s, ws_base);
    push_str(&mut s, "/ws/");
    let lower = lowercase(symbol);
    push_str(&mut s, lower.as_str());
    push_str(&mut s, "@depth@");
    push_str(&mut s, depth_speed);
    s
}

/// The trade stream URL: `{ws_base}/ws/{symbol, lowercase}@trade`.
pub fn trade_stream_url(ws_base: &str, symbol: &str) -> (r: String)
    ensures
        all_ascii(symbol@) ==> r@ == ws_base@ + "/ws/"@ + ascii_lower(symbol@) + "@trade"@,
{
    let mut s = String::new();
    push_str(&mut s, ws_base);
    push_str(&mut s, "/ws/");
    let lower = lowercase(symbol);
    push_str(&mut s, lower.as_str());
    push_str(&mut s, "@trade");
    s
}

/// The REST depth endpoint: `{rest_base}/fapi/v1/depth?symbol={symbol}&limit={limit}`.
pub fn depth_rest_url(rest_base: &str, symbol: &str, depth_limit: u32) -> (r: String)
    ensures
        r@ == rest_base@ + "/fapi/v1/depth?symbol="@ + symbol@ + "&limit="@
            + crate::text::decimal_text(depth_limit as nat),
{
    let mut s = String::new();
    push_str(&mut s, rest_base);
    push_str(&mut s, "/fapi/v1/depth?symbol=");
    push_str(&mut s, symbol);
    push_str(&mut s, "&limit=");
    crate::text::push_decimal(&mut s, depth_limit as u128);
    s
}

/// The exchange info endpoint: `{rest_base}/fapi/v1/exchangeInfo`.
pub fn exchange_info_url(rest_base: &str) -> (r: String)
    ensures
        r@ == rest_base@ + "/fapi/v1/exchangeInfo"@,
{
    let mut s = String::new();
    push_str(&mut s, rest_base);
    push_str(&mut s, "/fapi/v1/exchangeInfo");
    s
}

/// Arguments of the `verify` command.
#[derive(Debug, Clone)]
pub struct VerifyArgs {
    /// Session to verify; the most recent when absent.
    pub session: Option<String>,
    /// Also compare raw event counts with normalized counts.
    pub raw: bool,
}

} // verus!
