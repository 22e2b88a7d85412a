//! The arbitrage panel record, whose version byte is checked, and the candle
//! colors kept at the end of the visual block.

use crate::shared_config::error::SharedConfigError;
use crate::shared_config::reader::{eof_msg, ConfigReader};
use crate::shared_config::records::{arb_view_config_at, ArbViewConfig, ARB_VIEW_CONFIG_LEN};
use crate::shared_config::writer::flag_of;
use vstd::prelude::*;

verus! {

/// Read an [`ArbViewConfig`], whose version byte must be `1`.
pub fn parse_arb_view(r: &mut ConfigReader) -> (res: Result<ArbViewConfig, SharedConfigError>)
    ensures
        final(r).bytes() == old(r).bytes(),
        old(r).at() + 1 > old(r).bytes().len() ==> (res matches Err(e) && e@ == eof_msg()),
        old(r).at() + 1 <= old(r).bytes().len() && old(r).bytes()[old(r).at()] != 1 ==> (res matches Err(e) && e@ == "wrong shared arb settings version"@),
        old(r).at() + 1 <= old(r).bytes().len() && old(r).bytes()[old(r).at()] == 1 ==> (
        if old(r).at() + ARB_VIEW_CONFIG_LEN <= old(r).bytes().len() {
            res matches Ok(c) && arb_view_config_at(old(r).bytes(), old(r).at(), c) && final(r).at()
                == old(r).at() + ARB_VIEW_CONFIG_LEN
        } else {
            res matches Err(e) && e@ == eof_msg()
        }),
{
    let ver = r.read_u8()?;
    if ver != 1 {
        return Err(SharedConfigError::new("wrong shared arb settings version"));
    }
    Ok(ArbViewConfig {
        ver,
        show_absolute: r.read_bool()?,
        show_numbers: r.read_bool()?,
        show_lines: r.read_bool()?,
        show_percent: r.read_bool()?,
        show_right: r.read_bool()?,
    })
}

/// Candle colors for one theme (light or dark).
#[derive(Clone, Copy, Debug, Default, PartialEq, Eq, Structural)]
pub struct CandleColorSet {
    /// Bullish candle color (ARGB).
    pub green: u32,
    /// Bearish candle color (ARGB).
    pub red: u32,
    /// Neutral/doji candle color (ARGB).
    pub neutral: u32,
}

} // verus!
