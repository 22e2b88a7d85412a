//! Payload framing: the header and the block headers around the sections.

use crate::le::le_u16;
use crate::shared_config::error::SharedConfigError;
use crate::shared_config::reader::{eof_msg, slice_range, u16_at, u32_at, ConfigReader};
use crate::shared_config::writer::{
    lemma_wrote_all_of_wrote, lemma_wrote_all_then, ConfigWriter, MAX_BLOCK_SIZE, MAX_PAYLOAD_SIZE,
};
use vstd::prelude::*;

verus! {

broadcast use crate::le::group_le_len;

/// Format version of the payload.
pub const VERSION: u8 = 7;

/// Header bytes: magic, format version, catalog version.
pub const HEADER_SIZE: usize = 7;

/// Block header bytes: kind and body size.
pub const BLOCK_HEADER_SIZE: usize = 5;

/// Kind of the signals section.
pub const KIND_SIGNALS: u8 = 1;

/// Kind of the trading section.
pub const KIND_TRADING: u8 = 2;

/// Kind of the visual section.
pub const KIND_VISUAL: u8 = 3;

/// Kind of the theme section.
pub const KIND_THEME: u8 = 4;

/// Kind of the ini section.
pub const KIND_INI: u8 = 5;

/// Kind of the ui section.
pub const KIND_UI: u8 = 6;

/// Bits `1 << kind` of the six sections that a payload must hold.
pub const REQUIRED_MASK: u32 = 126;

/// The magic bytes `MBSP`.
pub open spec fn magic() -> Seq<u8> {
    seq![0x4Du8, 0x42u8, 0x53u8, 0x50u8]
}

/// The header of a payload with catalog version `config_version`.
pub open spec fn header_bytes(config_version: u16) -> Seq<u8> {
    magic() + seq![VERSION] + le_u16(config_version)
}

/// The catalog version that a payload's header carries, or why it is refused.
pub open spec fn payload_header(d: Seq<u8>) -> Result<u16, Seq<char>> {
    if d.len() > MAX_PAYLOAD_SIZE {
        Err("shared config payload too large"@)
    } else if d.len() < HEADER_SIZE {
        Err(eof_msg())
    } else if d.subrange(0, 4) != magic() {
        Err("wrong shared config magic"@)
    } else if d[4] != VERSION {
        Err("unsupported shared config version"@)
    } else {
        Ok(u16_at(d, 5))
    }
}

/// Check a payload's size and header; gives the catalog version it carries.
/// The sections start at `HEADER_SIZE`.
pub fn parse_payload_header(data: &[u8]) -> (r: Result<u16, SharedConfigError>)
    ensures
        match payload_header(data@) {
            Ok(v) => r == Ok::<u16, SharedConfigError>(v),
            Err(m) => r matches Err(e) && e@ == m,
        },
{
    if data.len() > MAX_PAYLOAD_SIZE {
        return Err(SharedConfigError::new("shared config payload too large"));
    }
    let mut r = ConfigReader::new(data);
    r.need(HEADER_SIZE)?;
    let magic_bytes = r.read_bytes(4)?;
    if !(magic_bytes[0] == 0x4D && magic_bytes[1] == 0x42 && magic_bytes[2] == 0x53
        && magic_bytes[3] == 0x50) {
        proof {
            assert(data@.subrange(0, 4) != magic()) by {
                if data@.subrange(0, 4) == magic() {
                    assert(magic_bytes@ == magic());
                }
            }
        }
        return Err(SharedConfigError::new("wrong shared config magic"));
    }
    proof {
        assert(data@.subrange(0, 4) =~= magic());
    }
    let version = r.read_u8()?;
    if version != VERSION {
        return Err(SharedConfigError::new("unsupported shared config version"));
    }
    r.read_u16()
}

/// Append the header of a payload with catalog version `config_version`.
pub fn write_payload_header(w: &mut ConfigWriter, config_version: u16)
    requires
        old(w).wf(),
    ensures
        final(w).wf(),
        final(w).wrote_all(old(w), true, header_bytes(config_version)),
{
    let magic_bytes: [u8; 4] = [0x4D, 0x42, 0x53, 0x50];
    let ghost w0 = *w;
    w.write_bytes(magic_bytes.as_slice());
    proof {
        assert(magic_bytes@ =~= magic());
        lemma_wrote_all_of_wrote(w0, *w, magic());
    }
    let ghost w1 = *w;
    w.write_u8(VERSION);
    proof {
        lemma_wrote_all_of_wrote(w1, *w, seq![VERSION]);
        lemma_wrote_all_then(w0, w1, *w, true, magic(), true, seq![VERSION]);
    }
    let ghost w2 = *w;
    w.write_u16(config_version);
    proof {
        lemma_wrote_all_of_wrote(w2, *w, le_u16(config_version));
        lemma_wrote_all_then(w0, w2, *w, true, magic() + seq![VERSION], true, le_u16(config_version));
    }
}

/// Where a block's body starts and ends in the payload.
#[derive(Debug, Clone, Copy, PartialEq, Eq)]
pub struct BlockInfo {
    pub body_start: usize,
    pub block_end: usize,
}

/// The block header at `p`: none at the end of the data, else the kind, body
/// start and block end, or why it is refused.
pub open spec fn block_header_at(d: Seq<u8>, p: int) -> Result<Option<(u8, int, int)>, Seq<char>> {
    if p >= d.len() {
        Ok(None)
    } else if d.len() - p < BLOCK_HEADER_SIZE {
        Err("truncated shared config block header"@)
    } else {
        let size = u32_at(d, p + 1);
        if size > MAX_BLOCK_SIZE {
            Err("shared config block too large"@)
        } else if p + 5 + size > usize::MAX {
            Err("shared-config block size overflow"@)
        } else if p + 5 + size > d.len() {
            Err("shared config block extends past end"@)
        } else {
            Ok(Some((d[p], p + 5, p + 5 + size)))
        }
    }
}

/// Read the next block header; `None` at the end of the payload.
pub fn read_block_header(r: &mut ConfigReader) -> (res: Result<Option<(u8, BlockInfo)>, SharedConfigError>)
    ensures
        final(r).bytes() == old(r).bytes(),
        match block_header_at(old(r).bytes(), old(r).at()) {
            Ok(None) => res matches Ok(None),
            Ok(Some((kind, start, end))) => res matches Ok(Some((k, info))) && k == kind
                && info.body_start == start && info.block_end == end && final(r).at() == start,
            Err(m) => res matches Err(e) && e@ == m,
        },
{
    let left = r.remaining();
    if left == 0 {
        return Ok(None);
    }
    if left < BLOCK_HEADER_SIZE {
        return Err(SharedConfigError::new("truncated shared config block header"));
    }
    let kind = r.read_u8()?;
    let size = r.read_u32()?;
    if size > MAX_BLOCK_SIZE {
        return Err(SharedConfigError::new("shared config block too large"));
    }
    let body_start = r.position();
    let block_end = match body_start.checked_add(size as usize) {
        Some(e) => e,
        None => {
            return Err(SharedConfigError::new("shared-config block size overflow"));
        },
    };
    if block_end > r.data().len() {
        return Err(SharedConfigError::new("shared config block extends past end"));
    }
    Ok(Some((kind, BlockInfo { body_start, block_end })))
}

/// The body of a block.
pub fn block_body<'a>(data: &'a [u8], info: BlockInfo) -> (r: &'a [u8])
    requires
        info.body_start <= info.block_end <= data@.len(),
    ensures
        r@ == data@.subrange(info.body_start as int, info.block_end as int),
{
    slice_range(data, info.body_start, info.block_end)
}

} // verus!
