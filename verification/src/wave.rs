//! Wave formats: the `WAVEFORMATEX` header of a stream and what follows it.

use crate::text::{decimal, push_decimal};
use vstd::prelude::*;

verus! {

/// The length of the header; its last field counts the bytes that follow it.
pub const HEADER_LEN: usize = 18;

/// The two-byte little-endian number at a position.
pub open spec fn le16(bytes: Seq<u8>, at: int) -> nat {
    (bytes[at] + 0x100 * bytes[at + 1]) as nat
}

/// The four-byte little-endian number at a position.
pub open spec fn le32(bytes: Seq<u8>, at: int) -> nat {
    le16(bytes, at) + 0x1_0000 * le16(bytes, at + 2)
}

fn read_le16(bytes: &[u8], at: usize) -> (v: u16)
    requires
        at + 1 < bytes.len(),
    ensures
        v == le16(bytes@, at as int),
{
    bytes[at] as u16 + 0x100 * bytes[at + 1] as u16
}

fn read_le32(bytes: &[u8], at: usize) -> (v: u32)
    requires
        at + 3 < bytes.len(),
    ensures
        v == le32(bytes@, at as int),
{
    read_le16(bytes, at) as u32 + 0x1_0000 * read_le16(bytes, at + 2) as u32
}

/// A wave format: the bytes of its header and extension, and the size of one
/// frame.
#[derive(Debug, Clone, PartialEq, Eq)]
pub struct WaveFormatOwned {
    pub bytes: Vec<u8>,
    pub block_align: usize,
}

/// There was no format to read.
#[derive(Debug, Clone, Copy, PartialEq, Eq, Structural)]
pub struct NullFormat;

impl NullFormat {
    pub fn message(&self) -> (message: String)
        ensures
            message@ == "IAudioClient::GetMixFormat returned a null format pointer"@,
    {
        "IAudioClient::GetMixFormat returned a null format pointer".to_owned()
    }
}

/// The length of the format that a header begins.
pub open spec fn format_len(header: Seq<u8>) -> nat {
    HEADER_LEN as nat + le16(header, 16)
}

impl WaveFormatOwned {
    /// The bytes are a header and exactly the extension that it announces, and
    /// the frame size is the one in the header.
    pub open spec fn well_formed(self) -> bool {
        &&& self.bytes.len() >= HEADER_LEN
        &&& self.bytes.len() == format_len(self.bytes@)
        &&& self.block_align == le16(self.bytes@, 12)
    }

    /// The header in words.
    pub open spec fn description(self) -> Seq<char> {
        "tag="@ + decimal(le16(self.bytes@, 0)) + " channels="@ + decimal(le16(self.bytes@, 2))
            + " rate="@ + decimal(le32(self.bytes@, 4)) + " bits="@ + decimal(
            le16(self.bytes@, 14),
        ) + " block_align="@ + decimal(le16(self.bytes@, 12)) + " extra="@ + decimal(
            le16(self.bytes@, 16),
        )
    }

    /// Puts the header in words.
    pub fn describe(&self) -> (description: String)
        requires
            self.bytes.len() >= HEADER_LEN,
        ensures
            description@ == self.description(),
    {
        let bytes: &[u8] = self.bytes.as_slice();
        let mut description: String = "tag=".to_owned();
        push_decimal(&mut description, read_le16(bytes, 0) as u64);
        description.append(" channels=");
        push_decimal(&mut description, read_le16(bytes, 2) as u64);
        description.append(" rate=");
        push_decimal(&mut description, read_le32(bytes, 4) as u64);
        description.append(" bits=");
        push_decimal(&mut description, read_le16(bytes, 14) as u64);
        description.append(" block_align=");
        push_decimal(&mut description, read_le16(bytes, 12) as u64);
        description.append(" extra=");
        push_decimal(&mut description, read_le16(bytes, 16) as u64);
        description
    }
}

/// How many bytes of memory the format that a header begins takes up.
pub fn wave_format_len(header: &[u8]) -> (len: usize)
    requires
        header.len() >= HEADER_LEN,
    ensures
        len == format_len(header@),
{
    HEADER_LEN + read_le16(header, 16) as usize
}

/// Copies a format out of memory that holds at least all of it.
pub fn wave_format_from_ptr(raw: Option<&[u8]>) -> (format: Result<WaveFormatOwned, NullFormat>)
    requires
        raw matches Some(memory) ==> memory.len() >= HEADER_LEN && memory.len() >= format_len(
            memory@,
        ),
    ensures
        match raw {
            None => format == Err::<WaveFormatOwned, NullFormat>(NullFormat),
            Some(memory) => format matches Ok(format) && {
                &&& format.bytes@ == memory@.take(format_len(memory@) as int)
                &&& format.block_align == le16(memory@, 12)
                &&& format.well_formed()
            },
        },
{
    match raw {
        None => Err(NullFormat),
        Some(memory) => {
            let total: usize = wave_format_len(memory);
            let bytes: Vec<u8> = vstd::slice::slice_to_vec(
                vstd::slice::slice_subrange(memory, 0, total),
            );
            let block_align: usize = read_le16(memory, 12) as usize;
            assert(bytes@[12] == memory@[12] && bytes@[13] == memory@[13]);
            assert(bytes@[16] == memory@[16] && bytes@[17] == memory@[17]);
            Ok(WaveFormatOwned { bytes, block_align })
        },
    }
}

/// The header of a format is told field by field, each the little-endian number
/// in its bytes: the tag, the channels, the rate, the bits, the frame size and
/// the bytes that follow.
pub proof fn law_headers_are_told_field_by_field(
    format: WaveFormatOwned,
    tag: u16,
    channels: u16,
    rate: u32,
    block_align: u16,
    bits: u16,
    extra: u16,
)
    requires
        format.bytes.len() >= 18,
        format.bytes@[0] == tag % 256 && format.bytes@[1] == tag / 256,
        format.bytes@[2] == channels % 256 && format.bytes@[3] == channels / 256,
        format.bytes@[4] == rate % 256 && format.bytes@[5] == rate / 256 % 256,
        format.bytes@[6] == rate / 65_536 % 256 && format.bytes@[7] == rate / 16_777_216,
        format.bytes@[12] == block_align % 256 && format.bytes@[13] == block_align / 256,
        format.bytes@[14] == bits % 256 && format.bytes@[15] == bits / 256,
        format.bytes@[16] == extra % 256 && format.bytes@[17] == extra / 256,
    ensures
        format.description() == "tag="@ + decimal(tag as nat) + " channels="@ + decimal(
            channels as nat,
        ) + " rate="@ + decimal(rate as nat) + " bits="@ + decimal(bits as nat) + " block_align="@
            + decimal(block_align as nat) + " extra="@ + decimal(extra as nat),
        format_len(format.bytes@) == 18 + extra,
        le16(format.bytes@, 12) == block_align,
        format.well_formed() ==> format.block_align == block_align && format.bytes.len() == 18
            + extra,
{
    let bytes = format.bytes@;
    assert(le16(bytes, 0) == tag && le16(bytes, 2) == channels);
    assert(le32(bytes, 4) == rate);
    assert(le16(bytes, 12) == block_align && le16(bytes, 14) == bits && le16(bytes, 16) == extra);
}

} // verus!
