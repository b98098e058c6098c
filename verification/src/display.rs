//! EDID (VESA Extended Display Identification Data) block parsing.
//!
//! The block is decoded into plain integers. Two derived quantities need
//! floating point and are left to the caller: the diagonal (a square root of
//! `image_size_cm`) and the refresh rate (`refresh_timing`'s pixel clock
//! divided by the pixels per frame).

use vstd::prelude::*;
use crate::text::push_char;

verus! {

/// Physical image size as the EDID states it, both sides non-zero.
#[derive(Debug, Clone, Copy, PartialEq, Eq)]
pub struct ImageSize {
    pub width_cm: u8,
    pub height_cm: u8,
}

/// Preferred timing: the refresh rate is `pixel_clock_hz / (h_total * v_total)`.
#[derive(Debug, Clone, Copy, PartialEq, Eq)]
pub struct RefreshTiming {
    pub pixel_clock_hz: u64,
    pub h_total: u32,
    pub v_total: u32,
}

#[derive(Debug)]
pub struct DisplayInfo {
    pub manufacturer: Option<String>,
    pub product_code: Option<u16>,
    pub serial_number: Option<u32>,
    pub manufacture_week: Option<u8>,
    pub manufacture_year: Option<u16>,
    pub horizontal_px: Option<u16>,
    pub vertical_px: Option<u16>,
    pub refresh_timing: Option<RefreshTiming>,
    pub image_size_cm: Option<ImageSize>,
    pub edid_valid: bool,
}

/// `DisplayInfo` with its strings taken by their characters.
pub struct DisplayInfoView {
    pub manufacturer: Option<Seq<char>>,
    pub product_code: Option<u16>,
    pub serial_number: Option<u32>,
    pub manufacture_week: Option<u8>,
    pub manufacture_year: Option<u16>,
    pub horizontal_px: Option<u16>,
    pub vertical_px: Option<u16>,
    pub refresh_timing: Option<RefreshTiming>,
    pub image_size_cm: Option<ImageSize>,
    pub edid_valid: bool,
}

impl View for DisplayInfo {
    type V = DisplayInfoView;

    open spec fn view(&self) -> DisplayInfoView {
        DisplayInfoView {
            manufacturer: match self.manufacturer {
                Some(m) => Some(m@),
                None => None,
            },
            product_code: self.product_code,
            serial_number: self.serial_number,
            manufacture_week: self.manufacture_week,
            manufacture_year: self.manufacture_year,
            horizontal_px: self.horizontal_px,
            vertical_px: self.vertical_px,
            refresh_timing: self.refresh_timing,
            image_size_cm: self.image_size_cm,
            edid_valid: self.edid_valid,
        }
    }
}

/// The fixed 8-byte EDID header.
pub open spec fn edid_header() -> Seq<u8> {
    seq![0x00u8, 0xFFu8, 0xFFu8, 0xFFu8, 0xFFu8, 0xFFu8, 0xFFu8, 0x00u8]
}

/// Sum of the bytes of `s`.
pub open spec fn byte_sum(s: Seq<u8>) -> nat
    decreases s.len(),
{
    if s.len() == 0 {
        0
    } else {
        byte_sum(s.drop_last()) + (s.last() as nat)
    }
}

/// A base EDID block: at least 128 bytes, the fixed header, and the first
/// 128 bytes summing to 0 modulo 256.
pub open spec fn edid_valid(raw: Seq<u8>) -> bool {
    &&& raw.len() >= 128
    &&& raw.take(8) == edid_header()
    &&& byte_sum(raw.take(128)) % 256 == 0
}

/// One letter of the PnP manufacturer id: a 5-bit code, 1 = 'A'.
pub open spec fn pnp_letter(code: int) -> char {
    (code + 64) as char
}

/// The three-letter PnP manufacturer id stored big-endian in bytes 8-9.
pub open spec fn pnp_id(raw: Seq<u8>) -> Seq<char> {
    let pnp = raw[8] * 256 + raw[9];
    seq![pnp_letter(pnp / 1024 % 32), pnp_letter(pnp / 32 % 32), pnp_letter(pnp % 32)]
}

/// The 18-byte preferred (first detailed) timing descriptor, bytes 54..72.
pub open spec fn timing_byte(raw: Seq<u8>, k: int) -> int {
    raw[54 + k] as int
}

pub open spec fn pixel_clock_khz(raw: Seq<u8>) -> int {
    (timing_byte(raw, 0) + timing_byte(raw, 1) * 256) * 10
}

pub open spec fn h_active(raw: Seq<u8>) -> int {
    (timing_byte(raw, 4) / 16) * 256 + timing_byte(raw, 2)
}

pub open spec fn h_blank(raw: Seq<u8>) -> int {
    (timing_byte(raw, 4) % 16) * 256 + timing_byte(raw, 3)
}

pub open spec fn v_active(raw: Seq<u8>) -> int {
    (timing_byte(raw, 7) / 16) * 256 + timing_byte(raw, 5)
}

pub open spec fn v_blank(raw: Seq<u8>) -> int {
    (timing_byte(raw, 7) % 16) * 256 + timing_byte(raw, 6)
}

/// Everything unknown: what an invalid block yields.
pub open spec fn empty_display_view() -> DisplayInfoView {
    DisplayInfoView {
        manufacturer: None,
        product_code: None,
        serial_number: None,
        manufacture_week: None,
        manufacture_year: None,
        horizontal_px: None,
        vertical_px: None,
        refresh_timing: None,
        image_size_cm: None,
        edid_valid: false,
    }
}

/// What an EDID block says, field by field.
pub open spec fn edid_view(raw: Seq<u8>) -> DisplayInfoView {
    if !edid_valid(raw) {
        empty_display_view()
    } else {
        let has_timing = pixel_clock_khz(raw) > 0;
        let h_total = h_active(raw) + h_blank(raw);
        let v_total = v_active(raw) + v_blank(raw);
        DisplayInfoView {
            manufacturer: Some(pnp_id(raw)),
            product_code: Some((raw[10] + raw[11] * 256) as u16),
            serial_number: Some(
                (raw[12] + raw[13] * 0x100 + raw[14] * 0x10000 + raw[15] * 0x1000000) as u32,
            ),
            manufacture_week: if raw[16] != 0xFF {
                Some(raw[16])
            } else {
                None
            },
            manufacture_year: Some((1990 + raw[17]) as u16),
            horizontal_px: if has_timing {
                Some(h_active(raw) as u16)
            } else {
                None
            },
            vertical_px: if has_timing {
                Some(v_active(raw) as u16)
            } else {
                None
            },
            refresh_timing: if has_timing && h_total > 0 && v_total > 0 {
                Some(
                    RefreshTiming {
                        pixel_clock_hz: (pixel_clock_khz(raw) * 1000) as u64,
                        h_total: h_total as u32,
                        v_total: v_total as u32,
                    },
                )
            } else {
                None
            },
            image_size_cm: if raw[21] > 0 && raw[22] > 0 {
                Some(ImageSize { width_cm: raw[21], height_cm: raw[22] })
            } else {
                None
            },
            edid_valid: true,
        }
    }
}

/// A block that is not a valid base EDID block yields nothing but
/// `edid_valid == false`.
pub proof fn lemma_invalid_edid_yields_nothing(raw: Seq<u8>)
    requires
        !edid_valid(raw),
    ensures
        edid_view(raw) == empty_display_view(),
{
}

/// The preferred timing of a valid block, read from the EDID layout: the
/// pixel clock is bytes 54-55 (little-endian, in 10 kHz units); the active
/// and blanking widths are 12-bit fields whose low bytes are 56 and 57 and
/// whose high nibbles are the top and bottom halves of byte 58; likewise the
/// heights with bytes 59, 60 and 61. The resolution is the active size, and
/// the frame totals are active plus blanking.
pub proof fn lemma_preferred_timing_layout(raw: Seq<u8>)
    requires
        edid_valid(raw),
        raw[54] as int + raw[55] as int * 256 > 0,
    ensures
        edid_view(raw).horizontal_px == Some(((raw[58] as int / 16) * 256 + raw[56] as int) as u16),
        edid_view(raw).vertical_px == Some(((raw[61] as int / 16) * 256 + raw[59] as int) as u16),
        ({
            let h_total = (raw[58] as int / 16) * 256 + raw[56] as int + (raw[58] as int % 16) * 256
                + raw[57] as int;
            let v_total = (raw[61] as int / 16) * 256 + raw[59] as int + (raw[61] as int % 16) * 256
                + raw[60] as int;
            edid_view(raw).refresh_timing == if h_total > 0 && v_total > 0 {
                Some(
                    RefreshTiming {
                        pixel_clock_hz: ((raw[54] as int + raw[55] as int * 256) * 10000) as u64,
                        h_total: h_total as u32,
                        v_total: v_total as u32,
                    },
                )
            } else {
                None
            }
        }),
{
}

/// The identity fields of a valid block, read from the EDID layout: the
/// manufacturer id is three 5-bit letters (1 = 'A') packed big-endian in
/// bytes 8-9; product code (bytes 10-11) and serial number (bytes 12-15)
/// are little-endian; byte 16 is the week (0xFF: unknown), byte 17 the
/// year after 1990; bytes 21 and 22 are the image size in cm (0: unknown).
pub proof fn lemma_identity_layout(raw: Seq<u8>)
    requires
        edid_valid(raw),
    ensures
        edid_view(raw).edid_valid,
        edid_view(raw).manufacturer == Some(
            seq![
                ((raw[8] as int / 4) % 32 + 64) as char,
                ((raw[8] as int % 4) * 8 + raw[9] as int / 32 + 64) as char,
                (raw[9] as int % 32 + 64) as char,
            ],
        ),
        edid_view(raw).product_code == Some((raw[10] as int + raw[11] as int * 256) as u16),
        edid_view(raw).serial_number == Some(
            (raw[12] as int + raw[13] as int * 256 + raw[14] as int * 65536 + raw[15] as int
                * 16777216) as u32,
        ),
        edid_view(raw).manufacture_week == (if raw[16] == 255 {
            None
        } else {
            Some(raw[16])
        }),
        edid_view(raw).manufacture_year == Some((raw[17] as int + 1990) as u16),
        edid_view(raw).image_size_cm == (if raw[21] == 0 || raw[22] == 0 {
            None
        } else {
            Some(ImageSize { width_cm: raw[21], height_cm: raw[22] })
        }),
{
    let pnp = raw[8] * 256 + raw[9];
    assert(pnp / 1024 % 32 == (raw[8] as int / 4) % 32);
    assert(pnp / 32 % 32 == (raw[8] as int % 4) * 8 + raw[9] as int / 32);
    assert(pnp % 32 == raw[9] as int % 32);
    assert(pnp_id(raw) =~= seq![
        ((raw[8] as int / 4) % 32 + 64) as char,
        ((raw[8] as int % 4) * 8 + raw[9] as int / 32 + 64) as char,
        (raw[9] as int % 32 + 64) as char,
    ]);
}

fn has_edid_header(raw: &[u8]) -> (b: bool)
    requires
        raw@.len() >= 8,
    ensures
        b == (raw@.take(8) == edid_header()),
{
    let ok = raw[0] == 0x00 && raw[1] == 0xFF && raw[2] == 0xFF && raw[3] == 0xFF && raw[4] == 0xFF
        && raw[5] == 0xFF && raw[6] == 0xFF && raw[7] == 0x00;
    if ok {
        assert(raw@.take(8) =~= edid_header());
    } else {
        assert(raw@.take(8) != edid_header()) by {
            if raw@.take(8) == edid_header() {
                assert(raw@.take(8)[0] == raw@[0]);
                assert(raw@.take(8)[1] == raw@[1]);
                assert(raw@.take(8)[2] == raw@[2]);
                assert(raw@.take(8)[3] == raw@[3]);
                assert(raw@.take(8)[4] == raw@[4]);
                assert(raw@.take(8)[5] == raw@[5]);
                assert(raw@.take(8)[6] == raw@[6]);
                assert(raw@.take(8)[7] == raw@[7]);
            }
        }
    }
    ok
}

/// Wrapping sum of the first 128 bytes.
fn block_checksum(raw: &[u8]) -> (c: u8)
    requires
        raw@.len() >= 128,
    ensures
        c == byte_sum(raw@.take(128)) % 256,
{
    let mut acc: u8 = 0;
    let mut i: usize = 0;
    while i < 128
        invariant
            i <= 128 <= raw@.len(),
            acc == byte_sum(raw@.take(i as int)) % 256,
        decreases 128 - i,
    {
        assert(raw@.take(i + 1).drop_last() =~= raw@.take(i as int));
        acc = acc.wrapping_add(raw[i]);
        i = i + 1;
    }
    acc
}

fn pnp_char(code: u16) -> (c: char)
    requires
        code < 32,
    ensures
        c == pnp_letter(code as int),
{
    ((code as u8) + 64u8) as char
}

/// Decodes a base EDID block. A block shorter than 128 bytes, without the
/// fixed header, or with a non-zero checksum yields nothing but
/// `edid_valid == false`.
pub fn parse_edid(raw: &[u8]) -> (info: DisplayInfo)
    ensures
        info@ == edid_view(raw@),
{
    let mut info = DisplayInfo {
        manufacturer: None,
        product_code: None,
        serial_number: None,
        manufacture_week: None,
        manufacture_year: None,
        horizontal_px: None,
        vertical_px: None,
        refresh_timing: None,
        image_size_cm: None,
        edid_valid: false,
    };
    if raw.len() < 128 {
        return info;
    }
    if !has_edid_header(raw) {
        return info;
    }
    if block_checksum(raw) != 0 {
        return info;
    }
    info.edid_valid = true;

    let pnp: u16 = (raw[8] as u16) * 256 + (raw[9] as u16);
    let mut m = String::new();
    push_char(&mut m, pnp_char(pnp / 1024 % 32));
    push_char(&mut m, pnp_char(pnp / 32 % 32));
    push_char(&mut m, pnp_char(pnp % 32));
    assert(m@ =~= pnp_id(raw@));
    info.manufacturer = Some(m);

    info.product_code = Some((raw[10] as u16) + (raw[11] as u16) * 256);
    info.serial_number = Some(
        (raw[12] as u32) + (raw[13] as u32) * 0x100 + (raw[14] as u32) * 0x10000 + (raw[15] as u32)
            * 0x1000000,
    );
    if raw[16] != 0xFF {
        info.manufacture_week = Some(raw[16]);
    }
    info.manufacture_year = Some(1990 + raw[17] as u16);

    if raw[21] > 0 && raw[22] > 0 {
        info.image_size_cm = Some(ImageSize { width_cm: raw[21], height_cm: raw[22] });
    }

    let pixel_clock_khz: u32 = ((raw[54] as u32) + (raw[55] as u32) * 256) * 10;
    if pixel_clock_khz > 0 {
        let h_active: u32 = (raw[58] as u32 / 16) * 256 + raw[56] as u32;
        let h_blank: u32 = (raw[58] as u32 % 16) * 256 + raw[57] as u32;
        let v_active: u32 = (raw[61] as u32 / 16) * 256 + raw[59] as u32;
        let v_blank: u32 = (raw[61] as u32 % 16) * 256 + raw[60] as u32;
        info.horizontal_px = Some(h_active as u16);
        info.vertical_px = Some(v_active as u16);
        let h_total = h_active + h_blank;
        let v_total = v_active + v_blank;
        if h_total > 0 && v_total > 0 {
            info.refresh_timing = Some(
                RefreshTiming {
                    pixel_clock_hz: pixel_clock_khz as u64 * 1000,
                    h_total,
                    v_total,
                },
            );
        }
    }
    info
}

} // verus!
