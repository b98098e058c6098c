use asol_naki::display::{parse_edid, ImageSize, RefreshTiming};

fn valid_block() -> Vec<u8> {
    let mut raw = vec![0u8; 128];
    raw[0..8].copy_from_slice(&[0x00, 0xFF, 0xFF, 0xFF, 0xFF, 0xFF, 0xFF, 0x00]);
    // "AUO" = A(1) U(21) O(15): 00001 10101 01111
    let pnp: u16 = (1 << 10) | (21 << 5) | 15;
    raw[8] = (pnp >> 8) as u8;
    raw[9] = (pnp & 0xFF) as u8;
    raw[10] = 0x34;
    raw[11] = 0x12;
    raw[12..16].copy_from_slice(&[0x78, 0x56, 0x34, 0x12]);
    raw[16] = 12;
    raw[17] = 30;
    raw[21] = 34;
    raw[22] = 19;
    // 1920x1080, pixel clock 138.5 MHz (13850 * 10 kHz), blank 160 x 31
    raw[54] = (13850 & 0xFF) as u8;
    raw[55] = (13850 >> 8) as u8;
    raw[56] = (1920 & 0xFF) as u8;
    raw[57] = 160;
    raw[58] = (((1920 >> 8) as u8) << 4) | 0;
    raw[59] = (1080 & 0xFF) as u8;
    raw[60] = 31;
    raw[61] = (((1080 >> 8) as u8) << 4) | 0;
    let sum: u8 = raw[..127].iter().fold(0u8, |a, &b| a.wrapping_add(b));
    raw[127] = 0u8.wrapping_sub(sum);
    raw
}

#[test]
fn valid_edid_decodes() {
    let info = parse_edid(&valid_block());
    assert!(info.edid_valid);
    assert_eq!(info.manufacturer.as_deref(), Some("AUO"));
    assert_eq!(info.product_code, Some(0x1234));
    assert_eq!(info.serial_number, Some(0x12345678));
    assert_eq!(info.manufacture_week, Some(12));
    assert_eq!(info.manufacture_year, Some(2020));
    assert_eq!(info.horizontal_px, Some(1920));
    assert_eq!(info.vertical_px, Some(1080));
    assert_eq!(info.image_size_cm, Some(ImageSize { width_cm: 34, height_cm: 19 }));
    assert_eq!(
        info.refresh_timing,
        Some(RefreshTiming {
            pixel_clock_hz: 138_500_000,
            h_total: 2080,
            v_total: 1111
        })
    );
}

#[test]
fn short_block_is_invalid() {
    let info = parse_edid(&valid_block()[..127]);
    assert!(!info.edid_valid);
    assert!(info.manufacturer.is_none());
    assert!(info.horizontal_px.is_none());
}

#[test]
fn bad_header_is_invalid() {
    let mut raw = valid_block();
    raw[0] = 1;
    raw[127] = raw[127].wrapping_sub(1);
    let info = parse_edid(&raw);
    assert!(!info.edid_valid);
    assert!(info.product_code.is_none());
}

#[test]
fn bad_checksum_is_invalid() {
    let mut raw = valid_block();
    raw[127] = raw[127].wrapping_add(1);
    let info = parse_edid(&raw);
    assert!(!info.edid_valid);
    assert!(info.serial_number.is_none());
}

#[test]
fn unknown_week_and_size_and_no_timing() {
    let mut raw = valid_block();
    raw[16] = 0xFF;
    raw[21] = 0;
    raw[54] = 0;
    raw[55] = 0;
    let sum: u8 = raw[..127].iter().fold(0u8, |a, &b| a.wrapping_add(b));
    raw[127] = 0u8.wrapping_sub(sum);
    let info = parse_edid(&raw);
    assert!(info.edid_valid);
    assert_eq!(info.manufacture_week, None);
    assert_eq!(info.image_size_cm, None);
    assert_eq!(info.horizontal_px, None);
    assert_eq!(info.refresh_timing, None);
}

#[test]
fn longer_blocks_are_checked_on_the_first_128_bytes() {
    let mut raw = valid_block();
    raw.extend_from_slice(&[7u8; 128]);
    assert!(parse_edid(&raw).edid_valid);
}
