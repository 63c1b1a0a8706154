use wifi_densepose::mediatek_csi::{
    ChipsetProfile, CsiFlags, CsiFrame, CsiParseError, CsiPayload, ElementFormat, PpduType,
    ReportKind, MEDIATEK_CSI_HEADER_LEN, MEDIATEK_CSI_MAGIC, MEDIATEK_CSI_MAX_FRAME_LEN,
    MEDIATEK_CSI_VERSION,
};
use wifi_densepose::wire::{crc32_ieee, f32_bits_at, u16_at, u32_at, u64_at};

fn csi_frame() -> CsiFrame {
    CsiFrame {
        report_kind: ReportKind::Csi,
        sequence: 7,
        timestamp_us: 0x0102_0304_0506_0708,
        device_id: 0x1122_3344_5566_7788,
        chipset: ChipsetProfile::Mt7986Mt7975,
        bandwidth_mhz: 40,
        center_freq_khz: 2_437_000,
        flags: CsiFlags(CsiFlags::CALIBRATED | CsiFlags::SATURATED),
        tx_count: 1,
        rx_count: 2,
        ppdu_type: PpduType::Vht,
        subcarrier_count: 3,
        noise_floor_dbm: -90,
        scale_bits: 1.0f32.to_bits(),
        subcarrier_spacing_hz_bits: 312_500.0f32.to_bits(),
        calibration_id: 9,
        payload: CsiPayload::ComplexI16 {
            rssi_dbm: vec![-40, -41],
            values: vec![[1, -1], [2, -2], [3, -3], [i16::MAX, i16::MIN], [0, 0], [-5, 5]],
        },
    }
}

fn f32_frame() -> CsiFrame {
    let mut f = csi_frame();
    f.payload = CsiPayload::ComplexF32 {
        rssi_dbm: vec![-40, -41],
        values: (0..6)
            .map(|k| [(k as f32 * 0.5).to_bits(), (-1.25f32).to_bits()])
            .collect(),
    };
    f
}

fn capabilities_frame() -> CsiFrame {
    let mut f = csi_frame();
    f.report_kind = ReportKind::Capabilities;
    f.payload = CsiPayload::Bytes(vec![1, 2, 3, 4, 5]);
    f
}

/// Rewrites the CRC trailer after a header edit.
fn reseal(w: &mut Vec<u8>) {
    let n = w.len();
    let crc = crc32_ieee(&w[..n - 4]);
    w[n - 4..].copy_from_slice(&crc.to_le_bytes());
}

#[test]
fn crc32_ieee_matches_the_standard_check_value() {
    assert_eq!(crc32_ieee(b"123456789"), 0xcbf4_3926);
    assert_eq!(crc32_ieee(b""), 0);
    assert_eq!(crc32_ieee(b"a"), 0xe8b7_be43);
}

#[test]
fn little_endian_readers() {
    let b = [0x01, 0x02, 0x03, 0x04, 0x05, 0x06, 0x07, 0x08, 0x09];
    assert_eq!(u16_at(&b, 1), 0x0302);
    assert_eq!(u32_at(&b, 0), 0x0403_0201);
    assert_eq!(u64_at(&b, 1), 0x0908_0706_0504_0302);
    assert_eq!(f32_bits_at(&1.5f32.to_le_bytes(), 0), 1.5f32.to_bits());
}

#[test]
fn header_layout_is_as_documented() {
    let f = csi_frame();
    let w = f.to_bytes().unwrap();
    assert_eq!(w.len(), 72 + 2 + 6 * 4 + 4);
    assert_eq!(&w[0..4], b"MTC1");
    assert_eq!(u32_at(&w, 0), MEDIATEK_CSI_MAGIC);
    assert_eq!(w[4], MEDIATEK_CSI_VERSION);
    assert_eq!(w[5], 1);
    assert_eq!(u16_at(&w, 6) as usize, MEDIATEK_CSI_HEADER_LEN);
    assert_eq!(u32_at(&w, 8) as usize, w.len());
    assert_eq!(u32_at(&w, 12), 7);
    assert_eq!(u64_at(&w, 16), 0x0102_0304_0506_0708);
    assert_eq!(u64_at(&w, 24), 0x1122_3344_5566_7788);
    assert_eq!(u16_at(&w, 32), 2);
    assert_eq!(u16_at(&w, 34), 40);
    assert_eq!(u32_at(&w, 36), 2_437_000);
    assert_eq!(u16_at(&w, 40), 3);
    assert_eq!((w[42], w[43], w[44], w[45]), (1, 2, 1, 2));
    assert_eq!(u16_at(&w, 46), 3);
    assert_eq!(w[48], 2);
    assert_eq!(w[49] as i8, -90);
    assert_eq!(u16_at(&w, 50), 0);
    assert_eq!(u32_at(&w, 52), 1.0f32.to_bits());
    assert_eq!(u32_at(&w, 56), 312_500.0f32.to_bits());
    assert_eq!(u32_at(&w, 60), 9);
    assert_eq!(u32_at(&w, 64), 26);
    assert_eq!(u32_at(&w, 68), 0);
    assert_eq!(w[72] as i8, -40);
    assert_eq!(w[73] as i8, -41);
    assert_eq!(u16_at(&w, 74) as i16, 1);
    assert_eq!(u16_at(&w, 76) as i16, -1);
    let n = w.len();
    assert_eq!(u32_at(&w, n - 4), crc32_ieee(&w[..n - 4]));
}

#[test]
fn round_trip_of_every_payload_kind() {
    for f in [csi_frame(), f32_frame(), capabilities_frame()] {
        let w = f.to_bytes().unwrap();
        let (g, n) = CsiFrame::from_bytes(&w).unwrap();
        assert_eq!(g, f);
        assert_eq!(n, w.len());
        assert_eq!(g.to_bytes().unwrap(), w);
    }
}

#[test]
fn decoding_reads_only_the_frame_from_a_longer_buffer() {
    let w = csi_frame().to_bytes().unwrap();
    let mut more = w.clone();
    more.extend_from_slice(&[0xaa; 10]);
    let (g, n) = CsiFrame::from_bytes(&more).unwrap();
    assert_eq!(n, w.len());
    assert_eq!(g, csi_frame());
}

#[test]
fn every_proper_prefix_is_insufficient() {
    let w = csi_frame().to_bytes().unwrap();
    for k in 0..w.len() {
        let needed = if k < 72 { 72 } else { w.len() };
        assert_eq!(
            CsiFrame::from_bytes(&w[..k]),
            Err(CsiParseError::InsufficientData { needed, got: k })
        );
    }
}

#[test]
fn every_single_byte_change_after_the_length_is_a_crc_mismatch() {
    let w = capabilities_frame().to_bytes().unwrap();
    let n = w.len();
    for i in 12..n - 4 {
        let mut v = w.clone();
        v[i] ^= 0x5a;
        match CsiFrame::from_bytes(&v) {
            Err(CsiParseError::CrcMismatch { expected, actual }) => {
                assert_eq!(expected, crc32_ieee(&w[..n - 4]));
                assert_eq!(actual, crc32_ieee(&v[..n - 4]));
            }
            other => panic!("byte {i}: {other:?}"),
        }
    }
}

#[test]
fn envelope_errors() {
    let w = csi_frame().to_bytes().unwrap();
    let mut v = w.clone();
    v[0] = b'X';
    assert_eq!(
        CsiFrame::from_bytes(&v),
        Err(CsiParseError::InvalidMagic(u32_at(&v, 0)))
    );
    let mut v = w.clone();
    v[4] = 2;
    assert_eq!(CsiFrame::from_bytes(&v), Err(CsiParseError::UnsupportedVersion(2)));
    let mut v = w.clone();
    v[5] = 9;
    assert_eq!(CsiFrame::from_bytes(&v), Err(CsiParseError::UnknownReportKind(9)));
    let mut v = w.clone();
    v[6] = 71;
    assert_eq!(CsiFrame::from_bytes(&v), Err(CsiParseError::InvalidHeaderLength(71)));
    let mut v = w.clone();
    v[8..12].copy_from_slice(&(MEDIATEK_CSI_MAX_FRAME_LEN as u32 + 1).to_le_bytes());
    assert_eq!(
        CsiFrame::from_bytes(&v),
        Err(CsiParseError::FrameTooLarge(MEDIATEK_CSI_MAX_FRAME_LEN + 1))
    );
    let mut v = w.clone();
    v[8..12].copy_from_slice(&75u32.to_le_bytes());
    assert_eq!(CsiFrame::from_bytes(&v), Err(CsiParseError::InvalidFrameLength(75)));
    let mut v = w.clone();
    let n = v.len();
    v[n - 1] ^= 0xff;
    assert!(matches!(
        CsiFrame::from_bytes(&v),
        Err(CsiParseError::CrcMismatch { .. })
    ));
}

#[test]
fn header_code_errors() {
    let w = csi_frame().to_bytes().unwrap();
    let mut v = w.clone();
    v[32..34].copy_from_slice(&4u16.to_le_bytes());
    reseal(&mut v);
    assert_eq!(CsiFrame::from_bytes(&v), Err(CsiParseError::UnknownChipset(4)));
    let mut v = w.clone();
    v[44] = 0;
    reseal(&mut v);
    assert_eq!(CsiFrame::from_bytes(&v), Err(CsiParseError::UnknownElementFormat(0)));
    let mut v = w.clone();
    v[45] = 6;
    reseal(&mut v);
    assert_eq!(CsiFrame::from_bytes(&v), Err(CsiParseError::UnknownPpduType(6)));
}

#[test]
fn payload_errors_on_decode() {
    let w = csi_frame().to_bytes().unwrap();
    // payload length field disagrees with the frame length
    let mut v = w.clone();
    v[64..68].copy_from_slice(&25u32.to_le_bytes());
    reseal(&mut v);
    assert_eq!(CsiFrame::from_bytes(&v), Err(CsiParseError::PayloadLengthMismatch));
    // more RSSI values than the payload holds
    let mut v = w.clone();
    v[48] = 200;
    reseal(&mut v);
    assert_eq!(CsiFrame::from_bytes(&v), Err(CsiParseError::PayloadLengthMismatch));
    // the dimensions call for a different number of samples
    let mut v = w.clone();
    v[46..48].copy_from_slice(&4u16.to_le_bytes());
    reseal(&mut v);
    assert_eq!(CsiFrame::from_bytes(&v), Err(CsiParseError::PayloadLengthMismatch));
    // a non-finite f32 sample
    let wf = f32_frame().to_bytes().unwrap();
    let mut v = wf.clone();
    v[74..78].copy_from_slice(&f32::INFINITY.to_bits().to_le_bytes());
    reseal(&mut v);
    assert_eq!(CsiFrame::from_bytes(&v), Err(CsiParseError::NonFiniteValue));
    // validation after decoding: the bandwidth
    let mut v = w.clone();
    v[34..36].copy_from_slice(&30u16.to_le_bytes());
    reseal(&mut v);
    assert_eq!(CsiFrame::from_bytes(&v), Err(CsiParseError::InvalidBandwidth(30)));
    // validation after decoding: a CSI report with a byte payload
    let mut v = w.clone();
    v[44] = 3;
    reseal(&mut v);
    assert_eq!(CsiFrame::from_bytes(&v), Err(CsiParseError::PayloadTypeMismatch));
}

#[test]
fn validation_errors_on_encode() {
    let mut f = csi_frame();
    f.bandwidth_mhz = 60;
    assert_eq!(f.to_bytes(), Err(CsiParseError::InvalidBandwidth(60)));
    assert_eq!(f.validate(), Err(CsiParseError::InvalidBandwidth(60)));

    let mut f = csi_frame();
    f.tx_count = 0;
    assert_eq!(f.to_bytes(), Err(CsiParseError::InvalidDimensions));
    let mut f = csi_frame();
    f.rx_count = 5;
    assert_eq!(f.to_bytes(), Err(CsiParseError::InvalidDimensions));
    let mut f = csi_frame();
    f.subcarrier_count = 0;
    f.payload = CsiPayload::ComplexI16 { rssi_dbm: vec![-40, -41], values: vec![] };
    assert_eq!(f.to_bytes(), Err(CsiParseError::InvalidDimensions));

    for bits in [0.0f32.to_bits(), (-1.0f32).to_bits(), f32::NAN.to_bits(), f32::INFINITY.to_bits()] {
        let mut f = csi_frame();
        f.scale_bits = bits;
        assert_eq!(f.to_bytes(), Err(CsiParseError::NonFiniteValue));
        let mut f = csi_frame();
        f.subcarrier_spacing_hz_bits = bits;
        assert_eq!(f.to_bytes(), Err(CsiParseError::NonFiniteValue));
    }
    let mut f = csi_frame();
    f.scale_bits = 1;
    assert!(f.to_bytes().is_ok());

    let mut f = csi_frame();
    f.payload = CsiPayload::ComplexI16 { rssi_dbm: vec![-40], values: vec![[0, 0]; 6] };
    assert_eq!(f.to_bytes(), Err(CsiParseError::PayloadLengthMismatch));
    let mut f = csi_frame();
    f.payload = CsiPayload::ComplexI16 { rssi_dbm: vec![-40, -41], values: vec![[0, 0]; 5] };
    assert_eq!(f.to_bytes(), Err(CsiParseError::PayloadLengthMismatch));

    let mut f = csi_frame();
    f.payload = CsiPayload::Bytes(vec![1]);
    assert_eq!(f.to_bytes(), Err(CsiParseError::PayloadTypeMismatch));
    let mut f = capabilities_frame();
    f.payload = CsiPayload::Bytes(vec![]);
    assert_eq!(f.to_bytes(), Err(CsiParseError::PayloadTypeMismatch));
    let mut f = capabilities_frame();
    f.payload = csi_frame().payload;
    assert_eq!(f.to_bytes(), Err(CsiParseError::PayloadTypeMismatch));
}

#[test]
fn oversized_frames_are_refused() {
    let mut f = capabilities_frame();
    f.payload = CsiPayload::Bytes(vec![7; MEDIATEK_CSI_MAX_FRAME_LEN - 76]);
    assert_eq!(f.to_bytes().unwrap().len(), MEDIATEK_CSI_MAX_FRAME_LEN);
    f.payload = CsiPayload::Bytes(vec![7; MEDIATEK_CSI_MAX_FRAME_LEN - 75]);
    assert_eq!(
        f.to_bytes(),
        Err(CsiParseError::FrameTooLarge(MEDIATEK_CSI_MAX_FRAME_LEN + 1))
    );
}

#[test]
fn codes_names_and_flags() {
    assert_eq!(ReportKind::try_from(1u8), Ok(ReportKind::Csi));
    assert_eq!(ReportKind::try_from(2u8), Ok(ReportKind::Capabilities));
    assert_eq!(ReportKind::try_from(0u8), Err(CsiParseError::UnknownReportKind(0)));
    assert_eq!(ChipsetProfile::try_from(3u16), Ok(ChipsetProfile::Mt7988Mt7996));
    assert_eq!(ChipsetProfile::try_from(0u16), Err(CsiParseError::UnknownChipset(0)));
    assert_eq!(ElementFormat::try_from(2u8), Ok(ElementFormat::ComplexF32));
    assert_eq!(ElementFormat::try_from(4u8), Err(CsiParseError::UnknownElementFormat(4)));
    assert_eq!(PpduType::try_from(5u8), Ok(PpduType::Eht));
    assert_eq!(PpduType::try_from(0u8), Err(CsiParseError::UnknownPpduType(0)));
    assert_eq!(ChipsetProfile::Mt7981Mt7976.name(), "mt7981-mt7976");
    assert_eq!(ChipsetProfile::Mt7986Mt7975.name(), "mt7986-mt7975");
    assert_eq!(ChipsetProfile::Mt7988Mt7996.name(), "mt7988-mt7996");
    assert_eq!(ChipsetProfile::Mt7981Mt7976.max_chains(), 3);
    assert_eq!(ChipsetProfile::Mt7986Mt7975.max_chains(), 4);
    assert_eq!(ChipsetProfile::Mt7988Mt7996.max_chains(), 4);
    let flags = CsiFlags(CsiFlags::CALIBRATED | CsiFlags::SYNTHETIC);
    assert!(flags.contains(CsiFlags::SYNTHETIC));
    assert!(flags.contains(CsiFlags::CALIBRATED));
    assert!(!flags.contains(CsiFlags::SATURATED));
    assert!(!flags.contains(CsiFlags::TIME_SYNCHRONIZED));
    assert!(!flags.contains(CsiFlags::DROPPED_PREDECESSOR));
}

#[test]
fn payload_accessors() {
    let p = csi_frame().payload;
    assert_eq!(p.len(), 6);
    assert!(!p.is_empty());
    assert_eq!(p.rssi_dbm(), &[-40, -41]);
    assert_eq!(p.format(), ElementFormat::ComplexI16);
    let b = CsiPayload::Bytes(vec![]);
    assert_eq!(b.len(), 0);
    assert!(b.is_empty());
    assert!(b.rssi_dbm().is_empty());
    assert_eq!(b.format(), ElementFormat::Bytes);
    assert_eq!(f32_frame().payload.format(), ElementFormat::ComplexF32);
}

#[test]
fn message_followed_by_its_crc_has_the_residue() {
    for data in [&b""[..], b"a", b"123456789", &[0u8, 255, 17, 4, 99][..]] {
        let mut v = data.to_vec();
        v.extend_from_slice(&crc32_ieee(data).to_le_bytes());
        assert_eq!(crc32_ieee(&v), 0x2144_df1c);
    }
}

#[test]
fn a_change_to_the_crc_trailer_is_a_crc_mismatch() {
    let w = capabilities_frame().to_bytes().unwrap();
    let n = w.len();
    for i in n - 4..n {
        let mut v = w.clone();
        v[i] ^= 0x01;
        match CsiFrame::from_bytes(&v) {
            Err(CsiParseError::CrcMismatch { expected, actual }) => {
                assert_eq!(expected, u32_at(&v, n - 4));
                assert_eq!(actual, crc32_ieee(&w[..n - 4]));
            }
            other => panic!("byte {i}: {other:?}"),
        }
    }
}

#[test]
fn frames_compare_their_f32_fields_as_numbers() {
    let mut a = f32_frame();
    let mut b = f32_frame();
    assert_eq!(a, b);
    a.scale_bits = 0.0f32.to_bits();
    b.scale_bits = (-0.0f32).to_bits();
    assert_eq!(a, b);
    b.scale_bits = 1.0f32.to_bits();
    assert_ne!(a, b);
    a.scale_bits = f32::NAN.to_bits();
    b.scale_bits = f32::NAN.to_bits();
    assert_ne!(a, b);
    assert_ne!(a, a.clone());

    let mut c = f32_frame();
    let mut d = f32_frame();
    if let (CsiPayload::ComplexF32 { values: x, .. }, CsiPayload::ComplexF32 { values: y, .. }) =
        (&mut c.payload, &mut d.payload)
    {
        x[0][0] = 0.0f32.to_bits();
        y[0][0] = (-0.0f32).to_bits();
    }
    assert_eq!(c, d);
    if let CsiPayload::ComplexF32 { values: y, .. } = &mut d.payload {
        y[1][1] = f32::NAN.to_bits();
    }
    assert_ne!(c, d);
    assert_ne!(csi_frame(), capabilities_frame());
    assert_ne!(csi_frame().payload, f32_frame().payload);
}
