use wifi_densepose::cli::{parse_u64, IntParseError, Profile};
use wifi_densepose::mediatek_csi::{
    ChipsetProfile, CsiFlags, CsiFrame, CsiParseError, CsiPayload, PpduType, ReportKind,
};
use wifi_densepose::simulator::{MediatekCsiSimulator, SimulatorConfig};
use wifi_densepose::summary::{device_id_hex, FrameSummary};

fn flat(sim: &MediatekCsiSimulator) -> Vec<[i16; 2]> {
    vec![[100, -100]; sim.element_count()]
}

#[test]
fn default_config_values() {
    let c = SimulatorConfig::default();
    assert_eq!(c.seed, 0x4d54_4b43_5349_0001);
    assert_eq!(c.device_id, 0x4f57_5254_4d54_4b31);
    assert_eq!(c.chipset, ChipsetProfile::Mt7981Mt7976);
    assert_eq!((c.bandwidth_mhz, c.center_freq_khz), (80, 5_210_000));
    assert_eq!((c.tx_count, c.rx_count, c.subcarriers), (2, 3, 256));
    assert_eq!(c.frame_period_us, 20_000);
}

#[test]
fn configuration_errors() {
    let bad_bw = SimulatorConfig { bandwidth_mhz: 10, ..Default::default() };
    assert!(matches!(
        MediatekCsiSimulator::new(bad_bw),
        Err(CsiParseError::InvalidBandwidth(10))
    ));
    let no_tx = SimulatorConfig { tx_count: 0, ..Default::default() };
    assert!(matches!(
        MediatekCsiSimulator::new(no_tx),
        Err(CsiParseError::InvalidDimensions)
    ));
    let no_sc = SimulatorConfig { subcarriers: 0, ..Default::default() };
    assert!(matches!(
        MediatekCsiSimulator::new(no_sc),
        Err(CsiParseError::InvalidDimensions)
    ));
    let too_many = SimulatorConfig {
        chipset: ChipsetProfile::Mt7988Mt7996,
        tx_count: 4,
        rx_count: 4,
        subcarriers: 1025,
        ..Default::default()
    };
    assert!(matches!(
        MediatekCsiSimulator::new(too_many),
        Err(CsiParseError::InvalidDimensions)
    ));
    let most = SimulatorConfig { subcarriers: 1024, ..too_many };
    assert_eq!(MediatekCsiSimulator::check_config(&most), Ok(()));
    assert_eq!(MediatekCsiSimulator::new(most).unwrap().element_count(), 16_384);
}

#[test]
fn frames_carry_the_configuration() {
    let mut sim = MediatekCsiSimulator::new(SimulatorConfig::default()).unwrap();
    let values = flat(&sim);
    let f = sim.next_frame(values.clone());
    assert_eq!(f.report_kind, ReportKind::Csi);
    assert_eq!((f.sequence, f.timestamp_us), (0, 0));
    assert_eq!(f.device_id, 0x4f57_5254_4d54_4b31);
    assert_eq!(f.flags, CsiFlags(CsiFlags::CALIBRATED | CsiFlags::SYNTHETIC));
    assert_eq!(f.ppdu_type, PpduType::HeSu);
    assert_eq!(f.noise_floor_dbm, -95);
    assert_eq!(f32::from_bits(f.scale_bits), 1.0 / 2048.0);
    assert_eq!(f32::from_bits(f.subcarrier_spacing_hz_bits), 312_500.0);
    assert_eq!(f.calibration_id, 1);
    assert_eq!(
        f.payload,
        CsiPayload::ComplexI16 { rssi_dbm: vec![-42, -44, -46], values }
    );
    assert_eq!(f.validate(), Ok(()));
}

#[test]
fn sequence_and_clock_advance_and_wrap() {
    let cfg = SimulatorConfig { frame_period_us: u64::MAX, ..Default::default() };
    let mut sim = MediatekCsiSimulator::new(cfg).unwrap();
    assert_eq!((sim.sequence(), sim.timestamp_us()), (0, 0));
    let v = flat(&sim);
    sim.next_frame(v);
    assert_eq!((sim.sequence(), sim.timestamp_us()), (1, u64::MAX));
    let v = flat(&sim);
    let f = sim.next_frame(v);
    assert_eq!((f.sequence, f.timestamp_us), (1, u64::MAX));
    assert_eq!((sim.sequence(), sim.timestamp_us()), (2, u64::MAX - 1));
}

#[test]
fn capabilities_payload() {
    let sim = MediatekCsiSimulator::new(SimulatorConfig::default()).unwrap();
    let f = sim.capabilities_frame();
    assert_eq!(f.report_kind, ReportKind::Capabilities);
    assert_eq!(f.payload, CsiPayload::Bytes(vec![1, 1, 3, 2, 1, 0x0f, 3, 2, 0, 1]));
    let (g, _) = CsiFrame::from_bytes(&f.to_bytes().unwrap()).unwrap();
    assert_eq!(g, f);
}

#[test]
fn noise_is_deterministic_and_bounded() {
    let a = MediatekCsiSimulator::new(SimulatorConfig::default()).unwrap();
    let b = MediatekCsiSimulator::new(SimulatorConfig::default()).unwrap();
    let na = a.noise();
    assert_eq!(na, b.noise());
    assert_eq!(na.len(), 1536);
    assert!(na.iter().all(|n| -24 < *n && *n < 24));
    // first value, by hand: xorshift64 (13, 7, 17) of the seed, top 16 bits as i16, rem 24
    let mut x: u64 = 0x4d54_4b43_5349_0001;
    x ^= x << 13;
    x ^= x >> 7;
    x ^= x << 17;
    assert_eq!(na[0], ((x >> 48) as i16) % 24);
    let other = MediatekCsiSimulator::new(SimulatorConfig { seed: 1, ..Default::default() })
        .unwrap();
    assert_ne!(other.noise(), na);
}

#[test]
fn summary_of_a_real_frame() {
    let mut f = MediatekCsiSimulator::new(SimulatorConfig::default())
        .unwrap()
        .capabilities_frame();
    f.flags = CsiFlags(CsiFlags::SATURATED | CsiFlags::TIME_SYNCHRONIZED | CsiFlags::DROPPED_PREDECESSOR);
    f.ppdu_type = PpduType::Eht;
    let s = FrameSummary::from_frame(&f);
    assert_eq!(s.event_type, "mediatek_csi");
    assert_eq!(s.source, "mediatek");
    assert_eq!(s.report_kind, "capabilities");
    assert_eq!(s.chipset, "mt7981-mt7976");
    assert_eq!(s.ppdu_type, "eht");
    assert_eq!(s.element_count, 10);
    assert!(!s.calibrated && !s.synthetic);
    assert!(s.saturated && s.time_synchronized && s.dropped_predecessor);
    assert_eq!(s.device_id, "4f5752544d544b31");
    assert_eq!(f32::from_bits(s.subcarrier_spacing_hz_bits), 312_500.0);
}

#[test]
fn profiles() {
    assert_eq!(Profile::Mt7981.chipset(), ChipsetProfile::Mt7981Mt7976);
    assert_eq!(Profile::Mt7986.chipset(), ChipsetProfile::Mt7986Mt7975);
    assert_eq!(Profile::Mt7996.chipset(), ChipsetProfile::Mt7988Mt7996);
    assert_eq!(Profile::Mt7981.default_chains(), 3);
    assert_eq!(Profile::Mt7986.default_chains(), 4);
    assert_eq!(Profile::Mt7996.default_chains(), 4);
}

#[test]
fn seeds_parse_like_std() {
    assert_eq!(parse_u64("0x4d544b4353490001"), Ok(0x4d54_4b43_5349_0001));
    assert_eq!(parse_u64("0XfF"), Ok(255));
    assert_eq!(parse_u64("123"), Ok(123));
    assert_eq!(parse_u64("+7"), Ok(7));
    assert_eq!(parse_u64("0x+a"), Ok(10));
    assert_eq!(parse_u64("18446744073709551615"), Ok(u64::MAX));
    assert_eq!(parse_u64(""), Err(IntParseError::Empty));
    assert_eq!(parse_u64("0x"), Err(IntParseError::Empty));
    assert_eq!(parse_u64("+"), Err(IntParseError::InvalidDigit));
    assert_eq!(parse_u64("-1"), Err(IntParseError::InvalidDigit));
    assert_eq!(parse_u64("12a"), Err(IntParseError::InvalidDigit));
    assert_eq!(parse_u64("0xfg"), Err(IntParseError::InvalidDigit));
    assert_eq!(parse_u64("18446744073709551616"), Err(IntParseError::PosOverflow));
    assert_eq!(parse_u64("0x10000000000000000"), Err(IntParseError::PosOverflow));
    assert_eq!(parse_u64("99999999999999999999x"), Err(IntParseError::PosOverflow));
    for s in ["0", "42", "+9", "007", "x1", "1 2", "٣"] {
        let ours = parse_u64(s);
        let std = s.parse::<u64>();
        assert_eq!(ours.is_ok(), std.is_ok(), "{s}");
        if let Ok(v) = std {
            assert_eq!(ours, Ok(v));
        }
    }
}

#[test]
fn largest_simulated_frames_do_not_fit_on_the_wire() {
    let cfg = SimulatorConfig {
        chipset: ChipsetProfile::Mt7988Mt7996,
        tx_count: 4,
        rx_count: 4,
        subcarriers: 1024,
        ..Default::default()
    };
    let mut sim = MediatekCsiSimulator::new(cfg).unwrap();
    assert!(sim.capabilities_frame().to_bytes().is_ok());
    let v = flat(&sim);
    let f = sim.next_frame(v);
    assert_eq!(f.validate(), Ok(()));
    assert_eq!(f.to_bytes(), Err(CsiParseError::FrameTooLarge(72 + 4 + 4 * 16_384 + 4)));
    let fits = SimulatorConfig { subcarriers: 1019, ..cfg };
    let mut sim = MediatekCsiSimulator::new(fits).unwrap();
    let v = flat(&sim);
    let w = sim.next_frame(v).to_bytes().unwrap();
    assert_eq!(w.len(), 72 + 4 + 4 * 16 * 1019 + 4);
}

#[test]
fn device_id_is_sixteen_lower_case_hex_digits() {
    assert_eq!(device_id_hex(0x4f57_5254_4d54_4b31), "4f5752544d544b31");
    assert_eq!(device_id_hex(0), "0000000000000000");
    assert_eq!(device_id_hex(0xab), "00000000000000ab");
    assert_eq!(device_id_hex(u64::MAX), "ffffffffffffffff");
    assert_eq!(device_id_hex(0x1122_3344_5566_7788), format!("{:016x}", 0x1122_3344_5566_7788u64));
}

#[test]
fn kth_frame_carries_k_and_k_periods() {
    let cfg = SimulatorConfig { frame_period_us: 7_000, ..Default::default() };
    let mut sim = MediatekCsiSimulator::new(cfg).unwrap();
    for k in 0..6u64 {
        let values = flat(&sim);
        let f = sim.next_frame(values);
        assert_eq!(f.sequence as u64, k);
        assert_eq!(f.timestamp_us, k * 7_000);
        assert_eq!(f.device_id, cfg.device_id);
        assert!(f.flags.contains(CsiFlags::SYNTHETIC) && f.flags.contains(CsiFlags::CALIBRATED));
        assert_eq!(f.validate(), Ok(()));
    }
    assert_eq!(sim.sequence(), 6);
    assert_eq!(sim.timestamp_us(), 42_000);
}
