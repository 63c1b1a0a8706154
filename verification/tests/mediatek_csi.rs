use wifi_densepose::mediatek_csi::{ChipsetProfile, CsiFlags, CsiFrame, CsiParseError, CsiPayload};
use wifi_densepose::simulator::{MediatekCsiSimulator, SimulatorConfig};
use wifi_densepose::summary::FrameSummary;

/// The simulated waveform: a phase ramp over subcarriers and chains, plus noise.
fn waveform(sim: &MediatekCsiSimulator, motion_phase: f32) -> Vec<[i16; 2]> {
    let sub = sim.config().subcarriers as usize;
    sim.noise()
        .iter()
        .enumerate()
        .map(|(idx, n)| {
            let noise = *n as f32;
            let sc = (idx % sub) as f32;
            let chain = (idx / sub) as f32;
            let phase = sc * 0.031 + chain * 0.23 + motion_phase;
            [
                ((phase.cos() * 1800.0) + noise) as i16,
                ((phase.sin() * 1800.0) - noise) as i16,
            ]
        })
        .collect()
}

fn next_frame(sim: &mut MediatekCsiSimulator) -> CsiFrame {
    let values = waveform(sim, 0.0);
    sim.next_frame(values)
}

fn amplitude_summary(frame: &CsiFrame) -> (Option<f32>, Option<f32>) {
    let scale = f32::from_bits(frame.scale_bits);
    let amplitudes: Vec<f32> = match &frame.payload {
        CsiPayload::ComplexI16 { values, .. } => values
            .iter()
            .map(|[i, q]| (*i as f32).hypot(*q as f32) * scale)
            .collect(),
        CsiPayload::ComplexF32 { values, .. } => values
            .iter()
            .map(|[i, q]| f32::from_bits(*i).hypot(f32::from_bits(*q)) * scale)
            .collect(),
        CsiPayload::Bytes(_) => return (None, None),
    };
    if amplitudes.is_empty() {
        return (None, None);
    }
    let mean = amplitudes.iter().sum::<f32>() / amplitudes.len() as f32;
    let peak = amplitudes.into_iter().max_by(f32::total_cmp);
    (Some(mean), peak)
}

#[test]
fn simulator_round_trip_is_deterministic() {
    let cfg = SimulatorConfig::default();
    let mut a = MediatekCsiSimulator::new(cfg.clone()).unwrap();
    let mut b = MediatekCsiSimulator::new(cfg).unwrap();
    let wa = next_frame(&mut a).to_bytes().unwrap();
    assert_eq!(wa, next_frame(&mut b).to_bytes().unwrap());
    let (decoded, n) = CsiFrame::from_bytes(&wa).unwrap();
    assert_eq!(n, wa.len());
    assert!(decoded.flags.contains(CsiFlags::SYNTHETIC));
    assert_eq!(decoded.payload.len(), 2 * 3 * 256);
}

#[test]
fn capabilities_round_trip() {
    let s = MediatekCsiSimulator::new(SimulatorConfig::default()).unwrap();
    let f = s.capabilities_frame();
    let w = f.to_bytes().unwrap();
    assert_eq!(CsiFrame::from_bytes(&w).unwrap().0, f);
}

#[test]
fn crc_corruption_is_rejected() {
    let mut s = MediatekCsiSimulator::new(SimulatorConfig::default()).unwrap();
    let mut w = next_frame(&mut s).to_bytes().unwrap();
    w[80] ^= 1;
    assert!(matches!(
        CsiFrame::from_bytes(&w),
        Err(CsiParseError::CrcMismatch { .. })
    ));
}

#[test]
fn truncation_is_rejected() {
    let mut s = MediatekCsiSimulator::new(SimulatorConfig::default()).unwrap();
    let w = next_frame(&mut s).to_bytes().unwrap();
    assert!(matches!(
        CsiFrame::from_bytes(&w[..w.len() - 1]),
        Err(CsiParseError::InsufficientData { .. })
    ));
}

#[test]
fn invalid_dimensions_are_rejected() {
    let cfg = SimulatorConfig {
        rx_count: 4,
        chipset: ChipsetProfile::Mt7981Mt7976,
        ..Default::default()
    };
    assert!(matches!(
        MediatekCsiSimulator::new(cfg),
        Err(CsiParseError::InvalidDimensions)
    ));
}

#[test]
fn non_finite_float_is_rejected() {
    let mut s = MediatekCsiSimulator::new(SimulatorConfig::default()).unwrap();
    let mut f = next_frame(&mut s);
    f.payload = CsiPayload::ComplexF32 {
        rssi_dbm: vec![-40, -42, -44],
        values: vec![[f32::NAN.to_bits(), 0.0f32.to_bits()]; 2 * 3 * 256],
    };
    assert_eq!(f.to_bytes().unwrap_err(), CsiParseError::NonFiniteValue);
}

#[test]
fn parser_never_panics_on_prefixes() {
    let mut s = MediatekCsiSimulator::new(SimulatorConfig::default()).unwrap();
    let w = next_frame(&mut s).to_bytes().unwrap();
    for end in 0..w.len() {
        let _ = CsiFrame::from_bytes(&w[..end]);
    }
}

#[test]
fn simulator_summary_preserves_dimensions_and_provenance() {
    let mut sim = MediatekCsiSimulator::new(SimulatorConfig::default()).unwrap();
    let frame = next_frame(&mut sim);
    let snapshot = FrameSummary::from_frame(&frame);
    let (mean_amplitude, peak_amplitude) = amplitude_summary(&frame);
    assert_eq!(snapshot.source, "mediatek:simulated");
    assert_eq!(
        (
            snapshot.tx_count,
            snapshot.rx_count,
            snapshot.subcarrier_count
        ),
        (2, 3, 256)
    );
    assert_eq!(snapshot.element_count, 1536);
    assert!(mean_amplitude.unwrap() > 0.0);
    assert!(peak_amplitude.unwrap() >= mean_amplitude.unwrap());
}

#[test]
fn capability_summary_does_not_invent_signal_statistics() {
    let sim = MediatekCsiSimulator::new(SimulatorConfig::default()).unwrap();
    let frame = sim.capabilities_frame();
    let snapshot = FrameSummary::from_frame(&frame);
    assert_eq!(snapshot.report_kind, "capabilities");
    assert_eq!(amplitude_summary(&frame).0, None);
    assert!(snapshot.rssi_dbm.is_empty());
}
