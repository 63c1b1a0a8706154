//! Bounded summaries of MediaTek CSI frames: provenance, dimensions and flags.
//! Amplitude statistics are `f32` arithmetic and are computed by the caller.
use vstd::prelude::*;
use crate::mediatek_csi::{
    spec_chipset_name, ChipsetProfile, CsiFlags, CsiFrame, FrameModel, PpduType, ReportKind,
};

verus! {

/// Event type of every summary.
pub open spec fn summary_event_type() -> Seq<char> {
    "mediatek_csi"@
}

/// Where a frame comes from: simulated frames carry the synthetic flag.
pub open spec fn summary_source(synthetic: bool) -> Seq<char> {
    if synthetic {
        "mediatek:simulated"@
    } else {
        "mediatek"@
    }
}

pub open spec fn report_kind_label(k: ReportKind) -> Seq<char> {
    match k {
        ReportKind::Csi => "csi"@,
        ReportKind::Capabilities => "capabilities"@,
    }
}

/// The PPDU type's name in lower case.
pub open spec fn ppdu_type_label(p: PpduType) -> Seq<char> {
    match p {
        PpduType::Ht => "ht"@,
        PpduType::Vht => "vht"@,
        PpduType::HeSu => "hesu"@,
        PpduType::HeMu => "hemu"@,
        PpduType::Eht => "eht"@,
    }
}

/// What a frame's summary reports.
pub struct FrameSummary {
    pub event_type: &'static str,
    pub source: &'static str,
    pub report_kind: &'static str,
    pub sequence: u32,
    pub timestamp_us: u64,
    /// The device identifier as 16 lower-case hexadecimal digits.
    pub device_id: String,
    pub chipset: &'static str,
    pub center_freq_khz: u32,
    pub bandwidth_mhz: u16,
    pub tx_count: u8,
    pub rx_count: u8,
    pub subcarrier_count: u16,
    pub element_count: usize,
    pub ppdu_type: &'static str,
    pub rssi_dbm: Vec<i8>,
    pub noise_floor_dbm: i8,
    pub calibrated: bool,
    pub synthetic: bool,
    pub saturated: bool,
    pub time_synchronized: bool,
    pub dropped_predecessor: bool,
    pub calibration_id: u32,
    /// Bit pattern of the `f32` subcarrier spacing in Hz.
    pub subcarrier_spacing_hz_bits: u32,
}

/// The summary of frame `f` is exactly these fields of `s`.
pub open spec fn summarizes(s: FrameSummary, f: FrameModel) -> bool {
    let synthetic = f.flags & CsiFlags::SYNTHETIC != 0;
    &&& s.event_type@ == summary_event_type()
    &&& s.source@ == summary_source(synthetic)
    &&& s.report_kind@ == report_kind_label(f.report_kind)
    &&& s.sequence == f.sequence
    &&& s.timestamp_us == f.timestamp_us
    &&& s.device_id@ == hex16(f.device_id)
    &&& s.chipset@ == spec_chipset_name(f.chipset)
    &&& s.center_freq_khz == f.center_freq_khz
    &&& s.bandwidth_mhz == f.bandwidth_mhz
    &&& s.tx_count == f.tx_count
    &&& s.rx_count == f.rx_count
    &&& s.subcarrier_count == f.subcarrier_count
    &&& s.element_count == f.payload.len()
    &&& s.ppdu_type@ == ppdu_type_label(f.ppdu_type)
    &&& s.rssi_dbm@ == f.payload.rssi()
    &&& s.noise_floor_dbm == f.noise_floor_dbm
    &&& s.calibrated == (f.flags & CsiFlags::CALIBRATED != 0)
    &&& s.synthetic == synthetic
    &&& s.saturated == (f.flags & CsiFlags::SATURATED != 0)
    &&& s.time_synchronized == (f.flags & CsiFlags::TIME_SYNCHRONIZED != 0)
    &&& s.dropped_predecessor == (f.flags & CsiFlags::DROPPED_PREDECESSOR != 0)
    &&& s.calibration_id == f.calibration_id
    &&& s.subcarrier_spacing_hz_bits == f.subcarrier_spacing_hz_bits
}

/// The lower-case hexadecimal digit of `d`, for `d` below 16.
pub open spec fn hex_digit(d: u64) -> char {
    if d < 10 {
        (d + 48) as char
    } else {
        (d + 87) as char
    }
}

/// The value of the hexadecimal digit `i` of `x`, counting from the most significant.
pub open spec fn nibble(x: u64, i: int) -> u64 {
    (x >> ((60 - 4 * i) as u64)) & 15
}

/// `x` as 16 lower-case hexadecimal digits, most significant first.
pub open spec fn hex16(x: u64) -> Seq<char> {
    Seq::new(16, |i: int| hex_digit(nibble(x, i)))
}

fn hex_digit_str(d: u64) -> (s: &'static str)
    requires
        d < 16,
    ensures
        s@ == seq![hex_digit(d)],
{
    let s = match d {
        0 => "0",
        1 => "1",
        2 => "2",
        3 => "3",
        4 => "4",
        5 => "5",
        6 => "6",
        7 => "7",
        8 => "8",
        9 => "9",
        10 => "a",
        11 => "b",
        12 => "c",
        13 => "d",
        14 => "e",
        _ => "f",
    };
    proof {
        reveal_strlit("0");
        reveal_strlit("1");
        reveal_strlit("2");
        reveal_strlit("3");
        reveal_strlit("4");
        reveal_strlit("5");
        reveal_strlit("6");
        reveal_strlit("7");
        reveal_strlit("8");
        reveal_strlit("9");
        reveal_strlit("a");
        reveal_strlit("b");
        reveal_strlit("c");
        reveal_strlit("d");
        reveal_strlit("e");
        reveal_strlit("f");
    }
    assert(s@ =~= seq![hex_digit(d)]);
    s
}

/// A device identifier as 16 lower-case hexadecimal digits, zero-padded.
pub fn device_id_hex(id: u64) -> (s: String)
    ensures
        s@ == hex16(id),
{
    let mut s = String::new();
    let mut i: u64 = 0;
    while i < 16
        invariant
            i <= 16,
            s@ =~= hex16(id).take(i as int),
        decreases 16 - i,
    {
        let shift: u64 = 60 - 4 * i;
        let d: u64 = (id >> shift) & 15;
        assert(d < 16) by (bit_vector)
            requires
                d == (id >> shift) & 15,
        ;
        s.append(hex_digit_str(d));
        assert(hex16(id).take(i + 1) =~= hex16(id).take(i as int).push(hex_digit(nibble(id, i as int))));
        i = i + 1;
    }
    s
}

/// A summary's labels: the PPDU type's name in lower case ("ht", "vht", "hesu",
/// "hemu", "eht"), the report kind's ("csi", "capabilities"), the chipset's
/// ("mt7981-mt7976", "mt7986-mt7975", "mt7988-mt7996"), and the source,
/// "mediatek:simulated" for synthetic frames and "mediatek" for the others.
pub proof fn law_summary_labels(s: FrameSummary, f: FrameModel)
    requires
        summarizes(s, f),
    ensures
        s.ppdu_type@ == match f.ppdu_type {
            PpduType::Ht => "ht"@,
            PpduType::Vht => "vht"@,
            PpduType::HeSu => "hesu"@,
            PpduType::HeMu => "hemu"@,
            PpduType::Eht => "eht"@,
        },
        s.report_kind@ == (if f.report_kind == ReportKind::Csi {
            "csi"@
        } else {
            "capabilities"@
        }),
        s.chipset@ == match f.chipset {
            ChipsetProfile::Mt7981Mt7976 => "mt7981-mt7976"@,
            ChipsetProfile::Mt7986Mt7975 => "mt7986-mt7975"@,
            ChipsetProfile::Mt7988Mt7996 => "mt7988-mt7996"@,
        },
        s.source@ == (if f.flags & CsiFlags::SYNTHETIC != 0 {
            "mediatek:simulated"@
        } else {
            "mediatek"@
        }),
        s.event_type@ == "mediatek_csi"@,
{
}

fn report_kind_str(k: ReportKind) -> (s: &'static str)
    ensures
        s@ == report_kind_label(k),
{
    match k {
        ReportKind::Csi => "csi",
        ReportKind::Capabilities => "capabilities",
    }
}

fn ppdu_type_str(p: PpduType) -> (s: &'static str)
    ensures
        s@ == ppdu_type_label(p),
{
    match p {
        PpduType::Ht => "ht",
        PpduType::Vht => "vht",
        PpduType::HeSu => "hesu",
        PpduType::HeMu => "hemu",
        PpduType::Eht => "eht",
    }
}

fn copy_rssi(r: &[i8]) -> (v: Vec<i8>)
    ensures
        v@ == r@,
{
    let mut v: Vec<i8> = Vec::new();
    let n = r.len();
    let mut k: usize = 0;
    while k < n
        invariant
            k <= n,
            n == r@.len(),
            v@ =~= r@.take(k as int),
        decreases n - k,
    {
        v.push(r[k]);
        k = k + 1;
    }
    assert(r@.take(n as int) =~= r@);
    v
}

impl FrameSummary {
    /// Summarizes a frame: its provenance, labels, dimensions, RSSI and flags.
    pub fn from_frame(frame: &CsiFrame) -> (s: FrameSummary)
        ensures
            summarizes(s, frame@),
    {
        let synthetic = frame.flags.contains(CsiFlags::SYNTHETIC);
        FrameSummary {
            event_type: "mediatek_csi",
            source: if synthetic {
                "mediatek:simulated"
            } else {
                "mediatek"
            },
            report_kind: report_kind_str(frame.report_kind),
            sequence: frame.sequence,
            timestamp_us: frame.timestamp_us,
            device_id: device_id_hex(frame.device_id),
            chipset: frame.chipset.name(),
            center_freq_khz: frame.center_freq_khz,
            bandwidth_mhz: frame.bandwidth_mhz,
            tx_count: frame.tx_count,
            rx_count: frame.rx_count,
            subcarrier_count: frame.subcarrier_count,
            element_count: frame.payload.len(),
            ppdu_type: ppdu_type_str(frame.ppdu_type),
            rssi_dbm: copy_rssi(frame.payload.rssi_dbm()),
            noise_floor_dbm: frame.noise_floor_dbm,
            calibrated: frame.flags.contains(CsiFlags::CALIBRATED),
            synthetic,
            saturated: frame.flags.contains(CsiFlags::SATURATED),
            time_synchronized: frame.flags.contains(CsiFlags::TIME_SYNCHRONIZED),
            dropped_predecessor: frame.flags.contains(CsiFlags::DROPPED_PREDECESSOR),
            calibration_id: frame.calibration_id,
            subcarrier_spacing_hz_bits: frame.subcarrier_spacing_hz_bits,
        }
    }
}

} // verus!
