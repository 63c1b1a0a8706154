//! Equality of frames and payloads. Samples, the scale and the subcarrier
//! spacing are `f32` numbers held as bit patterns, and they compare as `f32`
//! numbers do: a NaN equals nothing, and `0.0` equals `-0.0`.
use vstd::prelude::*;
use crate::mediatek_csi::{CsiFrame, CsiPayload, FrameModel, PayloadModel};

verus! {

/// Whether the `f32` with bit pattern `b` is a NaN: exponent all ones, fraction not zero.
pub open spec fn f32_bits_nan(b: u32) -> bool {
    b & 0x7f80_0000 == 0x7f80_0000 && b & 0x007f_ffff != 0
}

/// Whether the `f32` numbers with bit patterns `a` and `b` compare equal.
pub open spec fn f32_bits_eq(a: u32, b: u32) -> bool {
    &&& !f32_bits_nan(a)
    &&& !f32_bits_nan(b)
    &&& (a == b || (a & 0x7fff_ffff == 0 && b & 0x7fff_ffff == 0))
}

/// Whether two complex `f32` samples compare equal, part by part.
pub open spec fn f32_sample_eq(a: [u32; 2], b: [u32; 2]) -> bool {
    f32_bits_eq(a[0], b[0]) && f32_bits_eq(a[1], b[1])
}

/// Whether two sequences of complex `f32` samples compare equal, element by element.
pub open spec fn f32_samples_eq(x: Seq<[u32; 2]>, y: Seq<[u32; 2]>) -> bool {
    &&& x.len() == y.len()
    &&& forall|i: int| 0 <= i < x.len() ==> #[trigger] f32_sample_eq(x[i], y[i])
}

/// Whether two payloads compare equal: the same variant, equal RSSI, and equal samples.
pub open spec fn payload_eq(a: PayloadModel, b: PayloadModel) -> bool {
    match (a, b) {
        (
            PayloadModel::ComplexI16 { rssi_dbm: r1, values: v1 },
            PayloadModel::ComplexI16 { rssi_dbm: r2, values: v2 },
        ) => r1 == r2 && v1 == v2,
        (
            PayloadModel::ComplexF32 { rssi_dbm: r1, values: v1 },
            PayloadModel::ComplexF32 { rssi_dbm: r2, values: v2 },
        ) => r1 == r2 && f32_samples_eq(v1, v2),
        (PayloadModel::Bytes(x), PayloadModel::Bytes(y)) => x == y,
        _ => false,
    }
}

/// Whether two frames compare equal: every field, the `f32` ones as numbers.
pub open spec fn frame_eq(a: FrameModel, b: FrameModel) -> bool {
    &&& a.report_kind == b.report_kind
    &&& a.sequence == b.sequence
    &&& a.timestamp_us == b.timestamp_us
    &&& a.device_id == b.device_id
    &&& a.chipset == b.chipset
    &&& a.bandwidth_mhz == b.bandwidth_mhz
    &&& a.center_freq_khz == b.center_freq_khz
    &&& a.flags == b.flags
    &&& a.tx_count == b.tx_count
    &&& a.rx_count == b.rx_count
    &&& a.ppdu_type == b.ppdu_type
    &&& a.subcarrier_count == b.subcarrier_count
    &&& a.noise_floor_dbm == b.noise_floor_dbm
    &&& f32_bits_eq(a.scale_bits, b.scale_bits)
    &&& f32_bits_eq(a.subcarrier_spacing_hz_bits, b.subcarrier_spacing_hz_bits)
    &&& a.calibration_id == b.calibration_id
    &&& payload_eq(a.payload, b.payload)
}

/// Whether the `f32` numbers with bit patterns `a` and `b` compare equal.
pub fn f32_bits_equal(a: u32, b: u32) -> (r: bool)
    ensures
        r == f32_bits_eq(a, b),
{
    let a_nan = a & 0x7f80_0000 == 0x7f80_0000 && a & 0x007f_ffff != 0;
    let b_nan = b & 0x7f80_0000 == 0x7f80_0000 && b & 0x007f_ffff != 0;
    !a_nan && !b_nan && (a == b || (a & 0x7fff_ffff == 0 && b & 0x7fff_ffff == 0))
}

fn i8s_equal(x: &Vec<i8>, y: &Vec<i8>) -> (r: bool)
    ensures
        r == (x@ == y@),
{
    if x.len() != y.len() {
        return false;
    }
    let n = x.len();
    let mut i: usize = 0;
    while i < n
        invariant
            i <= n,
            n == x@.len(),
            n == y@.len(),
            forall|j: int| 0 <= j < i ==> x@[j] == y@[j],
        decreases n - i,
    {
        if x[i] != y[i] {
            return false;
        }
        i = i + 1;
    }
    assert(x@ =~= y@);
    true
}

fn bytes_equal(x: &Vec<u8>, y: &Vec<u8>) -> (r: bool)
    ensures
        r == (x@ == y@),
{
    if x.len() != y.len() {
        return false;
    }
    let n = x.len();
    let mut i: usize = 0;
    while i < n
        invariant
            i <= n,
            n == x@.len(),
            n == y@.len(),
            forall|j: int| 0 <= j < i ==> x@[j] == y@[j],
        decreases n - i,
    {
        if x[i] != y[i] {
            return false;
        }
        i = i + 1;
    }
    assert(x@ =~= y@);
    true
}

fn i16_samples_equal(x: &Vec<[i16; 2]>, y: &Vec<[i16; 2]>) -> (r: bool)
    ensures
        r == (x@ == y@),
{
    if x.len() != y.len() {
        return false;
    }
    let n = x.len();
    let mut i: usize = 0;
    while i < n
        invariant
            i <= n,
            n == x@.len(),
            n == y@.len(),
            forall|j: int| 0 <= j < i ==> x@[j] == y@[j],
        decreases n - i,
    {
        let a = x[i];
        let b = y[i];
        if a[0] != b[0] || a[1] != b[1] {
            return false;
        }
        assert(a@ =~= b@);
        i = i + 1;
    }
    assert(x@ =~= y@);
    true
}

fn f32_sample_equal(a: [u32; 2], b: [u32; 2]) -> (r: bool)
    ensures
        r == f32_sample_eq(a, b),
{
    f32_bits_equal(a[0], b[0]) && f32_bits_equal(a[1], b[1])
}

fn f32_samples_equal(x: &Vec<[u32; 2]>, y: &Vec<[u32; 2]>) -> (r: bool)
    ensures
        r == f32_samples_eq(x@, y@),
{
    if x.len() != y.len() {
        return false;
    }
    let n = x.len();
    let mut i: usize = 0;
    while i < n
        invariant
            i <= n,
            n == x@.len(),
            n == y@.len(),
            forall|j: int| 0 <= j < i ==> #[trigger] f32_sample_eq(x@[j], y@[j]),
        decreases n - i,
    {
        let a = x[i];
        let b = y[i];
        if !f32_sample_equal(a, b) {
            return false;
        }
        i = i + 1;
    }
    true
}

impl PartialEq for CsiPayload {
    fn eq(&self, other: &Self) -> (r: bool) {
        match (self, other) {
            (
                CsiPayload::ComplexI16 { rssi_dbm: r1, values: v1 },
                CsiPayload::ComplexI16 { rssi_dbm: r2, values: v2 },
            ) => i8s_equal(r1, r2) && i16_samples_equal(v1, v2),
            (
                CsiPayload::ComplexF32 { rssi_dbm: r1, values: v1 },
                CsiPayload::ComplexF32 { rssi_dbm: r2, values: v2 },
            ) => i8s_equal(r1, r2) && f32_samples_equal(v1, v2),
            (CsiPayload::Bytes(x), CsiPayload::Bytes(y)) => bytes_equal(x, y),
            _ => false,
        }
    }
}

impl vstd::std_specs::cmp::PartialEqSpecImpl for CsiPayload {
    open spec fn obeys_eq_spec() -> bool {
        true
    }

    open spec fn eq_spec(&self, other: &Self) -> bool {
        payload_eq(self@, other@)
    }
}

impl PartialEq for CsiFrame {
    fn eq(&self, other: &Self) -> (r: bool) {
        self.report_kind == other.report_kind && self.sequence == other.sequence
            && self.timestamp_us == other.timestamp_us && self.device_id == other.device_id
            && self.chipset == other.chipset && self.bandwidth_mhz == other.bandwidth_mhz
            && self.center_freq_khz == other.center_freq_khz && self.flags == other.flags
            && self.tx_count == other.tx_count && self.rx_count == other.rx_count
            && self.ppdu_type == other.ppdu_type && self.subcarrier_count == other.subcarrier_count
            && self.noise_floor_dbm == other.noise_floor_dbm
            && f32_bits_equal(self.scale_bits, other.scale_bits)
            && f32_bits_equal(self.subcarrier_spacing_hz_bits, other.subcarrier_spacing_hz_bits)
            && self.calibration_id == other.calibration_id && self.payload == other.payload
    }
}

impl vstd::std_specs::cmp::PartialEqSpecImpl for CsiFrame {
    open spec fn obeys_eq_spec() -> bool {
        true
    }

    open spec fn eq_spec(&self, other: &Self) -> bool {
        frame_eq(self@, other@)
    }
}

} // verus!
