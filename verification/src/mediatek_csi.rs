//! Frame model of the vendor-neutral MediaTek Filogic MIMO CSI transport:
//! report kinds, chipset profiles, element formats, flags, payloads, errors,
//! and the validation that every encoded or decoded frame passes.
//!
//! `f32` quantities travel as their IEEE-754 binary32 bit patterns (`u32`), which is
//! exactly what the wire carries; the checks below classify those patterns.
use vstd::prelude::*;

verus! {

/// `"MTC1"` read as a little-endian `u32`.
pub const MEDIATEK_CSI_MAGIC: u32 = 0x3143_544d;
/// The only envelope version this library reads and writes.
pub const MEDIATEK_CSI_VERSION: u8 = 1;
/// Bytes of header before the payload.
pub const MEDIATEK_CSI_HEADER_LEN: usize = 72;
/// Bytes of the CRC-32 trailer.
pub const MEDIATEK_CSI_CRC_LEN: usize = 4;
/// Largest frame: the largest UDP payload over IPv4.
pub const MEDIATEK_CSI_MAX_FRAME_LEN: usize = 65_507;
/// Largest number of complex samples (`tx * rx * subcarriers`) in a CSI report.
pub const MEDIATEK_CSI_MAX_ELEMENTS: usize = 16_384;

/// Errors of encoding, decoding and validation.
#[derive(Debug, Clone, Copy, PartialEq, Eq, Structural)]
pub enum CsiParseError {
    InsufficientData { needed: usize, got: usize },
    InvalidMagic(u32),
    UnsupportedVersion(u8),
    UnknownReportKind(u8),
    UnknownChipset(u16),
    UnknownElementFormat(u8),
    UnknownPpduType(u8),
    InvalidHeaderLength(usize),
    InvalidFrameLength(usize),
    FrameTooLarge(usize),
    LengthOverflow,
    PayloadLengthMismatch,
    PayloadTypeMismatch,
    InvalidDimensions,
    InvalidBandwidth(u16),
    NonFiniteValue,
    CrcMismatch { expected: u32, actual: u32 },
}

/// What a frame reports.
#[derive(Debug, Clone, Copy, PartialEq, Eq, Structural)]
pub enum ReportKind {
    Csi,
    Capabilities,
}

/// The wire code of each report kind.
pub open spec fn report_kind_code(k: ReportKind) -> u8 {
    match k {
        ReportKind::Csi => 1,
        ReportKind::Capabilities => 2,
    }
}

/// The report kind that a wire code names, or the error for an unknown code.
pub open spec fn report_kind_from_code(v: u8) -> Result<ReportKind, CsiParseError> {
    if v == 1 {
        Ok(ReportKind::Csi)
    } else if v == 2 {
        Ok(ReportKind::Capabilities)
    } else {
        Err(CsiParseError::UnknownReportKind(v))
    }
}

impl ReportKind {
    /// The wire code.
    pub fn code(self) -> (c: u8)
        ensures
            c == report_kind_code(self),
    {
        match self {
            ReportKind::Csi => 1,
            ReportKind::Capabilities => 2,
        }
    }
}

impl TryFrom<u8> for ReportKind {
    type Error = CsiParseError;

    fn try_from(value: u8) -> (r: Result<Self, Self::Error>) {
        match value {
            1 => Ok(ReportKind::Csi),
            2 => Ok(ReportKind::Capabilities),
            _ => Err(CsiParseError::UnknownReportKind(value)),
        }
    }
}

impl vstd::std_specs::convert::TryFromSpecImpl<u8> for ReportKind {
    open spec fn obeys_try_from_spec() -> bool {
        true
    }

    open spec fn try_from_spec(v: u8) -> Result<Self, Self::Error> {
        report_kind_from_code(v)
    }
}


/// Chipset profile of the reporting radio.
#[derive(Debug, Clone, Copy, PartialEq, Eq, Structural)]
pub enum ChipsetProfile {
    Mt7981Mt7976,
    Mt7986Mt7975,
    Mt7988Mt7996,
}

pub open spec fn chipset_code(c: ChipsetProfile) -> u16 {
    match c {
        ChipsetProfile::Mt7981Mt7976 => 1,
        ChipsetProfile::Mt7986Mt7975 => 2,
        ChipsetProfile::Mt7988Mt7996 => 3,
    }
}

pub open spec fn chipset_from_code(v: u16) -> Result<ChipsetProfile, CsiParseError> {
    if v == 1 {
        Ok(ChipsetProfile::Mt7981Mt7976)
    } else if v == 2 {
        Ok(ChipsetProfile::Mt7986Mt7975)
    } else if v == 3 {
        Ok(ChipsetProfile::Mt7988Mt7996)
    } else {
        Err(CsiParseError::UnknownChipset(v))
    }
}

/// Largest number of TX or RX chains a chipset supports.
pub open spec fn spec_max_chains(c: ChipsetProfile) -> u8 {
    match c {
        ChipsetProfile::Mt7981Mt7976 => 3,
        ChipsetProfile::Mt7986Mt7975 | ChipsetProfile::Mt7988Mt7996 => 4,
    }
}

pub open spec fn spec_chipset_name(c: ChipsetProfile) -> Seq<char> {
    match c {
        ChipsetProfile::Mt7981Mt7976 => "mt7981-mt7976"@,
        ChipsetProfile::Mt7986Mt7975 => "mt7986-mt7975"@,
        ChipsetProfile::Mt7988Mt7996 => "mt7988-mt7996"@,
    }
}

impl ChipsetProfile {
    /// The wire code.
    pub fn code(self) -> (c: u16)
        ensures
            c == chipset_code(self),
    {
        match self {
            ChipsetProfile::Mt7981Mt7976 => 1,
            ChipsetProfile::Mt7986Mt7975 => 2,
            ChipsetProfile::Mt7988Mt7996 => 3,
        }
    }

    /// The profile's name.
    pub fn name(self) -> (n: &'static str)
        ensures
            n@ == spec_chipset_name(self),
    {
        match self {
            ChipsetProfile::Mt7981Mt7976 => "mt7981-mt7976",
            ChipsetProfile::Mt7986Mt7975 => "mt7986-mt7975",
            ChipsetProfile::Mt7988Mt7996 => "mt7988-mt7996",
        }
    }

    /// Largest number of TX or RX chains the chipset supports.
    pub fn max_chains(self) -> (m: u8)
        ensures
            m == spec_max_chains(self),
    {
        match self {
            ChipsetProfile::Mt7981Mt7976 => 3,
            ChipsetProfile::Mt7986Mt7975 | ChipsetProfile::Mt7988Mt7996 => 4,
        }
    }
}

impl TryFrom<u16> for ChipsetProfile {
    type Error = CsiParseError;

    fn try_from(value: u16) -> (r: Result<Self, Self::Error>) {
        match value {
            1 => Ok(ChipsetProfile::Mt7981Mt7976),
            2 => Ok(ChipsetProfile::Mt7986Mt7975),
            3 => Ok(ChipsetProfile::Mt7988Mt7996),
            _ => Err(CsiParseError::UnknownChipset(value)),
        }
    }
}

impl vstd::std_specs::convert::TryFromSpecImpl<u16> for ChipsetProfile {
    open spec fn obeys_try_from_spec() -> bool {
        true
    }

    open spec fn try_from_spec(v: u16) -> Result<Self, Self::Error> {
        chipset_from_code(v)
    }
}

/// Encoding of the payload's elements.
#[derive(Debug, Clone, Copy, PartialEq, Eq, Structural)]
pub enum ElementFormat {
    ComplexI16,
    ComplexF32,
    Bytes,
}

pub open spec fn element_format_code(f: ElementFormat) -> u8 {
    match f {
        ElementFormat::ComplexI16 => 1,
        ElementFormat::ComplexF32 => 2,
        ElementFormat::Bytes => 3,
    }
}

pub open spec fn element_format_from_code(v: u8) -> Result<ElementFormat, CsiParseError> {
    if v == 1 {
        Ok(ElementFormat::ComplexI16)
    } else if v == 2 {
        Ok(ElementFormat::ComplexF32)
    } else if v == 3 {
        Ok(ElementFormat::Bytes)
    } else {
        Err(CsiParseError::UnknownElementFormat(v))
    }
}

impl ElementFormat {
    /// The wire code.
    pub fn code(self) -> (c: u8)
        ensures
            c == element_format_code(self),
    {
        match self {
            ElementFormat::ComplexI16 => 1,
            ElementFormat::ComplexF32 => 2,
            ElementFormat::Bytes => 3,
        }
    }
}

impl TryFrom<u8> for ElementFormat {
    type Error = CsiParseError;

    fn try_from(value: u8) -> (r: Result<Self, Self::Error>) {
        match value {
            1 => Ok(ElementFormat::ComplexI16),
            2 => Ok(ElementFormat::ComplexF32),
            3 => Ok(ElementFormat::Bytes),
            _ => Err(CsiParseError::UnknownElementFormat(value)),
        }
    }
}

impl vstd::std_specs::convert::TryFromSpecImpl<u8> for ElementFormat {
    open spec fn obeys_try_from_spec() -> bool {
        true
    }

    open spec fn try_from_spec(v: u8) -> Result<Self, Self::Error> {
        element_format_from_code(v)
    }
}

/// PPDU type of the measured transmission.
#[derive(Debug, Clone, Copy, PartialEq, Eq, Structural)]
pub enum PpduType {
    Ht,
    Vht,
    HeSu,
    HeMu,
    Eht,
}

pub open spec fn ppdu_type_code(p: PpduType) -> u8 {
    match p {
        PpduType::Ht => 1,
        PpduType::Vht => 2,
        PpduType::HeSu => 3,
        PpduType::HeMu => 4,
        PpduType::Eht => 5,
    }
}

pub open spec fn ppdu_type_from_code(v: u8) -> Result<PpduType, CsiParseError> {
    if v == 1 {
        Ok(PpduType::Ht)
    } else if v == 2 {
        Ok(PpduType::Vht)
    } else if v == 3 {
        Ok(PpduType::HeSu)
    } else if v == 4 {
        Ok(PpduType::HeMu)
    } else if v == 5 {
        Ok(PpduType::Eht)
    } else {
        Err(CsiParseError::UnknownPpduType(v))
    }
}

impl PpduType {
    /// The wire code.
    pub fn code(self) -> (c: u8)
        ensures
            c == ppdu_type_code(self),
    {
        match self {
            PpduType::Ht => 1,
            PpduType::Vht => 2,
            PpduType::HeSu => 3,
            PpduType::HeMu => 4,
            PpduType::Eht => 5,
        }
    }
}

impl TryFrom<u8> for PpduType {
    type Error = CsiParseError;

    fn try_from(value: u8) -> (r: Result<Self, Self::Error>) {
        match value {
            1 => Ok(PpduType::Ht),
            2 => Ok(PpduType::Vht),
            3 => Ok(PpduType::HeSu),
            4 => Ok(PpduType::HeMu),
            5 => Ok(PpduType::Eht),
            _ => Err(CsiParseError::UnknownPpduType(value)),
        }
    }
}

impl vstd::std_specs::convert::TryFromSpecImpl<u8> for PpduType {
    open spec fn obeys_try_from_spec() -> bool {
        true
    }

    open spec fn try_from_spec(v: u8) -> Result<Self, Self::Error> {
        ppdu_type_from_code(v)
    }
}

/// Per-frame flag bits.
#[derive(Debug, Clone, Copy, Default, PartialEq, Eq, Structural)]
pub struct CsiFlags(pub u16);

impl CsiFlags {
    pub const CALIBRATED: u16 = 1;
    pub const SATURATED: u16 = 2;
    pub const TIME_SYNCHRONIZED: u16 = 4;
    pub const DROPPED_PREDECESSOR: u16 = 8;
    pub const SYNTHETIC: u16 = 0x8000;

    /// Whether any bit of `flag` is set.
    pub fn contains(self, flag: u16) -> (r: bool)
        ensures
            r == (self.0 & flag != 0),
    {
        self.0 & flag != 0
    }
}


/// IEEE-754 binary32: a pattern is finite unless its exponent field is all ones
/// (infinities and NaNs).
pub open spec fn f32_bits_finite(b: u32) -> bool {
    b & 0x7f80_0000 != 0x7f80_0000
}

/// IEEE-754 binary32: the patterns of the finite numbers greater than zero are
/// exactly `1 ..= 0x7f7f_ffff` (sign bit clear, not zero, exponent not all ones).
pub open spec fn f32_bits_positive_finite(b: u32) -> bool {
    0 < b < 0x7f80_0000
}

/// Whether the `f32` with bit pattern `b` is finite.
pub fn f32_bits_is_finite(b: u32) -> (r: bool)
    ensures
        r == f32_bits_finite(b),
{
    b & 0x7f80_0000 != 0x7f80_0000
}

/// Samples of a frame. Complex `f32` samples are held as bit patterns.
#[allow(inconsistent_fields)]
#[derive(Debug, Clone)]
pub enum CsiPayload {
    ComplexI16 { rssi_dbm: Vec<i8>, values: Vec<[i16; 2]> },
    ComplexF32 { rssi_dbm: Vec<i8>, values: Vec<[u32; 2]> },
    Bytes(Vec<u8>),
}

/// The mathematical content of a payload.
#[allow(inconsistent_fields)]
pub enum PayloadModel {
    ComplexI16 { rssi_dbm: Seq<i8>, values: Seq<[i16; 2]> },
    ComplexF32 { rssi_dbm: Seq<i8>, values: Seq<[u32; 2]> },
    Bytes(Seq<u8>),
}

impl View for CsiPayload {
    type V = PayloadModel;

    open spec fn view(&self) -> PayloadModel {
        match self {
            CsiPayload::ComplexI16 { rssi_dbm, values } => PayloadModel::ComplexI16 {
                rssi_dbm: rssi_dbm@,
                values: values@,
            },
            CsiPayload::ComplexF32 { rssi_dbm, values } => PayloadModel::ComplexF32 {
                rssi_dbm: rssi_dbm@,
                values: values@,
            },
            CsiPayload::Bytes(v) => PayloadModel::Bytes(v@),
        }
    }
}

impl PayloadModel {
    /// Number of elements (complex samples, or bytes).
    pub open spec fn len(self) -> nat {
        match self {
            PayloadModel::ComplexI16 { values, .. } => values.len(),
            PayloadModel::ComplexF32 { values, .. } => values.len(),
            PayloadModel::Bytes(v) => v.len(),
        }
    }

    /// Per-chain RSSI; none for raw bytes.
    pub open spec fn rssi(self) -> Seq<i8> {
        match self {
            PayloadModel::ComplexI16 { rssi_dbm, .. } => rssi_dbm,
            PayloadModel::ComplexF32 { rssi_dbm, .. } => rssi_dbm,
            PayloadModel::Bytes(_) => Seq::empty(),
        }
    }

    pub open spec fn format(self) -> ElementFormat {
        match self {
            PayloadModel::ComplexI16 { .. } => ElementFormat::ComplexI16,
            PayloadModel::ComplexF32 { .. } => ElementFormat::ComplexF32,
            PayloadModel::Bytes(_) => ElementFormat::Bytes,
        }
    }

    /// Number of bytes the payload takes on the wire.
    pub open spec fn encoded_len(self) -> int {
        match self {
            PayloadModel::ComplexI16 { rssi_dbm, values } => (rssi_dbm.len() + values.len() * 4) as int,
            PayloadModel::ComplexF32 { rssi_dbm, values } => (rssi_dbm.len() + values.len() * 8) as int,
            PayloadModel::Bytes(v) => v.len() as int,
        }
    }
}

impl CsiPayload {
    /// Number of elements (complex samples, or bytes).
    pub fn len(&self) -> (n: usize)
        ensures
            n == self@.len(),
    {
        match self {
            CsiPayload::ComplexI16 { values, .. } => values.len(),
            CsiPayload::ComplexF32 { values, .. } => values.len(),
            CsiPayload::Bytes(values) => values.len(),
        }
    }

    /// Whether the payload has no elements.
    pub fn is_empty(&self) -> (b: bool)
        ensures
            b == (self@.len() == 0),
    {
        self.len() == 0
    }

    /// Per-chain RSSI in dBm; empty for raw bytes.
    pub fn rssi_dbm(&self) -> (r: &[i8])
        ensures
            r@ == self@.rssi(),
    {
        match self {
            CsiPayload::ComplexI16 { rssi_dbm, .. } => rssi_dbm.as_slice(),
            CsiPayload::ComplexF32 { rssi_dbm, .. } => rssi_dbm.as_slice(),
            CsiPayload::Bytes(_) => {
                let empty: &[i8] = &[];
                assert(empty@ =~= Seq::<i8>::empty());
                empty
            },
        }
    }

    /// The element format on the wire.
    pub fn format(&self) -> (f: ElementFormat)
        ensures
            f == self@.format(),
    {
        match self {
            CsiPayload::ComplexI16 { .. } => ElementFormat::ComplexI16,
            CsiPayload::ComplexF32 { .. } => ElementFormat::ComplexF32,
            CsiPayload::Bytes(_) => ElementFormat::Bytes,
        }
    }

    /// Number of bytes the payload takes on the wire.
    pub(crate) fn encoded_len(&self) -> (n: usize)
        requires
            self@ is Bytes || self@.encoded_len() <= usize::MAX,
        ensures
            n == self@.encoded_len(),
    {
        match self {
            CsiPayload::ComplexI16 { rssi_dbm, values } => rssi_dbm.len() + values.len() * 4,
            CsiPayload::ComplexF32 { rssi_dbm, values } => rssi_dbm.len() + values.len() * 8,
            CsiPayload::Bytes(values) => values.len(),
        }
    }
}

/// One MIMO CSI (or capabilities) report.
#[derive(Debug, Clone)]
pub struct CsiFrame {
    pub report_kind: ReportKind,
    pub sequence: u32,
    pub timestamp_us: u64,
    pub device_id: u64,
    pub chipset: ChipsetProfile,
    pub bandwidth_mhz: u16,
    pub center_freq_khz: u32,
    pub flags: CsiFlags,
    pub tx_count: u8,
    pub rx_count: u8,
    pub ppdu_type: PpduType,
    pub subcarrier_count: u16,
    pub noise_floor_dbm: i8,
    /// Bit pattern of the `f32` sample scale.
    pub scale_bits: u32,
    /// Bit pattern of the `f32` subcarrier spacing in Hz.
    pub subcarrier_spacing_hz_bits: u32,
    pub calibration_id: u32,
    pub payload: CsiPayload,
}

/// The mathematical content of a frame.
pub struct FrameModel {
    pub report_kind: ReportKind,
    pub sequence: u32,
    pub timestamp_us: u64,
    pub device_id: u64,
    pub chipset: ChipsetProfile,
    pub bandwidth_mhz: u16,
    pub center_freq_khz: u32,
    pub flags: u16,
    pub tx_count: u8,
    pub rx_count: u8,
    pub ppdu_type: PpduType,
    pub subcarrier_count: u16,
    pub noise_floor_dbm: i8,
    pub scale_bits: u32,
    pub subcarrier_spacing_hz_bits: u32,
    pub calibration_id: u32,
    pub payload: PayloadModel,
}

impl View for CsiFrame {
    type V = FrameModel;

    open spec fn view(&self) -> FrameModel {
        FrameModel {
            report_kind: self.report_kind,
            sequence: self.sequence,
            timestamp_us: self.timestamp_us,
            device_id: self.device_id,
            chipset: self.chipset,
            bandwidth_mhz: self.bandwidth_mhz,
            center_freq_khz: self.center_freq_khz,
            flags: self.flags.0,
            tx_count: self.tx_count,
            rx_count: self.rx_count,
            ppdu_type: self.ppdu_type,
            subcarrier_count: self.subcarrier_count,
            noise_floor_dbm: self.noise_floor_dbm,
            scale_bits: self.scale_bits,
            subcarrier_spacing_hz_bits: self.subcarrier_spacing_hz_bits,
            calibration_id: self.calibration_id,
            payload: self.payload@,
        }
    }
}

/// The supported channel widths.
pub open spec fn valid_bandwidth(bw: u16) -> bool {
    bw == 20 || bw == 40 || bw == 80 || bw == 160
}

/// Both parts of a complex `f32` sample are finite.
pub open spec fn sample_finite(v: [u32; 2]) -> bool {
    f32_bits_finite(v[0]) && f32_bits_finite(v[1])
}

/// Every complex `f32` sample is finite.
pub open spec fn all_samples_finite(values: Seq<[u32; 2]>) -> bool {
    forall|k: int| 0 <= k < values.len() ==> sample_finite(#[trigger] values[k])
}

impl FrameModel {
    /// Number of complex samples that the dimensions call for.
    pub open spec fn expected_elements(self) -> int {
        self.tx_count as int * self.rx_count as int * self.subcarrier_count as int
    }

    /// The check of a CSI report's sample counts.
    pub open spec fn validate_csi(self, rssi_len: nat, values_len: nat) -> Result<(), CsiParseError> {
        let expected = self.expected_elements();
        if expected == 0 || expected > MEDIATEK_CSI_MAX_ELEMENTS {
            Err(CsiParseError::InvalidDimensions)
        } else if values_len != expected || rssi_len != self.rx_count {
            Err(CsiParseError::PayloadLengthMismatch)
        } else {
            Ok(())
        }
    }

    /// Whether a frame may be encoded, and the first error when not.
    pub open spec fn validate(self) -> Result<(), CsiParseError> {
        if !valid_bandwidth(self.bandwidth_mhz) {
            Err(CsiParseError::InvalidBandwidth(self.bandwidth_mhz))
        } else if self.tx_count == 0 || self.rx_count == 0 || self.tx_count > spec_max_chains(
            self.chipset,
        ) || self.rx_count > spec_max_chains(self.chipset) {
            Err(CsiParseError::InvalidDimensions)
        } else if !f32_bits_positive_finite(self.scale_bits) || !f32_bits_positive_finite(
            self.subcarrier_spacing_hz_bits,
        ) {
            Err(CsiParseError::NonFiniteValue)
        } else {
            match (self.report_kind, self.payload) {
                (ReportKind::Csi, PayloadModel::ComplexI16 { rssi_dbm, values }) => {
                    self.validate_csi(rssi_dbm.len(), values.len())
                },
                (ReportKind::Csi, PayloadModel::ComplexF32 { rssi_dbm, values }) => {
                    if !all_samples_finite(values) {
                        Err(CsiParseError::NonFiniteValue)
                    } else {
                        self.validate_csi(rssi_dbm.len(), values.len())
                    }
                },
                (ReportKind::Capabilities, PayloadModel::Bytes(v)) => {
                    if v.len() > 0 {
                        Ok(())
                    } else {
                        Err(CsiParseError::PayloadTypeMismatch)
                    }
                },
                _ => Err(CsiParseError::PayloadTypeMismatch),
            }
        }
    }
}

/// `tx * rx * subcarriers` never exceeds `255 * 255 * 65535`.
pub proof fn lemma_element_product_bound(tx: u8, rx: u8, sc: u16)
    ensures
        0 <= tx as int * rx as int * sc as int <= 255 * 255 * 65535,
{
    assert(0 <= tx as int * rx as int <= 255 * 255) by (nonlinear_arith)
        requires
            tx <= 255,
            rx <= 255,
    ;
    assert(0 <= (tx as int * rx as int) * sc as int <= (255 * 255) * 65535) by (nonlinear_arith)
        requires
            0 <= tx as int * rx as int <= 255 * 255,
            sc <= 65535,
    ;
}

/// `tx * rx * subcarriers`, computed without overflow.
pub fn element_product(tx: u8, rx: u8, sc: u16) -> (n: u64)
    ensures
        n == tx as int * rx as int * sc as int,
{
    proof {
        lemma_element_product_bound(tx, rx, sc);
        assert(0 <= tx as int * rx as int <= 255 * 255) by (nonlinear_arith)
            requires
                tx <= 255,
                rx <= 255,
        ;
    }
    (tx as u64) * (rx as u64) * (sc as u64)
}

impl CsiFrame {
    fn validate_csi(&self, rssi_len: usize, values_len: usize) -> (r: Result<(), CsiParseError>)
        ensures
            r == self@.validate_csi(rssi_len as nat, values_len as nat),
    {
        let expected = element_product(self.tx_count, self.rx_count, self.subcarrier_count);
        if expected == 0 || expected > MEDIATEK_CSI_MAX_ELEMENTS as u64 {
            return Err(CsiParseError::InvalidDimensions);
        }
        if values_len as u64 != expected || rssi_len != self.rx_count as usize {
            return Err(CsiParseError::PayloadLengthMismatch);
        }
        Ok(())
    }

    /// Checks that the frame may be encoded; the first failing rule gives the error.
    #[verifier::loop_isolation(false)]
    pub fn validate(&self) -> (r: Result<(), CsiParseError>)
        ensures
            r == self@.validate(),
    {
        let bw = self.bandwidth_mhz;
        if !(bw == 20 || bw == 40 || bw == 80 || bw == 160) {
            return Err(CsiParseError::InvalidBandwidth(self.bandwidth_mhz));
        }
        let max = self.chipset.max_chains();
        if self.tx_count == 0 || self.rx_count == 0 || self.tx_count > max || self.rx_count > max {
            return Err(CsiParseError::InvalidDimensions);
        }
        if !(0 < self.scale_bits && self.scale_bits < 0x7f80_0000) || !(0
            < self.subcarrier_spacing_hz_bits && self.subcarrier_spacing_hz_bits < 0x7f80_0000) {
            return Err(CsiParseError::NonFiniteValue);
        }
        match (&self.report_kind, &self.payload) {
            (ReportKind::Csi, CsiPayload::ComplexI16 { rssi_dbm, values }) => {
                self.validate_csi(rssi_dbm.len(), values.len())
            },
            (ReportKind::Csi, CsiPayload::ComplexF32 { rssi_dbm, values }) => {
                let n = values.len();
                let mut k: usize = 0;
                while k < n
                    invariant
                        n == values@.len(),
                        k <= n,
                        forall|j: int| 0 <= j < k ==> sample_finite(#[trigger] values@[j]),
                    decreases n - k,
                {
                    let v = values[k];
                    if !f32_bits_is_finite(v[0]) || !f32_bits_is_finite(v[1]) {
                        assert(!sample_finite(values@[k as int]));
                        return Err(CsiParseError::NonFiniteValue);
                    }
                    assert(sample_finite(values@[k as int]));
                    k = k + 1;
                }
                self.validate_csi(rssi_dbm.len(), values.len())
            },
            (ReportKind::Capabilities, CsiPayload::Bytes(v)) => {
                if v.len() > 0 {
                    Ok(())
                } else {
                    Err(CsiParseError::PayloadTypeMismatch)
                }
            },
            _ => Err(CsiParseError::PayloadTypeMismatch),
        }
    }
}

} // verus!
