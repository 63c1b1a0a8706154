//! Deterministic MediaTek CSI simulator: the frames it emits, its sequence and
//! clock, and the pseudo-random noise it mixes into the samples.
//!
//! The sample waveform itself is trigonometry on `f32` and is computed by the
//! caller from `noise` and the configuration; everything else is here.
use vstd::prelude::*;
use crate::codec::spec_to_bytes;
use vstd::arithmetic::div_mod::{lemma_add_mod_noop, lemma_mod_self_0, lemma_mod_sub_multiples_vanish, lemma_small_mod};
use crate::mediatek_csi::{
    element_product, lemma_element_product_bound, spec_max_chains, valid_bandwidth, ChipsetProfile,
    CsiFlags, CsiFrame, CsiParseError, CsiPayload, FrameModel, PayloadModel, PpduType, ReportKind,
    MEDIATEK_CSI_MAX_ELEMENTS, MEDIATEK_CSI_MAX_FRAME_LEN,
};

verus! {

/// Bit pattern of the `f32` `1.0 / 2048.0`, the scale of simulated samples.
pub const SIMULATED_SCALE_BITS: u32 = 0x3a00_0000;

/// Bit pattern of the `f32` `312_500.0`, the simulated subcarrier spacing in Hz.
pub const SIMULATED_SPACING_BITS: u32 = 0x4898_9680;

/// Settings of a simulated radio.
#[derive(Debug, Clone, Copy, PartialEq, Eq, Structural)]
pub struct SimulatorConfig {
    pub seed: u64,
    pub device_id: u64,
    pub chipset: ChipsetProfile,
    pub bandwidth_mhz: u16,
    pub center_freq_khz: u32,
    pub tx_count: u8,
    pub rx_count: u8,
    pub subcarriers: u16,
    pub frame_period_us: u64,
}

impl Default for SimulatorConfig {
    fn default() -> (c: Self)
        ensures
            c == (SimulatorConfig {
                seed: 0x4d54_4b43_5349_0001,
                device_id: 0x4f57_5254_4d54_4b31,
                chipset: ChipsetProfile::Mt7981Mt7976,
                bandwidth_mhz: 80,
                center_freq_khz: 5_210_000,
                tx_count: 2,
                rx_count: 3,
                subcarriers: 256,
                frame_period_us: 20_000,
            }),
    {
        SimulatorConfig {
            seed: 0x4d54_4b43_5349_0001,
            device_id: 0x4f57_5254_4d54_4b31,
            chipset: ChipsetProfile::Mt7981Mt7976,
            bandwidth_mhz: 80,
            center_freq_khz: 5_210_000,
            tx_count: 2,
            rx_count: 3,
            subcarriers: 256,
            frame_period_us: 20_000,
        }
    }
}

/// Number of complex samples in each simulated CSI frame.
pub open spec fn config_elements(c: SimulatorConfig) -> int {
    c.tx_count as int * c.rx_count as int * c.subcarriers as int
}

/// Simulated per-chain RSSI: -42 dBm, falling by 2 dBm per chain (wrapping as `i8`).
pub open spec fn simulated_rssi(rx_count: u8) -> Seq<i8> {
    Seq::new(rx_count as nat, |i: int| (-42 - 2 * i) as i8)
}

/// The fields that every simulated frame shares.
pub open spec fn base_frame(
    c: SimulatorConfig,
    kind: ReportKind,
    sequence: u32,
    timestamp_us: u64,
    payload: PayloadModel,
) -> FrameModel {
    FrameModel {
        report_kind: kind,
        sequence,
        timestamp_us,
        device_id: c.device_id,
        chipset: c.chipset,
        bandwidth_mhz: c.bandwidth_mhz,
        center_freq_khz: c.center_freq_khz,
        flags: (CsiFlags::CALIBRATED | CsiFlags::SYNTHETIC) as u16,
        tx_count: c.tx_count,
        rx_count: c.rx_count,
        ppdu_type: PpduType::HeSu,
        subcarrier_count: c.subcarriers,
        noise_floor_dbm: -95i8,
        scale_bits: SIMULATED_SCALE_BITS,
        subcarrier_spacing_hz_bits: SIMULATED_SPACING_BITS,
        calibration_id: 1,
        payload,
    }
}

/// The simulated CSI frame carrying `values`.
pub open spec fn csi_frame_model(
    c: SimulatorConfig,
    sequence: u32,
    timestamp_us: u64,
    values: Seq<[i16; 2]>,
) -> FrameModel {
    base_frame(
        c,
        ReportKind::Csi,
        sequence,
        timestamp_us,
        PayloadModel::ComplexI16 { rssi_dbm: simulated_rssi(c.rx_count), values },
    )
}

/// The ten capability bytes: versions, chain limit, feature bits, and the
/// subcarrier count (little-endian).
pub open spec fn capability_bytes(c: SimulatorConfig) -> Seq<u8> {
    seq![
        1u8,
        1u8,
        spec_max_chains(c.chipset),
        2u8,
        1u8,
        0x0fu8,
        3u8,
        2u8,
        (c.subcarriers & 255) as u8,
        (c.subcarriers >> 8) as u8,
    ]
}

/// The simulated capabilities frame.
pub open spec fn capabilities_frame_model(c: SimulatorConfig, sequence: u32, timestamp_us: u64) -> FrameModel {
    base_frame(
        c,
        ReportKind::Capabilities,
        sequence,
        timestamp_us,
        PayloadModel::Bytes(capability_bytes(c)),
    )
}

/// The capabilities report of a configuration: protocol and capability versions 1
/// and 1, the chipset's chain limit (3 for MT7981, 4 for MT7986 and MT7988), then
/// 2, 1, 0x0f, 3, 2, and the subcarrier count, least significant byte first. The
/// chain limit is the largest TX or RX chain count that a configuration of the
/// chipset may have.
pub proof fn law_capability_bytes(c: SimulatorConfig)
    ensures
        capability_bytes(c).len() == 10,
        capability_bytes(c)[0] == 1,
        capability_bytes(c)[1] == 1,
        capability_bytes(c)[2] == (if c.chipset == ChipsetProfile::Mt7981Mt7976 {
            3u8
        } else {
            4u8
        }),
        capability_bytes(c)[3] == 2,
        capability_bytes(c)[4] == 1,
        capability_bytes(c)[5] == 0x0f,
        capability_bytes(c)[6] == 3,
        capability_bytes(c)[7] == 2,
        capability_bytes(c)[8] + 256 * capability_bytes(c)[9] == c.subcarriers,
        config_check(c) is Ok ==> c.tx_count <= capability_bytes(c)[2] && c.rx_count
            <= capability_bytes(c)[2],
        c.tx_count > capability_bytes(c)[2] || c.rx_count > capability_bytes(c)[2] ==> config_check(
            c,
        ) is Err,
        capabilities_frame_model(c, 0, 0).payload == PayloadModel::Bytes(capability_bytes(c)),
{
    let sc = c.subcarriers;
    assert(((sc & 255) as u8) as int + 256 * ((sc >> 8) as u8) as int == sc) by (bit_vector);
}

/// The channel widths and chain limits of a configuration: it is refused for its
/// bandwidth exactly when that is not 20, 40, 80 or 160 MHz, and one with such a
/// bandwidth, 1 to 3 chains (MT7981) or 1 to 4 (MT7986, MT7988) each way, and
/// 1 to 16384 samples per frame is accepted.
pub proof fn law_config_limits(c: SimulatorConfig)
    ensures
        (config_check(c) matches Err(CsiParseError::InvalidBandwidth(_))) <==> !(c.bandwidth_mhz
            == 20 || c.bandwidth_mhz == 40 || c.bandwidth_mhz == 80 || c.bandwidth_mhz == 160),
        ({
            let limit: u8 = if c.chipset == ChipsetProfile::Mt7981Mt7976 {
                3
            } else {
                4
            };
            (c.bandwidth_mhz == 20 || c.bandwidth_mhz == 40 || c.bandwidth_mhz == 80
                || c.bandwidth_mhz == 160) && 1 <= c.tx_count <= limit && 1 <= c.rx_count <= limit
                && 1 <= c.tx_count as int * c.rx_count as int * c.subcarriers as int <= 16384
                ==> config_check(c) is Ok
        }),
{
}

/// Every simulated frame carries the configured device, chipset, radio settings and
/// dimensions, the calibrated and synthetic flags (and no other), an HE-SU PPDU,
/// a noise floor of -95 dBm, a sample scale of 1/2048 (bits 0x3a000000), a
/// subcarrier spacing of 312500 Hz (bits 0x48989680) and calibration 1; a CSI
/// frame reports -42 dBm on its first receive chain, 2 dBm less on each next one
/// (down to the 44th chain, where `i8` reaches its least value).
pub proof fn law_simulated_frame_fields(
    c: SimulatorConfig,
    sequence: u32,
    timestamp_us: u64,
    values: Seq<[i16; 2]>,
    i: int,
)
    ensures
        ({
            let f = csi_frame_model(c, sequence, timestamp_us, values);
            let g = capabilities_frame_model(c, sequence, timestamp_us);
            &&& f.report_kind == ReportKind::Csi
            &&& g.report_kind == ReportKind::Capabilities
            &&& f.device_id == c.device_id && g.device_id == c.device_id
            &&& f.chipset == c.chipset && g.chipset == c.chipset
            &&& f.bandwidth_mhz == c.bandwidth_mhz && f.center_freq_khz == c.center_freq_khz
            &&& f.tx_count == c.tx_count && f.rx_count == c.rx_count
            &&& f.subcarrier_count == c.subcarriers
            &&& f.flags == 0x8001 && g.flags == 0x8001
            &&& f.ppdu_type == PpduType::HeSu && g.ppdu_type == PpduType::HeSu
            &&& f.noise_floor_dbm == -95 && g.noise_floor_dbm == -95
            &&& f.scale_bits == 0x3a00_0000 && g.scale_bits == 0x3a00_0000
            &&& f.subcarrier_spacing_hz_bits == 0x4898_9680
            &&& g.subcarrier_spacing_hz_bits == 0x4898_9680
            &&& f.calibration_id == 1 && g.calibration_id == 1
            &&& f.payload.rssi().len() == c.rx_count
            &&& (0 <= i < c.rx_count && i <= 43 ==> f.payload.rssi()[i] == -42 - 2 * i)
        }),
{
    assert((CsiFlags::CALIBRATED | CsiFlags::SYNTHETIC) as u16 == 0x8001u16) by (bit_vector);
}

/// Whether a configuration yields valid frames, and the first error when not:
/// the validation of its CSI frame, which depends only on the configuration.
pub open spec fn config_check(c: SimulatorConfig) -> Result<(), CsiParseError> {
    if !valid_bandwidth(c.bandwidth_mhz) {
        Err(CsiParseError::InvalidBandwidth(c.bandwidth_mhz))
    } else if c.tx_count == 0 || c.rx_count == 0 || c.tx_count > spec_max_chains(c.chipset)
        || c.rx_count > spec_max_chains(c.chipset) {
        Err(CsiParseError::InvalidDimensions)
    } else if config_elements(c) == 0 || config_elements(c) > MEDIATEK_CSI_MAX_ELEMENTS {
        Err(CsiParseError::InvalidDimensions)
    } else {
        Ok(())
    }
}

/// A simulated CSI frame validates exactly as its configuration does, whatever
/// the samples, as long as there are as many as the dimensions call for.
pub proof fn lemma_csi_frame_validation(
    c: SimulatorConfig,
    sequence: u32,
    timestamp_us: u64,
    values: Seq<[i16; 2]>,
)
    requires
        values.len() == config_elements(c),
    ensures
        csi_frame_model(c, sequence, timestamp_us, values).validate() == config_check(c),
{
}

/// Simulated capabilities frames of a valid configuration always encode.
pub proof fn law_capabilities_frames_encode(c: SimulatorConfig, sequence: u32, timestamp_us: u64)
    requires
        config_check(c) is Ok,
    ensures
        spec_to_bytes(capabilities_frame_model(c, sequence, timestamp_us)) is Ok,
{
}

/// Simulated CSI frames of a valid configuration encode exactly when the frame
/// (header, one RSSI byte per RX chain, four bytes per sample, CRC) fits in
/// `MEDIATEK_CSI_MAX_FRAME_LEN` bytes.
pub proof fn law_csi_frames_encode(
    c: SimulatorConfig,
    sequence: u32,
    timestamp_us: u64,
    values: Seq<[i16; 2]>,
)
    requires
        config_check(c) is Ok,
        values.len() == config_elements(c),
    ensures
        spec_to_bytes(csi_frame_model(c, sequence, timestamp_us, values)) is Ok <==> 72
            + c.rx_count + 4 * config_elements(c) + 4 <= MEDIATEK_CSI_MAX_FRAME_LEN,
{
    lemma_csi_frame_validation(c, sequence, timestamp_us, values);
}

/// xorshift64 step (13, 7, 17).
pub open spec fn xorshift(x: u64) -> u64 {
    let a = x ^ (x << 13u64);
    let b = a ^ (a >> 7u64);
    b ^ (b << 17u64)
}

/// The generator state after `n` steps from `x`.
pub open spec fn xorshift_iter(x: u64, n: nat) -> u64
    decreases n,
{
    if n == 0 {
        x
    } else {
        xorshift(xorshift_iter(x, (n - 1) as nat))
    }
}

/// The remainder of Rust's `%` on signed integers (it takes the sign of `a`).
pub open spec fn trunc_rem(a: int, m: int) -> int {
    if a >= 0 {
        a % m
    } else {
        -((-a) % m)
    }
}

/// The noise added to sample `k`: the top 16 bits of the generator state after
/// `k + 1` steps, read as an `i16`, remainder 24.
pub open spec fn noise_at(start: u64, k: int) -> i16 {
    trunc_rem(((xorshift_iter(start, (k + 1) as nat) >> 48u64) as u16) as i16 as int, 24) as i16
}

/// The abstract state of a simulator.
pub struct SimulatorState {
    pub config: SimulatorConfig,
    pub rng: u64,
    pub sequence: u32,
    pub timestamp_us: u64,
}

/// The state after one CSI frame: the sequence number advances by one and the
/// clock by one frame period, both wrapping.
pub open spec fn after_frame(s: SimulatorState) -> SimulatorState {
    SimulatorState {
        sequence: s.sequence.wrapping_add(1),
        timestamp_us: s.timestamp_us.wrapping_add(s.config.frame_period_us),
        ..s
    }
}

/// The state after `k` CSI frames.
pub open spec fn after_frames(s: SimulatorState, k: nat) -> SimulatorState
    decreases k,
{
    if k == 0 {
        s
    } else {
        after_frame(after_frames(s, (k - 1) as nat))
    }
}

/// After `k` CSI frames from a fresh simulator, the sequence number is `k` and the
/// clock is `k` frame periods, both wrapping; the next CSI frame carries them, the
/// configured device identifier and the synthetic and calibrated flags.
pub proof fn law_frames_count_and_clock(s: SimulatorState, k: nat, values: Seq<[i16; 2]>)
    requires
        s.sequence == 0,
        s.timestamp_us == 0,
    ensures
        after_frames(s, k).config == s.config,
        after_frames(s, k).rng == s.rng,
        after_frames(s, k).sequence == k % 0x1_0000_0000,
        after_frames(s, k).timestamp_us == (k * s.config.frame_period_us) % 0x1_0000_0000_0000_0000,
        ({
            let t = after_frames(s, k);
            let f = csi_frame_model(s.config, t.sequence, t.timestamp_us, values);
            &&& f.report_kind == ReportKind::Csi
            &&& f.sequence == k % 0x1_0000_0000
            &&& f.timestamp_us == (k * s.config.frame_period_us) % 0x1_0000_0000_0000_0000
            &&& f.device_id == s.config.device_id
            &&& f.flags & CsiFlags::SYNTHETIC != 0
            &&& f.flags & CsiFlags::CALIBRATED != 0
        }),
    decreases k,
{
    let p = s.config.frame_period_us as int;
    if k > 0 {
        law_frames_count_and_clock(s, (k - 1) as nat, values);
        let prev = after_frames(s, (k - 1) as nat);
        lemma_add_mod_noop((k - 1) as int, 1, 0x1_0000_0000);
        lemma_small_mod(1, 0x1_0000_0000);
        if prev.sequence + 1 < 0x1_0000_0000 {
            lemma_small_mod((prev.sequence + 1) as nat, 0x1_0000_0000);
        } else {
            lemma_mod_self_0(0x1_0000_0000);
        }
        assert((k - 1) * p + p == k * p) by (nonlinear_arith);
        lemma_add_mod_noop((k - 1) * p, p, 0x1_0000_0000_0000_0000);
        lemma_small_mod(p as nat, 0x1_0000_0000_0000_0000);
        if prev.timestamp_us + p < 0x1_0000_0000_0000_0000 {
            lemma_small_mod((prev.timestamp_us + p) as nat, 0x1_0000_0000_0000_0000);
        } else {
            lemma_mod_sub_multiples_vanish(prev.timestamp_us + p, 0x1_0000_0000_0000_0000);
            lemma_small_mod((prev.timestamp_us + p - 0x1_0000_0000_0000_0000) as nat, 0x1_0000_0000_0000_0000);
        }
    }
    let flags: u16 = (CsiFlags::CALIBRATED | CsiFlags::SYNTHETIC) as u16;
    assert(flags & CsiFlags::SYNTHETIC != 0 && flags & CsiFlags::CALIBRATED != 0) by (bit_vector)
        requires
            flags == (CsiFlags::CALIBRATED | CsiFlags::SYNTHETIC) as u16,
    ;
}

/// Emits synthetic frames for a configuration that is known to validate.
pub struct MediatekCsiSimulator {
    config: SimulatorConfig,
    rng: u64,
    sequence: u32,
    timestamp_us: u64,
}

impl View for MediatekCsiSimulator {
    type V = SimulatorState;

    closed spec fn view(&self) -> SimulatorState {
        SimulatorState {
            config: self.config,
            rng: self.rng,
            sequence: self.sequence,
            timestamp_us: self.timestamp_us,
        }
    }
}

impl MediatekCsiSimulator {
    #[verifier::type_invariant]
    spec fn config_is_valid(self) -> bool {
        config_check(self.config) is Ok
    }

    /// Checks the configuration the way validating its CSI frame would.
    pub fn check_config(config: &SimulatorConfig) -> (r: Result<(), CsiParseError>)
        ensures
            r == config_check(*config),
    {
        let bw = config.bandwidth_mhz;
        if !(bw == 20 || bw == 40 || bw == 80 || bw == 160) {
            return Err(CsiParseError::InvalidBandwidth(bw));
        }
        let max = config.chipset.max_chains();
        if config.tx_count == 0 || config.rx_count == 0 || config.tx_count > max || config.rx_count
            > max {
            return Err(CsiParseError::InvalidDimensions);
        }
        let n = element_product(config.tx_count, config.rx_count, config.subcarriers);
        if n == 0 || n > MEDIATEK_CSI_MAX_ELEMENTS as u64 {
            return Err(CsiParseError::InvalidDimensions);
        }
        Ok(())
    }

    /// A simulator at sequence 0 and time 0, or the error that validating its
    /// CSI frame would give.
    pub fn new(config: SimulatorConfig) -> (r: Result<Self, CsiParseError>)
        ensures
            match r {
                Ok(s) => config_check(config) is Ok && s@ == (SimulatorState {
                    config,
                    rng: config.seed,
                    sequence: 0,
                    timestamp_us: 0,
                }),
                Err(e) => config_check(config) == Err::<(), CsiParseError>(e),
            },
    {
        Self::check_config(&config)?;
        Ok(MediatekCsiSimulator { rng: config.seed, config, sequence: 0, timestamp_us: 0 })
    }

    /// The configuration.
    pub fn config(&self) -> (c: &SimulatorConfig)
        ensures
            *c == self@.config,
            config_check(*c) is Ok,
    {
        proof {
            use_type_invariant(self);
        }
        &self.config
    }

    /// The sequence number of the next frame.
    pub fn sequence(&self) -> (s: u32)
        ensures
            s == self@.sequence,
    {
        self.sequence
    }

    /// The timestamp of the next frame, in microseconds.
    pub fn timestamp_us(&self) -> (t: u64)
        ensures
            t == self@.timestamp_us,
    {
        self.timestamp_us
    }

    /// Number of complex samples in each CSI frame.
    pub fn element_count(&self) -> (n: usize)
        ensures
            n == config_elements(self@.config),
            0 < n <= MEDIATEK_CSI_MAX_ELEMENTS,
    {
        proof {
            use_type_invariant(self);
        }
        element_product(self.config.tx_count, self.config.rx_count, self.config.subcarriers) as usize
    }

    /// The noise for each sample of the next CSI frame, from the generator
    /// seeded with `seed ^ sequence`.
    pub fn noise(&self) -> (v: Vec<i16>)
        ensures
            v@.len() == config_elements(self@.config),
            forall|k: int|
                0 <= k < v@.len() ==> #[trigger] v@[k] == noise_at(
                    self@.rng ^ (self@.sequence as u64),
                    k,
                ),
    {
        let count = self.element_count();
        let start = self.rng ^ (self.sequence as u64);
        let mut rng = start;
        let mut v: Vec<i16> = Vec::new();
        let mut k: usize = 0;
        while k < count
            invariant
                k <= count,
                count == config_elements(self@.config),
                start == self@.rng ^ (self@.sequence as u64),
                rng == xorshift_iter(start, k as nat),
                v@.len() == k,
                forall|j: int| 0 <= j < k ==> #[trigger] v@[j] == noise_at(start, j),
            decreases count - k,
        {
            rng = rng ^ (rng << 13u64);
            rng = rng ^ (rng >> 7u64);
            rng = rng ^ (rng << 17u64);
            let h = #[verifier::truncate] ((rng >> 48u64) as u16);
            let signed = #[verifier::truncate] (h as i16);
            let n: i16 = if signed >= 0 {
                signed % 24
            } else {
                -((-(signed as i32)) % 24) as i16
            };
            v.push(n);
            k = k + 1;
        }
        v
    }

    fn base(&self, kind: ReportKind, payload: CsiPayload) -> (f: CsiFrame)
        ensures
            f@ == base_frame(self@.config, kind, self@.sequence, self@.timestamp_us, payload@),
    {
        CsiFrame {
            report_kind: kind,
            sequence: self.sequence,
            timestamp_us: self.timestamp_us,
            device_id: self.config.device_id,
            chipset: self.config.chipset,
            bandwidth_mhz: self.config.bandwidth_mhz,
            center_freq_khz: self.config.center_freq_khz,
            flags: CsiFlags(CsiFlags::CALIBRATED | CsiFlags::SYNTHETIC),
            tx_count: self.config.tx_count,
            rx_count: self.config.rx_count,
            ppdu_type: PpduType::HeSu,
            subcarrier_count: self.config.subcarriers,
            noise_floor_dbm: -95,
            scale_bits: SIMULATED_SCALE_BITS,
            subcarrier_spacing_hz_bits: SIMULATED_SPACING_BITS,
            calibration_id: 1,
            payload,
        }
    }

    fn rssi(&self) -> (r: Vec<i8>)
        ensures
            r@ == simulated_rssi(self@.config.rx_count),
    {
        proof {
            use_type_invariant(self);
        }
        let n = self.config.rx_count;
        let mut r: Vec<i8> = Vec::new();
        let mut i: u8 = 0;
        while i < n
            invariant
                i <= n,
                n == self@.config.rx_count,
                n <= 4,
                r@ =~= simulated_rssi(n).take(i as int),
            decreases n - i,
        {
            r.push((-42i16 - 2 * (i as i16)) as i8);
            i = i + 1;
        }
        assert(simulated_rssi(n).take(n as int) =~= simulated_rssi(n));
        r
    }

    /// The capabilities report for the current sequence number and time.
    pub fn capabilities_frame(&self) -> (f: CsiFrame)
        ensures
            f@ == capabilities_frame_model(self@.config, self@.sequence, self@.timestamp_us),
            f@.validate() is Ok,
    {
        proof {
            use_type_invariant(self);
        }
        let sc = self.config.subcarriers;
        let mut bytes: Vec<u8> = Vec::new();
        bytes.push(1);
        bytes.push(1);
        bytes.push(self.config.chipset.max_chains());
        bytes.push(2);
        bytes.push(1);
        bytes.push(0x0f);
        bytes.push(3);
        bytes.push(2);
        bytes.push((sc & 255) as u8);
        bytes.push((sc >> 8) as u8);
        assert(bytes@ =~= capability_bytes(self@.config));
        self.base(ReportKind::Capabilities, CsiPayload::Bytes(bytes))
    }

    /// The CSI report carrying `values` for the current sequence number and time;
    /// afterwards the sequence number advances by one and the clock by one frame
    /// period, both wrapping.
    pub fn next_frame(&mut self, values: Vec<[i16; 2]>) -> (f: CsiFrame)
        requires
            values@.len() == config_elements(old(self)@.config),
        ensures
            f@ == csi_frame_model(
                old(self)@.config,
                old(self)@.sequence,
                old(self)@.timestamp_us,
                values@,
            ),
            f@.validate() is Ok,
            final(self)@ == after_frame(old(self)@),
    {
        proof {
            use_type_invariant(&*self);
            lemma_csi_frame_validation(self.config, self.sequence, self.timestamp_us, values@);
        }
        let rssi_dbm = self.rssi();
        let frame = self.base(ReportKind::Csi, CsiPayload::ComplexI16 { rssi_dbm, values });
        self.sequence = self.sequence.wrapping_add(1);
        self.timestamp_us = self.timestamp_us.wrapping_add(self.config.frame_period_us);
        frame
    }
}

} // verus!
