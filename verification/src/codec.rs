//! The wire format: a 72-byte little-endian header, the payload, and a CRC-32 trailer.
//!
//! Header layout (byte offsets): 0 magic `u32`, 4 version, 5 report kind,
//! 6 header length `u16`, 8 frame length `u32`, 12 sequence `u32`,
//! 16 timestamp `u64`, 24 device id `u64`, 32 chipset `u16`, 34 bandwidth `u16`,
//! 36 centre frequency `u32`, 40 flags `u16`, 42 TX chains, 43 RX chains,
//! 44 element format, 45 PPDU type, 46 subcarriers `u16`, 48 RSSI count,
//! 49 noise floor, 50 reserved `u16`, 52 scale `f32`, 56 subcarrier spacing `f32`,
//! 60 calibration id `u32`, 64 payload length `u32`, 68 reserved `u32`.
use vstd::prelude::*;
use vstd::bytes::*;
use crate::mediatek_csi::{
    all_samples_finite, chipset_code, chipset_from_code, element_format_code,
    element_format_from_code, element_product, f32_bits_is_finite, lemma_element_product_bound,
    ppdu_type_code, ppdu_type_from_code, report_kind_code, report_kind_from_code, sample_finite,
    ChipsetProfile, CsiFlags, CsiFrame, CsiParseError, CsiPayload, ElementFormat, FrameModel,
    PayloadModel, PpduType, ReportKind, MEDIATEK_CSI_CRC_LEN, MEDIATEK_CSI_HEADER_LEN,
    MEDIATEK_CSI_MAGIC, MEDIATEK_CSI_MAX_ELEMENTS, MEDIATEK_CSI_MAX_FRAME_LEN, MEDIATEK_CSI_VERSION,
};
use crate::wire::{
    crc32_ieee, f32_bits_at, le_u16_at, le_u32_at, le_u64_at, spec_crc32_ieee, u16_at, u32_at, u64_at,
};

verus! {

/// Little-endian bytes of a `u16`.
pub open spec fn le16(x: u16) -> Seq<u8> {
    spec_u16_to_le_bytes(x)
}

/// Little-endian bytes of a `u32`.
pub open spec fn le32(x: u32) -> Seq<u8> {
    spec_u32_to_le_bytes(x)
}

/// Little-endian bytes of a `u64`.
pub open spec fn le64(x: u64) -> Seq<u8> {
    spec_u64_to_le_bytes(x)
}

/// The 72 header bytes of `f`, given the frame and payload lengths that they announce.
pub open spec fn header_bytes(f: FrameModel, frame_len: u32, payload_len: u32) -> Seq<u8> {
    let a = le32(MEDIATEK_CSI_MAGIC).push(MEDIATEK_CSI_VERSION).push(
        report_kind_code(f.report_kind),
    );
    let b = a + le16(72) + le32(frame_len) + le32(f.sequence) + le64(f.timestamp_us) + le64(
        f.device_id,
    ) + le16(chipset_code(f.chipset)) + le16(f.bandwidth_mhz) + le32(f.center_freq_khz) + le16(
        f.flags,
    );
    let c = b.push(f.tx_count).push(f.rx_count).push(element_format_code(f.payload.format())).push(
        ppdu_type_code(f.ppdu_type),
    ) + le16(f.subcarrier_count);
    let d = c.push(f.payload.rssi().len() as u8).push(f.noise_floor_dbm as u8);
    d + le16(0) + le32(f.scale_bits) + le32(f.subcarrier_spacing_hz_bits) + le32(f.calibration_id)
        + le32(payload_len) + le32(0)
}

/// RSSI values as their two's-complement bytes.
pub open spec fn rssi_bytes(r: Seq<i8>) -> Seq<u8> {
    r.map_values(|v: i8| v as u8)
}

/// Complex `i16` samples, each as I then Q, little-endian.
pub open spec fn i16_samples_bytes(v: Seq<[i16; 2]>) -> Seq<u8>
    decreases v.len(),
{
    if v.len() == 0 {
        Seq::empty()
    } else {
        i16_samples_bytes(v.drop_last()) + le16(v.last()[0] as u16) + le16(v.last()[1] as u16)
    }
}

/// Complex `f32` samples, each as the bit patterns of I then Q, little-endian.
pub open spec fn f32_samples_bytes(v: Seq<[u32; 2]>) -> Seq<u8>
    decreases v.len(),
{
    if v.len() == 0 {
        Seq::empty()
    } else {
        f32_samples_bytes(v.drop_last()) + le32(v.last()[0]) + le32(v.last()[1])
    }
}

/// The payload bytes on the wire.
pub open spec fn payload_bytes(p: PayloadModel) -> Seq<u8> {
    match p {
        PayloadModel::ComplexI16 { rssi_dbm, values } => rssi_bytes(rssi_dbm) + i16_samples_bytes(
            values,
        ),
        PayloadModel::ComplexF32 { rssi_dbm, values } => rssi_bytes(rssi_dbm) + f32_samples_bytes(
            values,
        ),
        PayloadModel::Bytes(v) => v,
    }
}

/// Total length of the encoded frame.
pub open spec fn encoded_frame_len(f: FrameModel) -> int {
    MEDIATEK_CSI_HEADER_LEN + f.payload.encoded_len() + MEDIATEK_CSI_CRC_LEN
}

/// Everything the CRC covers: header and payload.
pub open spec fn frame_body(f: FrameModel) -> Seq<u8> {
    header_bytes(f, encoded_frame_len(f) as u32, f.payload.encoded_len() as u32) + payload_bytes(
        f.payload,
    )
}

/// The complete frame: body, then the CRC-32 of the body.
pub open spec fn encode_frame(f: FrameModel) -> Seq<u8> {
    frame_body(f) + le32(spec_crc32_ieee(frame_body(f)))
}

/// What encoding `f` gives: the first validation error, an error for an
/// oversized frame, or the bytes.
pub open spec fn spec_to_bytes(f: FrameModel) -> Result<Seq<u8>, CsiParseError> {
    match f.validate() {
        Err(e) => Err(e),
        Ok(_) => {
            let frame_len = encoded_frame_len(f);
            if frame_len > usize::MAX {
                Err(CsiParseError::LengthOverflow)
            } else if frame_len > MEDIATEK_CSI_MAX_FRAME_LEN {
                Err(CsiParseError::FrameTooLarge(frame_len as usize))
            } else {
                Ok(encode_frame(f))
            }
        },
    }
}

fn put_u16(out: &mut Vec<u8>, x: u16)
    ensures
        final(out)@ == old(out)@ + le16(x),
{
    let mut b = u16_to_le_bytes(x);
    out.append(&mut b);
}

fn put_u32(out: &mut Vec<u8>, x: u32)
    ensures
        final(out)@ == old(out)@ + le32(x),
{
    let mut b = u32_to_le_bytes(x);
    out.append(&mut b);
}

fn put_u64(out: &mut Vec<u8>, x: u64)
    ensures
        final(out)@ == old(out)@ + le64(x),
{
    let mut b = u64_to_le_bytes(x);
    out.append(&mut b);
}

fn put_rssi(out: &mut Vec<u8>, rssi: &Vec<i8>)
    ensures
        final(out)@ == old(out)@ + rssi_bytes(rssi@),
{
    let ghost start = out@;
    let n = rssi.len();
    let mut k: usize = 0;
    while k < n
        invariant
            n == rssi@.len(),
            k <= n,
            out@ == start + rssi_bytes(rssi@.take(k as int)),
        decreases n - k,
    {
        out.push(rssi[k] as u8);
        assert(rssi_bytes(rssi@.take(k + 1)) =~= rssi_bytes(rssi@.take(k as int)).push(
            rssi@[k as int] as u8,
        ));
        k = k + 1;
    }
    assert(rssi@.take(n as int) =~= rssi@);
}

fn put_i16_samples(out: &mut Vec<u8>, values: &Vec<[i16; 2]>)
    ensures
        final(out)@ == old(out)@ + i16_samples_bytes(values@),
{
    let ghost start = out@;
    let n = values.len();
    let mut k: usize = 0;
    assert(values@.take(0) =~= Seq::<[i16; 2]>::empty());
    assert(start + Seq::<u8>::empty() =~= start);
    while k < n
        invariant
            n == values@.len(),
            k <= n,
            out@ == start + i16_samples_bytes(values@.take(k as int)),
        decreases n - k,
    {
        let v = values[k];
        put_u16(out, v[0] as u16);
        put_u16(out, v[1] as u16);
        let ghost t = values@.take(k + 1);
        assert(t.drop_last() =~= values@.take(k as int));
        assert(out@ =~= start + i16_samples_bytes(t));
        k = k + 1;
    }
    assert(values@.take(n as int) =~= values@);
}

fn put_f32_samples(out: &mut Vec<u8>, values: &Vec<[u32; 2]>)
    ensures
        final(out)@ == old(out)@ + f32_samples_bytes(values@),
{
    let ghost start = out@;
    let n = values.len();
    let mut k: usize = 0;
    assert(values@.take(0) =~= Seq::<[u32; 2]>::empty());
    assert(start + Seq::<u8>::empty() =~= start);
    while k < n
        invariant
            n == values@.len(),
            k <= n,
            out@ == start + f32_samples_bytes(values@.take(k as int)),
        decreases n - k,
    {
        let v = values[k];
        put_u32(out, v[0]);
        put_u32(out, v[1]);
        let ghost t = values@.take(k + 1);
        assert(t.drop_last() =~= values@.take(k as int));
        assert(out@ =~= start + f32_samples_bytes(t));
        k = k + 1;
    }
    assert(values@.take(n as int) =~= values@);
}

impl CsiFrame {
    /// Encodes the frame: header, payload, CRC-32 trailer.
    ///
    /// Fails with the first validation error, or `FrameTooLarge` when the frame
    /// would exceed `MEDIATEK_CSI_MAX_FRAME_LEN` bytes.
    pub fn to_bytes(&self) -> (r: Result<Vec<u8>, CsiParseError>)
        ensures
            match r {
                Ok(w) => spec_to_bytes(self@) == Ok::<Seq<u8>, CsiParseError>(w@),
                Err(e) => spec_to_bytes(self@) == Err::<Seq<u8>, CsiParseError>(e),
            },
    {
        self.validate()?;
        proof {
            lemma_valid_payload_len(self@);
        }
        let payload_len = self.payload.encoded_len();
        let frame_len = match MEDIATEK_CSI_HEADER_LEN.checked_add(payload_len) {
            Some(n) => match n.checked_add(MEDIATEK_CSI_CRC_LEN) {
                Some(m) => m,
                None => return Err(CsiParseError::LengthOverflow),
            },
            None => return Err(CsiParseError::LengthOverflow),
        };
        if frame_len > MEDIATEK_CSI_MAX_FRAME_LEN {
            return Err(CsiParseError::FrameTooLarge(frame_len));
        }
        let mut out = u32_to_le_bytes(MEDIATEK_CSI_MAGIC);
        out.reserve(frame_len);
        out.push(MEDIATEK_CSI_VERSION);
        out.push(self.report_kind.code());
        put_u16(&mut out, 72);
        put_u32(&mut out, frame_len as u32);
        put_u32(&mut out, self.sequence);
        put_u64(&mut out, self.timestamp_us);
        put_u64(&mut out, self.device_id);
        put_u16(&mut out, self.chipset.code());
        put_u16(&mut out, self.bandwidth_mhz);
        put_u32(&mut out, self.center_freq_khz);
        put_u16(&mut out, self.flags.0);
        out.push(self.tx_count);
        out.push(self.rx_count);
        out.push(self.payload.format().code());
        out.push(self.ppdu_type.code());
        put_u16(&mut out, self.subcarrier_count);
        out.push(self.payload.rssi_dbm().len() as u8);
        out.push(self.noise_floor_dbm as u8);
        put_u16(&mut out, 0);
        put_u32(&mut out, self.scale_bits);
        put_u32(&mut out, self.subcarrier_spacing_hz_bits);
        put_u32(&mut out, self.calibration_id);
        put_u32(&mut out, payload_len as u32);
        put_u32(&mut out, 0);
        let ghost header = out@;
        assert(header == header_bytes(self@, frame_len as u32, payload_len as u32));
        match &self.payload {
            CsiPayload::ComplexI16 { rssi_dbm, values } => {
                put_rssi(&mut out, rssi_dbm);
                put_i16_samples(&mut out, values);
            },
            CsiPayload::ComplexF32 { rssi_dbm, values } => {
                put_rssi(&mut out, rssi_dbm);
                put_f32_samples(&mut out, values);
            },
            CsiPayload::Bytes(values) => {
                let mut copy = values.clone();
                out.append(&mut copy);
            },
        }
        assert(out@ =~= frame_body(self@));
        let crc = crc32_ieee(out.as_slice());
        put_u32(&mut out, crc);
        Ok(out)
    }
}

/// A valid frame with complex samples holds at most `MEDIATEK_CSI_MAX_ELEMENTS`
/// samples and `rx_count` RSSI values, so its length arithmetic cannot overflow.
pub proof fn lemma_valid_payload_len(f: FrameModel)
    requires
        f.validate() is Ok,
    ensures
        f.payload is Bytes || f.payload.encoded_len() <= 4 + 8 * MEDIATEK_CSI_MAX_ELEMENTS,
{
}


/// `n` RSSI values stored from offset `start`.
pub open spec fn rssi_at(input: Seq<u8>, start: int, n: nat) -> Seq<i8> {
    Seq::new(n, |k: int| input[start + k] as i8)
}

/// `n` complex `i16` samples stored from offset `start`.
pub open spec fn i16_samples_at(input: Seq<u8>, start: int, n: nat) -> Seq<[i16; 2]> {
    Seq::new(
        n,
        |k: int| [le_u16_at(input, start + 4 * k) as i16, le_u16_at(input, start + 4 * k + 2) as i16],
    )
}

/// `n` complex `f32` sample bit patterns stored from offset `start`.
pub open spec fn f32_samples_at(input: Seq<u8>, start: int, n: nat) -> Seq<[u32; 2]> {
    Seq::new(n, |k: int| [le_u32_at(input, start + 8 * k), le_u32_at(input, start + 8 * k + 4)])
}

/// The payload held in `input[72 .. 72 + payload_len]`, given the element format,
/// the announced RSSI count and the number of samples that the dimensions call for.
pub open spec fn decode_payload(
    input: Seq<u8>,
    format: ElementFormat,
    rssi_count: nat,
    elements: nat,
    payload_len: nat,
) -> Result<PayloadModel, CsiParseError> {
    let start = MEDIATEK_CSI_HEADER_LEN as int;
    match format {
        ElementFormat::Bytes => Ok(PayloadModel::Bytes(input.subrange(start, start + payload_len))),
        ElementFormat::ComplexI16 => {
            if rssi_count > payload_len || payload_len - rssi_count != elements * 4 {
                Err(CsiParseError::PayloadLengthMismatch)
            } else {
                Ok(
                    PayloadModel::ComplexI16 {
                        rssi_dbm: rssi_at(input, start, rssi_count),
                        values: i16_samples_at(input, start + rssi_count, elements),
                    },
                )
            }
        },
        ElementFormat::ComplexF32 => {
            if rssi_count > payload_len || payload_len - rssi_count != elements * 8 {
                Err(CsiParseError::PayloadLengthMismatch)
            } else {
                let values = f32_samples_at(input, start + rssi_count, elements);
                if !all_samples_finite(values) {
                    Err(CsiParseError::NonFiniteValue)
                } else {
                    Ok(
                        PayloadModel::ComplexF32 {
                            rssi_dbm: rssi_at(input, start, rssi_count),
                            values,
                        },
                    )
                }
            }
        },
    }
}

/// The frame whose header is `input[..72]` and whose payload is `payload`.
pub open spec fn header_frame(
    input: Seq<u8>,
    report_kind: ReportKind,
    chipset: ChipsetProfile,
    ppdu_type: PpduType,
    payload: PayloadModel,
) -> FrameModel {
    FrameModel {
        report_kind,
        sequence: le_u32_at(input, 12),
        timestamp_us: le_u64_at(input, 16),
        device_id: le_u64_at(input, 24),
        chipset,
        bandwidth_mhz: le_u16_at(input, 34),
        center_freq_khz: le_u32_at(input, 36),
        flags: le_u16_at(input, 40),
        tx_count: input[42],
        rx_count: input[43],
        ppdu_type,
        subcarrier_count: le_u16_at(input, 46),
        noise_floor_dbm: input[49] as i8,
        scale_bits: le_u32_at(input, 52),
        subcarrier_spacing_hz_bits: le_u32_at(input, 56),
        calibration_id: le_u32_at(input, 60),
        payload,
    }
}

/// Decoding of a frame whose envelope (magic, version, kind, lengths and CRC) has
/// been checked: the header's codes, the payload, then validation.
pub open spec fn decode_checked_frame(input: Seq<u8>, report_kind: ReportKind, frame_len: int) -> Result<
    (FrameModel, int),
    CsiParseError,
> {
    match chipset_from_code(le_u16_at(input, 32)) {
        Err(e) => Err(e),
        Ok(chipset) => match element_format_from_code(input[44]) {
            Err(e) => Err(e),
            Ok(format) => match ppdu_type_from_code(input[45]) {
                Err(e) => Err(e),
                Ok(ppdu_type) => {
                    let payload_len = le_u32_at(input, 64);
                    if MEDIATEK_CSI_HEADER_LEN + payload_len + 4 != frame_len {
                        Err(CsiParseError::PayloadLengthMismatch)
                    } else {
                        let elements = input[42] as nat * input[43] as nat * le_u16_at(
                            input,
                            46,
                        ) as nat;
                        match decode_payload(
                            input,
                            format,
                            input[48] as nat,
                            elements,
                            payload_len as nat,
                        ) {
                            Err(e) => Err(e),
                            Ok(payload) => {
                                let frame = header_frame(
                                    input,
                                    report_kind,
                                    chipset,
                                    ppdu_type,
                                    payload,
                                );
                                match frame.validate() {
                                    Err(e) => Err(e),
                                    Ok(_) => Ok((frame, frame_len)),
                                }
                            },
                        }
                    }
                },
            },
        },
    }
}

/// What decoding the front of `input` gives: the frame and the number of bytes
/// it took, or the first error met.
pub open spec fn spec_from_bytes(input: Seq<u8>) -> Result<(FrameModel, int), CsiParseError> {
    if input.len() < MEDIATEK_CSI_HEADER_LEN {
        Err(
            CsiParseError::InsufficientData {
                needed: MEDIATEK_CSI_HEADER_LEN,
                got: input.len() as usize,
            },
        )
    } else if le_u32_at(input, 0) != MEDIATEK_CSI_MAGIC {
        Err(CsiParseError::InvalidMagic(le_u32_at(input, 0)))
    } else if input[4] != MEDIATEK_CSI_VERSION {
        Err(CsiParseError::UnsupportedVersion(input[4]))
    } else {
        match report_kind_from_code(input[5]) {
            Err(e) => Err(e),
            Ok(report_kind) => {
                let header_len = le_u16_at(input, 6);
                let frame_len = le_u32_at(input, 8);
                if header_len != MEDIATEK_CSI_HEADER_LEN {
                    Err(CsiParseError::InvalidHeaderLength(header_len as usize))
                } else if frame_len > MEDIATEK_CSI_MAX_FRAME_LEN {
                    Err(CsiParseError::FrameTooLarge(frame_len as usize))
                } else if frame_len < MEDIATEK_CSI_HEADER_LEN + MEDIATEK_CSI_CRC_LEN {
                    Err(CsiParseError::InvalidFrameLength(frame_len as usize))
                } else if input.len() < frame_len {
                    Err(
                        CsiParseError::InsufficientData {
                            needed: frame_len as usize,
                            got: input.len() as usize,
                        },
                    )
                } else {
                    let expected = le_u32_at(input, frame_len - 4);
                    let actual = spec_crc32_ieee(input.take(frame_len - 4));
                    if expected != actual {
                        Err(CsiParseError::CrcMismatch { expected, actual })
                    } else {
                        decode_checked_frame(input, report_kind, frame_len as int)
                    }
                }
            },
        }
    }
}

/// The mathematical form of a decoding result.
pub open spec fn decoded_view(r: Result<(CsiFrame, usize), CsiParseError>) -> Result<
    (FrameModel, int),
    CsiParseError,
> {
    match r {
        Ok((f, n)) => Ok((f@, n as int)),
        Err(e) => Err(e),
    }
}

fn read_rssi(input: &[u8], start: usize, n: usize) -> (r: Vec<i8>)
    requires
        start + n <= input@.len(),
        input@.len() <= usize::MAX,
    ensures
        r@ == rssi_at(input@, start as int, n as nat),
{
    let mut r: Vec<i8> = Vec::new();
    let mut k: usize = 0;
    while k < n
        invariant
            k <= n,
            start + n <= input@.len(),
            input@.len() <= usize::MAX,
            r@ =~= rssi_at(input@, start as int, k as nat),
        decreases n - k,
    {
        r.push(input[start + k] as i8);
        k = k + 1;
    }
    r
}

fn read_i16_samples(input: &[u8], start: usize, n: usize) -> (r: Vec<[i16; 2]>)
    requires
        start + 4 * n <= input@.len(),
        input@.len() <= usize::MAX,
    ensures
        r@ == i16_samples_at(input@, start as int, n as nat),
{
    let mut r: Vec<[i16; 2]> = Vec::new();
    let mut k: usize = 0;
    while k < n
        invariant
            k <= n,
            start + 4 * n <= input@.len(),
            input@.len() <= usize::MAX,
            r@ =~= i16_samples_at(input@, start as int, k as nat),
        decreases n - k,
    {
        let o = start + 4 * k;
        let i = #[verifier::truncate] (u16_at(input, o) as i16);
        let q = #[verifier::truncate] (u16_at(input, o + 2) as i16);
        r.push([i, q]);
        k = k + 1;
    }
    r
}

fn read_f32_samples(input: &[u8], start: usize, n: usize) -> (r: Result<Vec<[u32; 2]>, CsiParseError>)
    requires
        start + 8 * n <= input@.len(),
        input@.len() <= usize::MAX,
    ensures
        match r {
            Ok(v) => v@ == f32_samples_at(input@, start as int, n as nat) && all_samples_finite(v@),
            Err(e) => e == CsiParseError::NonFiniteValue && !all_samples_finite(
                f32_samples_at(input@, start as int, n as nat),
            ),
        },
{
    let mut r: Vec<[u32; 2]> = Vec::new();
    let mut k: usize = 0;
    while k < n
        invariant
            k <= n,
            start + 8 * n <= input@.len(),
            input@.len() <= usize::MAX,
            r@ =~= f32_samples_at(input@, start as int, k as nat),
            all_samples_finite(r@),
        decreases n - k,
    {
        let o = start + 8 * k;
        let i = f32_bits_at(input, o);
        let q = f32_bits_at(input, o + 4);
        if !f32_bits_is_finite(i) || !f32_bits_is_finite(q) {
            proof {
                let all = f32_samples_at(input@, start as int, n as nat);
                assert(!sample_finite(all[k as int]));
            }
            return Err(CsiParseError::NonFiniteValue);
        }
        r.push([i, q]);
        k = k + 1;
    }
    Ok(r)
}

fn read_payload(
    input: &[u8],
    format: ElementFormat,
    rssi_count: usize,
    elements: u64,
    payload_len: usize,
) -> (r: Result<CsiPayload, CsiParseError>)
    requires
        MEDIATEK_CSI_HEADER_LEN + payload_len <= input@.len(),
        input@.len() <= usize::MAX,
        elements <= 255 * 255 * 65535,
    ensures
        match r {
            Ok(p) => decode_payload(input@, format, rssi_count as nat, elements as nat, payload_len as nat)
                == Ok::<PayloadModel, CsiParseError>(p@),
            Err(e) => decode_payload(input@, format, rssi_count as nat, elements as nat, payload_len as nat)
                == Err::<PayloadModel, CsiParseError>(e),
        },
{
    let start = MEDIATEK_CSI_HEADER_LEN;
    match format {
        ElementFormat::Bytes => {
            let n: usize = input.len();
            assert(start + payload_len <= n);
            let bytes = vstd::slice::slice_to_vec(&input[start..start + payload_len]);
            Ok(CsiPayload::Bytes(bytes))
        },
        ElementFormat::ComplexI16 => {
            if rssi_count > payload_len || (payload_len - rssi_count) as u64 != elements * 4 {
                return Err(CsiParseError::PayloadLengthMismatch);
            }
            let rssi_dbm = read_rssi(input, start, rssi_count);
            let values = read_i16_samples(input, start + rssi_count, elements as usize);
            Ok(CsiPayload::ComplexI16 { rssi_dbm, values })
        },
        ElementFormat::ComplexF32 => {
            if rssi_count > payload_len || (payload_len - rssi_count) as u64 != elements * 8 {
                return Err(CsiParseError::PayloadLengthMismatch);
            }
            let rssi_dbm = read_rssi(input, start, rssi_count);
            let values = read_f32_samples(input, start + rssi_count, elements as usize)?;
            Ok(CsiPayload::ComplexF32 { rssi_dbm, values })
        },
    }
}

impl CsiFrame {
    /// Decodes one frame from the front of `input`, returning it with the number
    /// of bytes it occupies. Checks, in order: length, magic, version, report kind,
    /// header length, frame length, available bytes, CRC, codes, payload, validation.
    pub fn from_bytes(input: &[u8]) -> (r: Result<(CsiFrame, usize), CsiParseError>)
        ensures
            decoded_view(r) == spec_from_bytes(input@),
    {
        if input.len() < MEDIATEK_CSI_HEADER_LEN {
            return Err(
                CsiParseError::InsufficientData { needed: MEDIATEK_CSI_HEADER_LEN, got: input.len() },
            );
        }
        let magic = u32_at(input, 0);
        if magic != MEDIATEK_CSI_MAGIC {
            return Err(CsiParseError::InvalidMagic(magic));
        }
        if input[4] != MEDIATEK_CSI_VERSION {
            return Err(CsiParseError::UnsupportedVersion(input[4]));
        }
        let report_kind = ReportKind::try_from(input[5])?;
        let header_len = u16_at(input, 6) as usize;
        if header_len != MEDIATEK_CSI_HEADER_LEN {
            return Err(CsiParseError::InvalidHeaderLength(header_len));
        }
        let frame_len = u32_at(input, 8) as usize;
        if frame_len > MEDIATEK_CSI_MAX_FRAME_LEN {
            return Err(CsiParseError::FrameTooLarge(frame_len));
        }
        if frame_len < header_len + MEDIATEK_CSI_CRC_LEN {
            return Err(CsiParseError::InvalidFrameLength(frame_len));
        }
        if input.len() < frame_len {
            return Err(CsiParseError::InsufficientData { needed: frame_len, got: input.len() });
        }
        let expected_crc = u32_at(input, frame_len - 4);
        let actual_crc = crc32_ieee(&input[0..frame_len - 4]);
        if expected_crc != actual_crc {
            return Err(CsiParseError::CrcMismatch { expected: expected_crc, actual: actual_crc });
        }
        let chipset = ChipsetProfile::try_from(u16_at(input, 32))?;
        let format = ElementFormat::try_from(input[44])?;
        let ppdu_type = PpduType::try_from(input[45])?;
        let tx_count = input[42];
        let rx_count = input[43];
        let subcarrier_count = u16_at(input, 46);
        let rssi_count = input[48] as usize;
        let payload_len = u32_at(input, 64) as usize;
        if header_len as u64 + payload_len as u64 + 4 != frame_len as u64 {
            return Err(CsiParseError::PayloadLengthMismatch);
        }
        let elements = element_product(tx_count, rx_count, subcarrier_count);
        proof {
            lemma_element_product_bound(tx_count, rx_count, subcarrier_count);
        }
        let payload = read_payload(input, format, rssi_count, elements, payload_len)?;
        let frame = CsiFrame {
            report_kind,
            sequence: u32_at(input, 12),
            timestamp_us: u64_at(input, 16),
            device_id: u64_at(input, 24),
            chipset,
            bandwidth_mhz: u16_at(input, 34),
            center_freq_khz: u32_at(input, 36),
            flags: CsiFlags(u16_at(input, 40)),
            tx_count,
            rx_count,
            ppdu_type,
            subcarrier_count,
            noise_floor_dbm: input[49] as i8,
            scale_bits: f32_bits_at(input, 52),
            subcarrier_spacing_hz_bits: f32_bits_at(input, 56),
            calibration_id: u32_at(input, 60),
            payload,
        };
        assert(frame@ == header_frame(input@, report_kind, chipset, ppdu_type, payload@));
        frame.validate()?;
        Ok((frame, frame_len))
    }
}

} // verus!
