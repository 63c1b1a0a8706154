//! Properties that relate encoding and decoding.
use vstd::prelude::*;
use vstd::bytes::*;
use crate::codec::{
    encode_frame, encoded_frame_len, f32_samples_at, f32_samples_bytes, frame_body, header_bytes,
    header_frame, i16_samples_at, i16_samples_bytes, le16, le32, le64, payload_bytes, rssi_at,
    rssi_bytes, spec_from_bytes, spec_to_bytes, lemma_valid_payload_len, decode_payload,
    decode_checked_frame,
};
use crate::mediatek_csi::{
    chipset_code, element_format_code, ppdu_type_code, report_kind_code, FrameModel,
    ChipsetProfile, PpduType, ReportKind, spec_max_chains, valid_bandwidth, CsiFlags,
    MEDIATEK_CSI_HEADER_LEN, MEDIATEK_CSI_CRC_LEN, MEDIATEK_CSI_MAX_ELEMENTS,
    PayloadModel, CsiParseError, ElementFormat, report_kind_from_code, chipset_from_code,
    element_format_from_code, ppdu_type_from_code, MEDIATEK_CSI_MAGIC, MEDIATEK_CSI_VERSION, MEDIATEK_CSI_MAX_FRAME_LEN,
};
use crate::wire::{
    crc32_bit_step, crc32_feed_byte, crc32_register, crc32_shifts, le_u16_at, le_u32_at, le_u64_at,
    spec_crc32_ieee,
};

verus! {

proof fn lemma_le_lengths()
    ensures
        forall|x: u16| #[trigger] le16(x).len() == 2 && spec_u16_from_le_bytes(le16(x)) == x,
        forall|x: u32| #[trigger] le32(x).len() == 4 && spec_u32_from_le_bytes(le32(x)) == x,
        forall|x: u64| #[trigger] le64(x).len() == 8 && spec_u64_from_le_bytes(le64(x)) == x,
{
    lemma_auto_spec_u16_to_from_le_bytes();
    lemma_auto_spec_u32_to_from_le_bytes();
    lemma_auto_spec_u64_to_from_le_bytes();
}

/// Every header field reads back from where `header_bytes` puts it.
pub proof fn lemma_header_fields(f: FrameModel, frame_len: u32, payload_len: u32)
    ensures
        ({
            let h = header_bytes(f, frame_len, payload_len);
            &&& h.len() == 72
            &&& le_u32_at(h, 0) == MEDIATEK_CSI_MAGIC
            &&& h[4] == MEDIATEK_CSI_VERSION
            &&& h[5] == report_kind_code(f.report_kind)
            &&& le_u16_at(h, 6) == 72
            &&& le_u32_at(h, 8) == frame_len
            &&& le_u32_at(h, 12) == f.sequence
            &&& le_u64_at(h, 16) == f.timestamp_us
            &&& le_u64_at(h, 24) == f.device_id
            &&& le_u16_at(h, 32) == chipset_code(f.chipset)
            &&& le_u16_at(h, 34) == f.bandwidth_mhz
            &&& le_u32_at(h, 36) == f.center_freq_khz
            &&& le_u16_at(h, 40) == f.flags
            &&& h[42] == f.tx_count
            &&& h[43] == f.rx_count
            &&& h[44] == element_format_code(f.payload.format())
            &&& h[45] == ppdu_type_code(f.ppdu_type)
            &&& le_u16_at(h, 46) == f.subcarrier_count
            &&& h[48] == f.payload.rssi().len() as u8
            &&& h[49] == f.noise_floor_dbm as u8
            &&& le_u32_at(h, 52) == f.scale_bits
            &&& le_u32_at(h, 56) == f.subcarrier_spacing_hz_bits
            &&& le_u32_at(h, 60) == f.calibration_id
            &&& le_u32_at(h, 64) == payload_len
        }),
{
    lemma_le_lengths();
    let h = header_bytes(f, frame_len, payload_len);
    assert(h.subrange(0, 4) =~= le32(MEDIATEK_CSI_MAGIC));
    assert(h.subrange(6, 8) =~= le16(72));
    assert(h.subrange(8, 12) =~= le32(frame_len));
    assert(h.subrange(12, 16) =~= le32(f.sequence));
    assert(h.subrange(16, 24) =~= le64(f.timestamp_us));
    assert(h.subrange(24, 32) =~= le64(f.device_id));
    assert(h.subrange(32, 34) =~= le16(chipset_code(f.chipset)));
    assert(h.subrange(34, 36) =~= le16(f.bandwidth_mhz));
    assert(h.subrange(36, 40) =~= le32(f.center_freq_khz));
    assert(h.subrange(40, 42) =~= le16(f.flags));
    assert(h.subrange(46, 48) =~= le16(f.subcarrier_count));
    assert(h.subrange(52, 56) =~= le32(f.scale_bits));
    assert(h.subrange(56, 60) =~= le32(f.subcarrier_spacing_hz_bits));
    assert(h.subrange(60, 64) =~= le32(f.calibration_id));
    assert(h.subrange(64, 68) =~= le32(payload_len));
}


proof fn lemma_concat_left(x: Seq<u8>, y: Seq<u8>, i: int, j: int)
    requires
        0 <= i <= j <= x.len(),
    ensures
        (x + y).subrange(i, j) == x.subrange(i, j),
{
    assert((x + y).subrange(i, j) =~= x.subrange(i, j));
}

proof fn lemma_concat_right(x: Seq<u8>, y: Seq<u8>, i: int, j: int)
    requires
        x.len() <= i <= j <= x.len() + y.len(),
    ensures
        (x + y).subrange(i, j) == y.subrange(i - x.len(), j - x.len()),
{
    assert((x + y).subrange(i, j) =~= y.subrange(i - x.len(), j - x.len()));
}

proof fn lemma_i8_u8(x: i8)
    ensures
        (x as u8) as i8 == x,
{
    assert((x as u8) as i8 == x) by (bit_vector);
}

proof fn lemma_i16_u16(x: i16)
    ensures
        (x as u16) as i16 == x,
{
    assert((x as u16) as i16 == x) by (bit_vector);
}

/// Where each complex `i16` sample lies in its encoding.
proof fn lemma_i16_samples_bytes(v: Seq<[i16; 2]>, k: int)
    ensures
        i16_samples_bytes(v).len() == 4 * v.len(),
        0 <= k < v.len() ==> i16_samples_bytes(v).subrange(4 * k, 4 * k + 2) == le16(
            v[k][0] as u16,
        ),
        0 <= k < v.len() ==> i16_samples_bytes(v).subrange(4 * k + 2, 4 * k + 4) == le16(
            v[k][1] as u16,
        ),
    decreases v.len(),
{
    lemma_le_lengths();
    if v.len() > 0 {
        let p = v.drop_last();
        lemma_i16_samples_bytes(p, k);
        let a = le16(v.last()[0] as u16);
        let b = le16(v.last()[1] as u16);
        let bp = i16_samples_bytes(p);
        assert(i16_samples_bytes(v) == bp + a + b);
        if 0 <= k < v.len() - 1 {
            assert(p[k] == v[k]);
            lemma_concat_left(bp + a, b, 4 * k, 4 * k + 2);
            lemma_concat_left(bp, a, 4 * k, 4 * k + 2);
            lemma_concat_left(bp + a, b, 4 * k + 2, 4 * k + 4);
            lemma_concat_left(bp, a, 4 * k + 2, 4 * k + 4);
        } else if k == v.len() - 1 {
            lemma_concat_left(bp + a, b, 4 * k, 4 * k + 2);
            lemma_concat_right(bp, a, 4 * k, 4 * k + 2);
            assert(a.subrange(0, 2) =~= a);
            lemma_concat_right(bp + a, b, 4 * k + 2, 4 * k + 4);
            assert(b.subrange(0, 2) =~= b);
        }
    }
}

/// Where each complex `f32` sample lies in its encoding.
proof fn lemma_f32_samples_bytes(v: Seq<[u32; 2]>, k: int)
    ensures
        f32_samples_bytes(v).len() == 8 * v.len(),
        0 <= k < v.len() ==> f32_samples_bytes(v).subrange(8 * k, 8 * k + 4) == le32(v[k][0]),
        0 <= k < v.len() ==> f32_samples_bytes(v).subrange(8 * k + 4, 8 * k + 8) == le32(v[k][1]),
    decreases v.len(),
{
    lemma_le_lengths();
    if v.len() > 0 {
        let p = v.drop_last();
        lemma_f32_samples_bytes(p, k);
        let a = le32(v.last()[0]);
        let b = le32(v.last()[1]);
        let bp = f32_samples_bytes(p);
        assert(f32_samples_bytes(v) == bp + a + b);
        if 0 <= k < v.len() - 1 {
            assert(p[k] == v[k]);
            lemma_concat_left(bp + a, b, 8 * k, 8 * k + 4);
            lemma_concat_left(bp, a, 8 * k, 8 * k + 4);
            lemma_concat_left(bp + a, b, 8 * k + 4, 8 * k + 8);
            lemma_concat_left(bp, a, 8 * k + 4, 8 * k + 8);
        } else if k == v.len() - 1 {
            lemma_concat_left(bp + a, b, 8 * k, 8 * k + 4);
            lemma_concat_right(bp, a, 8 * k, 8 * k + 4);
            assert(a.subrange(0, 4) =~= a);
            lemma_concat_right(bp + a, b, 8 * k + 4, 8 * k + 8);
            assert(b.subrange(0, 4) =~= b);
        }
    }
}

/// The payload takes exactly `encoded_len` bytes.
proof fn lemma_payload_len(p: PayloadModel)
    ensures
        payload_bytes(p).len() == p.encoded_len(),
{
    match p {
        PayloadModel::ComplexI16 { rssi_dbm, values } => {
            lemma_i16_samples_bytes(values, 0);
        },
        PayloadModel::ComplexF32 { rssi_dbm, values } => {
            lemma_f32_samples_bytes(values, 0);
        },
        PayloadModel::Bytes(_) => {},
    }
}

/// The samples of an encoded payload read back from the frame they are placed in.
proof fn lemma_payload_reads_back(f: FrameModel, w: Seq<u8>)
    requires
        f.validate() is Ok,
        w.len() >= 72 + payload_bytes(f.payload).len(),
        w.subrange(72, 72 + payload_bytes(f.payload).len() as int) == payload_bytes(f.payload),
    ensures
        f.payload matches PayloadModel::ComplexI16 { rssi_dbm, values } ==> {
            &&& rssi_at(w, 72, rssi_dbm.len()) == rssi_dbm
            &&& i16_samples_at(w, 72 + rssi_dbm.len() as int, values.len()) == values
        },
        f.payload matches PayloadModel::ComplexF32 { rssi_dbm, values } ==> {
            &&& rssi_at(w, 72, rssi_dbm.len()) == rssi_dbm
            &&& f32_samples_at(w, 72 + rssi_dbm.len() as int, values.len()) == values
        },
        f.payload matches PayloadModel::Bytes(v) ==> w.subrange(72, 72 + v.len() as int) == v,
{
    lemma_le_lengths();
    let p = payload_bytes(f.payload);
    match f.payload {
        PayloadModel::ComplexI16 { rssi_dbm, values } => {
            let r = rssi_bytes(rssi_dbm);
            let s = i16_samples_bytes(values);
            lemma_i16_samples_bytes(values, 0);
            assert forall|k: int| 0 <= k < rssi_dbm.len() implies #[trigger] rssi_at(
                w,
                72,
                rssi_dbm.len(),
            )[k] == rssi_dbm[k] by {
                assert(w[72 + k] == p[k]);
                lemma_i8_u8(rssi_dbm[k]);
            }
            assert(rssi_at(w, 72, rssi_dbm.len()) =~= rssi_dbm);
            let base = 72 + rssi_dbm.len() as int;
            assert forall|k: int| 0 <= k < values.len() implies #[trigger] i16_samples_at(
                w,
                base,
                values.len(),
            )[k] == values[k] by {
                lemma_i16_samples_bytes(values, k);
                lemma_concat_right(r, s, r.len() + 4 * k, r.len() + 4 * k + 2);
                lemma_concat_right(r, s, r.len() + 4 * k + 2, r.len() + 4 * k + 4);
                assert(w.subrange(base + 4 * k, base + 4 * k + 2) =~= p.subrange(
                    r.len() + 4 * k,
                    r.len() + 4 * k + 2,
                ));
                assert(w.subrange(base + 4 * k + 2, base + 4 * k + 4) =~= p.subrange(
                    r.len() + 4 * k + 2,
                    r.len() + 4 * k + 4,
                ));
                lemma_i16_u16(values[k][0]);
                lemma_i16_u16(values[k][1]);
                assert(i16_samples_at(w, base, values.len())[k] =~= values[k]);
            }
            assert(i16_samples_at(w, base, values.len()) =~= values);
        },
        PayloadModel::ComplexF32 { rssi_dbm, values } => {
            let r = rssi_bytes(rssi_dbm);
            let s = f32_samples_bytes(values);
            lemma_f32_samples_bytes(values, 0);
            assert forall|k: int| 0 <= k < rssi_dbm.len() implies #[trigger] rssi_at(
                w,
                72,
                rssi_dbm.len(),
            )[k] == rssi_dbm[k] by {
                assert(w[72 + k] == p[k]);
                lemma_i8_u8(rssi_dbm[k]);
            }
            assert(rssi_at(w, 72, rssi_dbm.len()) =~= rssi_dbm);
            let base = 72 + rssi_dbm.len() as int;
            assert forall|k: int| 0 <= k < values.len() implies #[trigger] f32_samples_at(
                w,
                base,
                values.len(),
            )[k] == values[k] by {
                lemma_f32_samples_bytes(values, k);
                lemma_concat_right(r, s, r.len() + 8 * k, r.len() + 8 * k + 4);
                lemma_concat_right(r, s, r.len() + 8 * k + 4, r.len() + 8 * k + 8);
                assert(w.subrange(base + 8 * k, base + 8 * k + 4) =~= p.subrange(
                    r.len() + 8 * k,
                    r.len() + 8 * k + 4,
                ));
                assert(w.subrange(base + 8 * k + 4, base + 8 * k + 8) =~= p.subrange(
                    r.len() + 8 * k + 4,
                    r.len() + 8 * k + 8,
                ));
                assert(f32_samples_at(w, base, values.len())[k] =~= values[k]);
            }
            assert(f32_samples_at(w, base, values.len()) =~= values);
        },
        PayloadModel::Bytes(v) => {},
    }
}


/// Every header field, the CRC trailer and the payload of an encoded frame read back.
proof fn lemma_encoded_frame_reads(f: FrameModel)
    requires
        f.validate() is Ok,
        encoded_frame_len(f) <= MEDIATEK_CSI_MAX_FRAME_LEN,
    ensures
        ({
            let w = encode_frame(f);
            let len = encoded_frame_len(f);
            &&& w.len() == len
            &&& 76 <= len
            &&& le_u32_at(w, 0) == MEDIATEK_CSI_MAGIC
            &&& w[4] == MEDIATEK_CSI_VERSION
            &&& w[5] == report_kind_code(f.report_kind)
            &&& le_u16_at(w, 6) == 72
            &&& le_u32_at(w, 8) == len
            &&& le_u32_at(w, 12) == f.sequence
            &&& le_u64_at(w, 16) == f.timestamp_us
            &&& le_u64_at(w, 24) == f.device_id
            &&& le_u16_at(w, 32) == chipset_code(f.chipset)
            &&& le_u16_at(w, 34) == f.bandwidth_mhz
            &&& le_u32_at(w, 36) == f.center_freq_khz
            &&& le_u16_at(w, 40) == f.flags
            &&& w[42] == f.tx_count
            &&& w[43] == f.rx_count
            &&& w[44] == element_format_code(f.payload.format())
            &&& w[45] == ppdu_type_code(f.ppdu_type)
            &&& le_u16_at(w, 46) == f.subcarrier_count
            &&& w[48] == f.payload.rssi().len() as u8
            &&& w[49] as i8 == f.noise_floor_dbm
            &&& le_u32_at(w, 52) == f.scale_bits
            &&& le_u32_at(w, 56) == f.subcarrier_spacing_hz_bits
            &&& le_u32_at(w, 60) == f.calibration_id
            &&& le_u32_at(w, 64) == f.payload.encoded_len()
            &&& le_u32_at(w, len - 4) == spec_crc32_ieee(w.take(len - 4))
            &&& f.payload matches PayloadModel::ComplexI16 { rssi_dbm, values } ==> {
                &&& rssi_at(w, 72, rssi_dbm.len()) == rssi_dbm
                &&& i16_samples_at(w, 72 + rssi_dbm.len() as int, values.len()) == values
            }
            &&& f.payload matches PayloadModel::ComplexF32 { rssi_dbm, values } ==> {
                &&& rssi_at(w, 72, rssi_dbm.len()) == rssi_dbm
                &&& f32_samples_at(w, 72 + rssi_dbm.len() as int, values.len()) == values
            }
            &&& f.payload matches PayloadModel::Bytes(v) ==> w.subrange(72, 72 + v.len() as int) == v
        }),
{
    lemma_le_lengths();
    lemma_valid_payload_len(f);
    lemma_payload_len(f.payload);
    let len = encoded_frame_len(f);
    let pl = f.payload.encoded_len();
    let h = header_bytes(f, len as u32, pl as u32);
    lemma_header_fields(f, len as u32, pl as u32);
    let p = payload_bytes(f.payload);
    let body = frame_body(f);
    assert(body == h + p);
    let c = le32(spec_crc32_ieee(body));
    let w = encode_frame(f);
    assert(w == body + c);
    assert(w.len() == len);
    assert(w.subrange(0, 4) =~= h.subrange(0, 4));
    assert(w.subrange(6, 8) =~= h.subrange(6, 8));
    assert(w.subrange(8, 12) =~= h.subrange(8, 12));
    assert(w.subrange(12, 16) =~= h.subrange(12, 16));
    assert(w.subrange(16, 24) =~= h.subrange(16, 24));
    assert(w.subrange(24, 32) =~= h.subrange(24, 32));
    assert(w.subrange(32, 34) =~= h.subrange(32, 34));
    assert(w.subrange(34, 36) =~= h.subrange(34, 36));
    assert(w.subrange(36, 40) =~= h.subrange(36, 40));
    assert(w.subrange(40, 42) =~= h.subrange(40, 42));
    assert(w.subrange(46, 48) =~= h.subrange(46, 48));
    assert(w.subrange(52, 56) =~= h.subrange(52, 56));
    assert(w.subrange(56, 60) =~= h.subrange(56, 60));
    assert(w.subrange(60, 64) =~= h.subrange(60, 64));
    assert(w.subrange(64, 68) =~= h.subrange(64, 68));
    assert(w[4] == h[4] && w[5] == h[5] && w[42] == h[42] && w[43] == h[43]);
    assert(w[44] == h[44] && w[45] == h[45] && w[48] == h[48] && w[49] == h[49]);
    lemma_i8_u8(f.noise_floor_dbm);
    assert(w.take(len - 4) =~= body);
    assert(w.subrange(len - 4, len) =~= c);
    assert(w.subrange(72, 72 + p.len() as int) =~= p);
    lemma_payload_reads_back(f, w);
}

/// Decoding an encoded frame gives the frame back, with its full length.
#[verifier::rlimit(40)]
pub proof fn lemma_decode_encode_frame(f: FrameModel)
    requires
        f.validate() is Ok,
        encoded_frame_len(f) <= MEDIATEK_CSI_MAX_FRAME_LEN,
    ensures
        spec_from_bytes(encode_frame(f)) == Ok::<(FrameModel, int), CsiParseError>(
            (f, encoded_frame_len(f)),
        ),
        encode_frame(f).len() == encoded_frame_len(f),
{
    lemma_encoded_frame_reads(f);
    lemma_valid_payload_len(f);
    let w = encode_frame(f);
    let decoded = header_frame(w, f.report_kind, f.chipset, f.ppdu_type, f.payload);
    assert(decoded == f);
}

/// Round trip: whatever `to_bytes` produces, `from_bytes` turns back into the same
/// frame, and reports that it used every byte.
pub proof fn law_round_trip(f: FrameModel, w: Seq<u8>)
    requires
        spec_to_bytes(f) == Ok::<Seq<u8>, CsiParseError>(w),
    ensures
        spec_from_bytes(w) == Ok::<(FrameModel, int), CsiParseError>((f, w.len() as int)),
{
    lemma_decode_encode_frame(f);
}


/// Truncation: any proper prefix of an encoded frame is refused as too short,
/// naming the header length while the header is incomplete and the frame length after.
pub proof fn law_truncated_frame_is_insufficient(f: FrameModel, w: Seq<u8>, k: int)
    requires
        spec_to_bytes(f) == Ok::<Seq<u8>, CsiParseError>(w),
        0 <= k < w.len(),
    ensures
        spec_from_bytes(w.take(k)) == Err::<(FrameModel, int), CsiParseError>(
            CsiParseError::InsufficientData {
                needed: if k < 72 {
                    72usize
                } else {
                    w.len() as usize
                },
                got: k as usize,
            },
        ),
{
    lemma_encoded_frame_reads(f);
    let t = w.take(k);
    if k >= 72 {
        assert(t.subrange(0, 4) =~= w.subrange(0, 4));
        assert(t.subrange(6, 8) =~= w.subrange(6, 8));
        assert(t.subrange(8, 12) =~= w.subrange(8, 12));
        assert(t[4] == w[4] && t[5] == w[5]);
    }
}

/// Frames that decode pass validation, and take between 76 and
/// `MEDIATEK_CSI_MAX_FRAME_LEN` bytes of the input.
pub proof fn law_decoded_frames_are_valid(w: Seq<u8>, f: FrameModel, n: int)
    requires
        spec_from_bytes(w) == Ok::<(FrameModel, int), CsiParseError>((f, n)),
    ensures
        f.validate() is Ok,
        76 <= n <= w.len(),
        n <= MEDIATEK_CSI_MAX_FRAME_LEN,
{
}

proof fn lemma_bit_step_injective(a: u32, b: u32)
    ensures
        crc32_bit_step(a) == crc32_bit_step(b) ==> a == b,
{
    assert(((if a & 1 == 1 {
        (a >> 1) ^ 0xedb8_8320u32
    } else {
        a >> 1
    }) == (if b & 1 == 1 {
        (b >> 1) ^ 0xedb8_8320u32
    } else {
        b >> 1
    })) ==> a == b) by (bit_vector);
}

proof fn lemma_shifts_injective(a: u32, b: u32, n: nat)
    ensures
        crc32_shifts(a, n) == crc32_shifts(b, n) ==> a == b,
    decreases n,
{
    if n > 0 {
        lemma_shifts_injective(crc32_bit_step(a), crc32_bit_step(b), (n - 1) as nat);
        lemma_bit_step_injective(a, b);
    }
}

proof fn lemma_feed_injective(c1: u32, c2: u32, b1: u8, b2: u8)
    requires
        c1 != c2 || b1 != b2,
        c1 == c2 || b1 == b2,
    ensures
        crc32_feed_byte(c1, b1) != crc32_feed_byte(c2, b2),
{
    lemma_shifts_injective(c1 ^ (b1 as u32), c2 ^ (b2 as u32), 8);
    assert(((c1 != c2 || b1 != b2) && (c1 == c2 || b1 == b2)) ==> c1 ^ (b1 as u32) != c2 ^ (
    b2 as u32)) by (bit_vector);
}

/// Changing one byte always changes the CRC register.
proof fn lemma_register_differs(d1: Seq<u8>, d2: Seq<u8>, i: int)
    requires
        d1.len() == d2.len(),
        0 <= i < d1.len(),
        d1[i] != d2[i],
        forall|j: int| 0 <= j < d1.len() && j != i ==> d1[j] == d2[j],
    ensures
        crc32_register(d1) != crc32_register(d2),
    decreases d1.len(),
{
    let p1 = d1.drop_last();
    let p2 = d2.drop_last();
    if i == d1.len() - 1 {
        assert(p1 =~= p2);
        lemma_feed_injective(crc32_register(p1), crc32_register(p2), d1.last(), d2.last());
    } else {
        lemma_register_differs(p1, p2, i);
        lemma_feed_injective(crc32_register(p1), crc32_register(p2), d1.last(), d2.last());
    }
}

/// CRC-32 detects every change confined to one byte.
pub proof fn law_crc_detects_single_byte_change(d: Seq<u8>, i: int, b: u8)
    requires
        0 <= i < d.len(),
        b != d[i],
    ensures
        spec_crc32_ieee(d.update(i, b)) != spec_crc32_ieee(d),
{
    lemma_register_differs(d.update(i, b), d, i);
    let r1 = crc32_register(d.update(i, b));
    let r2 = crc32_register(d);
    assert(r1 != r2 ==> !r1 != !r2) by (bit_vector);
}

proof fn lemma_bit_step_linear(a: u32, b: u32)
    ensures
        crc32_bit_step(a ^ b) == crc32_bit_step(a) ^ crc32_bit_step(b),
{
    assert(crc32_bit_step(a ^ b) == crc32_bit_step(a) ^ crc32_bit_step(b)) by (bit_vector);
}

/// The register's shifts are linear over xor.
proof fn lemma_shifts_linear(a: u32, b: u32, n: nat)
    ensures
        crc32_shifts(a ^ b, n) == crc32_shifts(a, n) ^ crc32_shifts(b, n),
    decreases n,
{
    if n > 0 {
        lemma_bit_step_linear(a, b);
        lemma_shifts_linear(crc32_bit_step(a), crc32_bit_step(b), (n - 1) as nat);
    }
}

/// Eight shifts of a register whose low byte is clear only shift it.
proof fn lemma_shift_clear_byte(y: u32)
    requires
        y & 0xff == 0,
    ensures
        crc32_shifts(y, 8) == y >> 8,
{
    reveal_with_fuel(crc32_shifts, 9);
    let y1 = crc32_bit_step(y);
    let y2 = crc32_bit_step(y1);
    let y3 = crc32_bit_step(y2);
    let y4 = crc32_bit_step(y3);
    let y5 = crc32_bit_step(y4);
    let y6 = crc32_bit_step(y5);
    let y7 = crc32_bit_step(y6);
    let y8 = crc32_bit_step(y7);
    assert(y1 == y >> 1 && y1 & 0x7f == 0) by (bit_vector)
        requires
            y & 0xff == 0,
            y1 == crc32_bit_step(y),
    ;
    assert(y2 == y >> 2 && y2 & 0x3f == 0) by (bit_vector)
        requires
            y1 == y >> 1,
            y1 & 0x7f == 0,
            y2 == crc32_bit_step(y1),
    ;
    assert(y3 == y >> 3 && y3 & 0x1f == 0) by (bit_vector)
        requires
            y2 == y >> 2,
            y2 & 0x3f == 0,
            y3 == crc32_bit_step(y2),
    ;
    assert(y4 == y >> 4 && y4 & 0xf == 0) by (bit_vector)
        requires
            y3 == y >> 3,
            y3 & 0x1f == 0,
            y4 == crc32_bit_step(y3),
    ;
    assert(y5 == y >> 5 && y5 & 0x7 == 0) by (bit_vector)
        requires
            y4 == y >> 4,
            y4 & 0xf == 0,
            y5 == crc32_bit_step(y4),
    ;
    assert(y6 == y >> 6 && y6 & 0x3 == 0) by (bit_vector)
        requires
            y5 == y >> 5,
            y5 & 0x7 == 0,
            y6 == crc32_bit_step(y5),
    ;
    assert(y7 == y >> 7 && y7 & 0x1 == 0) by (bit_vector)
        requires
            y6 == y >> 6,
            y6 & 0x3 == 0,
            y7 == crc32_bit_step(y6),
    ;
    assert(y8 == y >> 8) by (bit_vector)
        requires
            y7 == y >> 7,
            y7 & 0x1 == 0,
            y8 == crc32_bit_step(y7),
    ;
}

/// Eight steps of the register, written out.
spec fn crc32_eight_steps(c: u32) -> u32 {
    let c1 = crc32_bit_step(c);
    let c2 = crc32_bit_step(c1);
    let c3 = crc32_bit_step(c2);
    let c4 = crc32_bit_step(c3);
    let c5 = crc32_bit_step(c4);
    let c6 = crc32_bit_step(c5);
    let c7 = crc32_bit_step(c6);
    crc32_bit_step(c7)
}

/// Eight shifts of the register `c` give `d`, checked step by step.
proof fn lemma_shift8_value(c: u32, d: u32)
    requires
        crc32_eight_steps(c) == d,
    ensures
        crc32_shifts(c, 8) == d,
{
    reveal_with_fuel(crc32_shifts, 9);
}

/// Feeding the low byte of `v` into register `r`.
proof fn lemma_feed_low_byte(r: u32, v: u32)
    ensures
        crc32_feed_byte(r, (v & 0xff) as u8) == crc32_shifts(r ^ v, 8) ^ (v >> 8),
{
    let x = r ^ v;
    let hi = v & 0xffff_ff00;
    assert(r ^ ((v & 0xff) as u8 as u32) == x ^ hi && hi & 0xff == 0 && hi >> 8 == v >> 8)
        by (bit_vector)
        requires
            x == r ^ v,
            hi == v & 0xffff_ff00,
    ;
    lemma_shifts_linear(x, hi, 8);
    lemma_shift_clear_byte(hi);
}

/// The CRC residue: a message followed by its own CRC, least significant byte
/// first, always has the CRC `0x2144DF1C`.
pub proof fn law_crc_residue(data: Seq<u8>)
    ensures
        ({
            let c = spec_crc32_ieee(data);
            spec_crc32_ieee(
                data + seq![
                    (c & 0xff) as u8,
                    ((c >> 8) & 0xff) as u8,
                    ((c >> 16) & 0xff) as u8,
                    ((c >> 24) & 0xff) as u8,
                ],
            ) == 0x2144_df1cu32
        }),
{
    let r = crc32_register(data);
    let w = spec_crc32_ieee(data);
    assert(w == !r);
    let b0 = (w & 0xff) as u8;
    let b1 = ((w >> 8) & 0xff) as u8;
    let b2 = ((w >> 16) & 0xff) as u8;
    let b3 = ((w >> 24) & 0xff) as u8;
    let s1 = data.push(b0);
    let s2 = s1.push(b1);
    let s3 = s2.push(b2);
    let s4 = s3.push(b3);
    assert(s1.drop_last() =~= data);
    assert(s2.drop_last() =~= s1);
    assert(s3.drop_last() =~= s2);
    assert(s4.drop_last() =~= s3);
    assert(data + seq![b0, b1, b2, b3] =~= s4);
    let v1 = w >> 8;
    let v2 = w >> 16;
    let v3 = w >> 24;
    assert(v1 >> 8 == v2 && v2 >> 8 == v3 && v3 >> 8 == 0 && r ^ w == 0xffff_ffffu32 && b1 == (
    v1 & 0xff) as u8 && b2 == (v2 & 0xff) as u8 && b3 == (v3 & 0xff) as u8) by (bit_vector)
        requires
            w == !r,
            v1 == w >> 8,
            v2 == w >> 16,
            v3 == w >> 24,
            b1 == ((w >> 8) & 0xff) as u8,
            b2 == ((w >> 16) & 0xff) as u8,
            b3 == ((w >> 24) & 0xff) as u8,
    ;
    let x1 = crc32_shifts(0xffff_ffffu32, 8);
    let x2 = crc32_shifts(x1, 8);
    let x3 = crc32_shifts(x2, 8);
    let x4 = crc32_shifts(x3, 8);
    lemma_feed_low_byte(r, w);
    let r1 = crc32_register(s1);
    assert(r1 == x1 ^ v1);
    lemma_feed_low_byte(r1, v1);
    assert(r1 ^ v1 == x1) by (bit_vector)
        requires
            r1 == x1 ^ v1,
    ;
    let r2 = crc32_register(s2);
    assert(r2 == x2 ^ v2);
    lemma_feed_low_byte(r2, v2);
    assert(r2 ^ v2 == x2) by (bit_vector)
        requires
            r2 == x2 ^ v2,
    ;
    let r3 = crc32_register(s3);
    assert(r3 == x3 ^ v3);
    lemma_feed_low_byte(r3, v3);
    assert(r3 ^ v3 == x3) by (bit_vector)
        requires
            r3 == x3 ^ v3,
    ;
    let r4 = crc32_register(s4);
    assert(r4 == x4 ^ 0u32);
    assert(crc32_eight_steps(0xffff_ffffu32) == 0x2dfd_1072u32) by (bit_vector);
    lemma_shift8_value(0xffff_ffffu32, 0x2dfd_1072u32);
    assert(crc32_eight_steps(0x2dfd_1072u32) == 0xbe26_ed00u32) by (bit_vector);
    lemma_shift8_value(0x2dfd_1072u32, 0xbe26_ed00u32);
    assert(crc32_eight_steps(0xbe26_ed00u32) == 0x00be_26edu32) by (bit_vector);
    lemma_shift8_value(0xbe26_ed00u32, 0x00be_26edu32);
    assert(crc32_eight_steps(0x00be_26edu32) == 0xdebb_20e3u32) by (bit_vector);
    lemma_shift8_value(0x00be_26edu32, 0xdebb_20e3u32);
    assert(!(0xdebb_20e3u32 ^ 0u32) == 0x2144_df1cu32) by (bit_vector);
}

/// Corruption: changing any one byte of an encoded frame after the length field,
/// CRC trailer included, makes decoding fail with a CRC mismatch between the
/// stored CRC and the CRC of the bytes before it.
pub proof fn law_corrupted_frame_is_rejected(f: FrameModel, w: Seq<u8>, i: int, b: u8)
    requires
        spec_to_bytes(f) == Ok::<Seq<u8>, CsiParseError>(w),
        12 <= i < w.len(),
        b != w[i],
    ensures
        spec_from_bytes(w.update(i, b)) is Err,
        spec_from_bytes(w.update(i, b)) matches Err(CsiParseError::CrcMismatch { expected, actual })
            && expected == le_u32_at(w.update(i, b), w.len() - 4) && actual == spec_crc32_ieee(
            w.update(i, b).take(w.len() - 4),
        ),
        i < w.len() - 4 ==> (spec_from_bytes(w.update(i, b)) matches Err(
            CsiParseError::CrcMismatch { expected, .. },
        ) && expected == spec_crc32_ieee(w.take(w.len() - 4))),
{
    lemma_encoded_frame_reads(f);
    let len = w.len() as int;
    let v = w.update(i, b);
    assert(v.subrange(0, 4) =~= w.subrange(0, 4));
    assert(v.subrange(6, 8) =~= w.subrange(6, 8));
    assert(v.subrange(8, 12) =~= w.subrange(8, 12));
    assert(v[4] == w[4] && v[5] == w[5]);
    if i < len - 4 {
        assert(v.subrange(len - 4, len) =~= w.subrange(len - 4, len));
        assert(v.take(len - 4) =~= w.take(len - 4).update(i, b));
        law_crc_detects_single_byte_change(w.take(len - 4), i, b);
    } else {
        assert(v.take(len - 4) =~= w.take(len - 4));
        lemma_from_le_lengths();
        assert(v.subrange(len - 4, len)[i - (len - 4)] != w.subrange(len - 4, len)[i - (len - 4)]);
        assert(v.subrange(len - 4, len) != w.subrange(len - 4, len));
        assert(le32(spec_u32_from_le_bytes(v.subrange(len - 4, len))) == v.subrange(len - 4, len));
        assert(le32(spec_u32_from_le_bytes(w.subrange(len - 4, len))) == w.subrange(len - 4, len));
        assert(le_u32_at(v, len - 4) != le_u32_at(w, len - 4));
    }
}


proof fn lemma_from_le_lengths()
    ensures
        forall|b: Seq<u8>| b.len() == 2 ==> #[trigger] le16(spec_u16_from_le_bytes(b)) == b,
        forall|b: Seq<u8>| b.len() == 4 ==> #[trigger] le32(spec_u32_from_le_bytes(b)) == b,
        forall|b: Seq<u8>| b.len() == 8 ==> #[trigger] le64(spec_u64_from_le_bytes(b)) == b,
{
    lemma_auto_spec_u16_to_from_le_bytes();
    lemma_auto_spec_u32_to_from_le_bytes();
    lemma_auto_spec_u64_to_from_le_bytes();
}

proof fn lemma_u8_i8(x: u8)
    ensures
        (x as i8) as u8 == x,
{
    assert((x as i8) as u8 == x) by (bit_vector);
}

proof fn lemma_u16_i16(x: u16)
    ensures
        (x as i16) as u16 == x,
{
    assert((x as i16) as u16 == x) by (bit_vector);
}

/// Re-encoding decoded RSSI values gives back their bytes.
proof fn lemma_rssi_reencode(w: Seq<u8>, start: int, n: nat)
    requires
        0 <= start,
        start + n <= w.len(),
    ensures
        rssi_bytes(rssi_at(w, start, n)) == w.subrange(start, start + n),
{
    assert forall|k: int| 0 <= k < n implies #[trigger] rssi_bytes(rssi_at(w, start, n))[k] == w[start
        + k] by {
        lemma_u8_i8(w[start + k]);
    }
    assert(rssi_bytes(rssi_at(w, start, n)) =~= w.subrange(start, start + n));
}

/// Re-encoding decoded complex `i16` samples gives back their bytes.
proof fn lemma_i16_reencode(w: Seq<u8>, start: int, n: nat)
    requires
        0 <= start,
        start + 4 * n <= w.len(),
    ensures
        i16_samples_bytes(i16_samples_at(w, start, n)) == w.subrange(start, start + 4 * n),
    decreases n,
{
    lemma_from_le_lengths();
    let v = i16_samples_at(w, start, n);
    if n == 0 {
        assert(w.subrange(start, start) =~= Seq::<u8>::empty());
    } else {
        let m = (n - 1) as nat;
        lemma_i16_reencode(w, start, m);
        assert(v.drop_last() =~= i16_samples_at(w, start, m));
        let o = start + 4 * m;
        let a = w.subrange(o, o + 2);
        let b = w.subrange(o + 2, o + 4);
        lemma_u16_i16(spec_u16_from_le_bytes(a));
        lemma_u16_i16(spec_u16_from_le_bytes(b));
        assert(le16(v.last()[0] as u16) == a);
        assert(le16(v.last()[1] as u16) == b);
        assert(w.subrange(start, o) + a + b =~= w.subrange(start, start + 4 * n));
    }
}

/// Re-encoding decoded complex `f32` samples gives back their bytes.
proof fn lemma_f32_reencode(w: Seq<u8>, start: int, n: nat)
    requires
        0 <= start,
        start + 8 * n <= w.len(),
    ensures
        f32_samples_bytes(f32_samples_at(w, start, n)) == w.subrange(start, start + 8 * n),
    decreases n,
{
    lemma_from_le_lengths();
    let v = f32_samples_at(w, start, n);
    if n == 0 {
        assert(w.subrange(start, start) =~= Seq::<u8>::empty());
    } else {
        let m = (n - 1) as nat;
        lemma_f32_reencode(w, start, m);
        assert(v.drop_last() =~= f32_samples_at(w, start, m));
        let o = start + 8 * m;
        let a = w.subrange(o, o + 4);
        let b = w.subrange(o + 4, o + 8);
        assert(le32(v.last()[0]) == a);
        assert(le32(v.last()[1]) == b);
        assert(w.subrange(start, o) + a + b =~= w.subrange(start, start + 8 * n));
    }
}


/// The decoded payload re-encodes to the payload bytes it was read from.
proof fn lemma_payload_reencode(
    w: Seq<u8>,
    format: ElementFormat,
    rc: nat,
    elements: nat,
    pl: nat,
    p: PayloadModel,
)
    requires
        72 + pl <= w.len(),
        decode_payload(w, format, rc, elements, pl) == Ok::<PayloadModel, CsiParseError>(p),
    ensures
        payload_bytes(p) == w.subrange(72, 72 + pl as int),
        p.encoded_len() == pl,
        p.format() == format,
        p is Bytes || p.rssi().len() == rc,
{
    match format {
        ElementFormat::Bytes => {},
        ElementFormat::ComplexI16 => {
            lemma_rssi_reencode(w, 72, rc);
            lemma_i16_reencode(w, 72 + rc as int, elements);
            assert(w.subrange(72, 72 + rc as int) + w.subrange(72 + rc as int, 72 + rc as int + 4 * elements as int)
                =~= w.subrange(72, 72 + pl as int));
        },
        ElementFormat::ComplexF32 => {
            lemma_rssi_reencode(w, 72, rc);
            lemma_f32_reencode(w, 72 + rc as int, elements);
            assert(w.subrange(72, 72 + rc as int) + w.subrange(72 + rc as int, 72 + rc as int + 8 * elements as int)
                =~= w.subrange(72, 72 + pl as int));
        },
    }
}

/// A header whose every field holds what `header_bytes` would write is exactly
/// what `header_bytes` writes.
proof fn lemma_header_matches(w: Seq<u8>, f: FrameModel, frame_len: u32, payload_len: u32)
    requires
        w.len() >= 72,
        le_u32_at(w, 0) == MEDIATEK_CSI_MAGIC,
        w[4] == MEDIATEK_CSI_VERSION,
        w[5] == report_kind_code(f.report_kind),
        le_u16_at(w, 6) == 72,
        le_u32_at(w, 8) == frame_len,
        le_u32_at(w, 12) == f.sequence,
        le_u64_at(w, 16) == f.timestamp_us,
        le_u64_at(w, 24) == f.device_id,
        le_u16_at(w, 32) == chipset_code(f.chipset),
        le_u16_at(w, 34) == f.bandwidth_mhz,
        le_u32_at(w, 36) == f.center_freq_khz,
        le_u16_at(w, 40) == f.flags,
        w[42] == f.tx_count,
        w[43] == f.rx_count,
        w[44] == element_format_code(f.payload.format()),
        w[45] == ppdu_type_code(f.ppdu_type),
        le_u16_at(w, 46) == f.subcarrier_count,
        w[48] == f.payload.rssi().len() as u8,
        w[49] == f.noise_floor_dbm as u8,
        le_u16_at(w, 50) == 0,
        le_u32_at(w, 52) == f.scale_bits,
        le_u32_at(w, 56) == f.subcarrier_spacing_hz_bits,
        le_u32_at(w, 60) == f.calibration_id,
        le_u32_at(w, 64) == payload_len,
        le_u32_at(w, 68) == 0,
    ensures
        header_bytes(f, frame_len, payload_len) == w.subrange(0, 72),
{
    lemma_from_le_lengths();
    let h = header_bytes(f, frame_len, payload_len);
    let g = (((w.subrange(0, 4).push(w[4]).push(w[5]) + w.subrange(6, 8) + w.subrange(8, 12)
        + w.subrange(12, 16) + w.subrange(16, 24) + w.subrange(24, 32) + w.subrange(32, 34)
        + w.subrange(34, 36) + w.subrange(36, 40) + w.subrange(40, 42)).push(w[42]).push(
        w[43],
    ).push(w[44]).push(w[45]) + w.subrange(46, 48)).push(w[48]).push(w[49]) + w.subrange(50, 52)
        + w.subrange(52, 56) + w.subrange(56, 60) + w.subrange(60, 64) + w.subrange(64, 68)
        + w.subrange(68, 72));
    assert(h == g);
    assert(g =~= w.subrange(0, 72));
}

/// Canonical encoding: a decoded frame re-encodes to exactly the bytes it was
/// decoded from, when the reserved header fields are zero and, for raw byte
/// payloads, the RSSI count is zero (decoding ignores those bytes).
pub proof fn law_reencode_decoded(w: Seq<u8>, f: FrameModel, n: int)
    requires
        spec_from_bytes(w) == Ok::<(FrameModel, int), CsiParseError>((f, n)),
        w.len() >= 72 ==> le_u16_at(w, 50) == 0 && le_u32_at(w, 68) == 0,
        f.payload is Bytes ==> w[48] == 0,
    ensures
        spec_to_bytes(f) == Ok::<Seq<u8>, CsiParseError>(w.take(n)),
{
    lemma_from_le_lengths();
    lemma_le_lengths();
    let kind = report_kind_from_code(w[5]).unwrap();
    let chipset = chipset_from_code(le_u16_at(w, 32)).unwrap();
    let format = element_format_from_code(w[44]).unwrap();
    let ppdu = ppdu_type_from_code(w[45]).unwrap();
    let pl = le_u32_at(w, 64) as nat;
    let rc = w[48] as nat;
    let elements = w[42] as nat * w[43] as nat * le_u16_at(w, 46) as nat;
    let p = decode_payload(w, format, rc, elements, pl).unwrap();
    assert(f == header_frame(w, kind, chipset, ppdu, p));
    assert(n == le_u32_at(w, 8));
    lemma_payload_reencode(w, format, rc, elements, pl, p);
    lemma_u8_i8(w[49]);
    lemma_header_matches(w, f, n as u32, pl as u32);
    let h = header_bytes(f, n as u32, pl as u32);
    let body = h + payload_bytes(f.payload);
    assert(body =~= w.take(n - 4));
    assert(le32(spec_crc32_ieee(body)) == w.subrange(n - 4, n));
    assert(encode_frame(f) =~= w.take(n));
}

/// Two inputs that agree on their first `n` bytes agree on every read inside them.
proof fn lemma_same_prefix(a: Seq<u8>, b: Seq<u8>, n: int)
    requires
        0 <= n <= a.len(),
        n <= b.len(),
        a.take(n) == b.take(n),
    ensures
        forall|i: int| 0 <= i < n ==> #[trigger] a[i] == b[i],
        forall|i: int, j: int| 0 <= i <= j <= n ==> #[trigger] a.subrange(i, j) == b.subrange(i, j),
{
    assert forall|i: int| 0 <= i < n implies #[trigger] a[i] == b[i] by {
        assert(a[i] == a.take(n)[i]);
        assert(b[i] == b.take(n)[i]);
    }
    assert forall|i: int, j: int| 0 <= i <= j <= n implies #[trigger] a.subrange(i, j) == b.subrange(
        i,
        j,
    ) by {
        assert(a.subrange(i, j) =~= b.subrange(i, j));
    }
}

/// The payload read from inputs that agree on the bytes it occupies.
proof fn lemma_payload_same_prefix(
    a: Seq<u8>,
    b: Seq<u8>,
    n: int,
    format: ElementFormat,
    rssi_count: nat,
    elements: nat,
    payload_len: nat,
)
    requires
        0 <= n <= a.len(),
        n <= b.len(),
        a.take(n) == b.take(n),
        72 + payload_len <= n,
    ensures
        decode_payload(a, format, rssi_count, elements, payload_len) == decode_payload(
            b,
            format,
            rssi_count,
            elements,
            payload_len,
        ),
{
    lemma_same_prefix(a, b, n);
    let start = 72int;
    if rssi_count <= payload_len {
        assert(rssi_at(a, start, rssi_count) =~= rssi_at(b, start, rssi_count));
    }
    match format {
        ElementFormat::Bytes => {},
        ElementFormat::ComplexI16 => {
            if rssi_count <= payload_len && payload_len - rssi_count == elements * 4 {
                let s = start + rssi_count;
                assert forall|k: int| 0 <= k < elements implies #[trigger] i16_samples_at(
                    a,
                    s,
                    elements,
                )[k] == i16_samples_at(b, s, elements)[k] by {
                    assert(le_u16_at(a, s + 4 * k) == le_u16_at(b, s + 4 * k));
                    assert(le_u16_at(a, s + 4 * k + 2) == le_u16_at(b, s + 4 * k + 2));
                }
                assert(i16_samples_at(a, s, elements) =~= i16_samples_at(b, s, elements));
            }
        },
        ElementFormat::ComplexF32 => {
            if rssi_count <= payload_len && payload_len - rssi_count == elements * 8 {
                let s = start + rssi_count;
                assert forall|k: int| 0 <= k < elements implies #[trigger] f32_samples_at(
                    a,
                    s,
                    elements,
                )[k] == f32_samples_at(b, s, elements)[k] by {
                    assert(le_u32_at(a, s + 8 * k) == le_u32_at(b, s + 8 * k));
                    assert(le_u32_at(a, s + 8 * k + 4) == le_u32_at(b, s + 8 * k + 4));
                }
                assert(f32_samples_at(a, s, elements) =~= f32_samples_at(b, s, elements));
            }
        },
    }
}

/// Decoding reads nothing past the frame: any input that begins with the same
/// `n` bytes as one that decodes to `f` of length `n` decodes to the same frame
/// and length, whatever follows.
pub proof fn law_decoding_reads_only_its_frame(w: Seq<u8>, f: FrameModel, n: int, v: Seq<u8>)
    requires
        spec_from_bytes(w) == Ok::<(FrameModel, int), CsiParseError>((f, n)),
        n <= v.len(),
        v.take(n) == w.take(n),
    ensures
        spec_from_bytes(v) == Ok::<(FrameModel, int), CsiParseError>((f, n)),
{
    lemma_same_prefix(w, v, n);
    assert(w.subrange(0, 4) == v.subrange(0, 4));
    assert(w.subrange(6, 8) == v.subrange(6, 8));
    assert(w.subrange(8, 12) == v.subrange(8, 12));
    assert(w[4] == v[4] && w[5] == v[5]);
    assert(w.take(n - 4) =~= v.take(n - 4));
    assert(w.subrange(n - 4, n) == v.subrange(n - 4, n));
    let rk = report_kind_from_code(w[5])->Ok_0;
    assert(w.subrange(32, 34) == v.subrange(32, 34));
    assert(w.subrange(64, 68) == v.subrange(64, 68));
    assert(w.subrange(46, 48) == v.subrange(46, 48));
    assert(w[42] == v[42] && w[43] == v[43] && w[44] == v[44] && w[45] == v[45] && w[48] == v[48]);
    let payload_len = le_u32_at(w, 64);
    let elements = w[42] as nat * w[43] as nat * le_u16_at(w, 46) as nat;
    if 72 + payload_len + 4 == n {
        lemma_payload_same_prefix(
            w,
            v,
            n,
            element_format_from_code(w[44])->Ok_0,
            w[48] as nat,
            elements,
            payload_len as nat,
        );
    }
    assert(w.subrange(12, 16) == v.subrange(12, 16));
    assert(w.subrange(16, 24) == v.subrange(16, 24));
    assert(w.subrange(24, 32) == v.subrange(24, 32));
    assert(w.subrange(34, 36) == v.subrange(34, 36));
    assert(w.subrange(36, 40) == v.subrange(36, 40));
    assert(w.subrange(40, 42) == v.subrange(40, 42));
    assert(w[49] == v[49]);
    assert(w.subrange(52, 56) == v.subrange(52, 56));
    assert(w.subrange(56, 60) == v.subrange(56, 60));
    assert(w.subrange(60, 64) == v.subrange(60, 64));
    assert(decode_checked_frame(v, rk, n) == decode_checked_frame(w, rk, n));
}

/// Wire codes: report kinds, chipsets, element formats and PPDU types are numbered
/// from 1 in the order in which the wire format lists them (Csi, Capabilities;
/// MT7981, MT7986, MT7988; ComplexI16, ComplexF32, Bytes; Ht, Vht, HeSu, HeMu, Eht).
/// Decoding a type's code gives the type back, and every other code is refused
/// as unknown, with the code in the error.
pub proof fn law_wire_codes()
    ensures
        report_kind_code(ReportKind::Csi) == 1,
        report_kind_code(ReportKind::Capabilities) == 2,
        chipset_code(ChipsetProfile::Mt7981Mt7976) == 1,
        chipset_code(ChipsetProfile::Mt7986Mt7975) == 2,
        chipset_code(ChipsetProfile::Mt7988Mt7996) == 3,
        element_format_code(ElementFormat::ComplexI16) == 1,
        element_format_code(ElementFormat::ComplexF32) == 2,
        element_format_code(ElementFormat::Bytes) == 3,
        ppdu_type_code(PpduType::Ht) == 1,
        ppdu_type_code(PpduType::Vht) == 2,
        ppdu_type_code(PpduType::HeSu) == 3,
        ppdu_type_code(PpduType::HeMu) == 4,
        ppdu_type_code(PpduType::Eht) == 5,
        forall|k: ReportKind| report_kind_from_code(#[trigger] report_kind_code(k)) == Ok::<
            ReportKind,
            CsiParseError,
        >(k),
        forall|c: ChipsetProfile| chipset_from_code(#[trigger] chipset_code(c)) == Ok::<
            ChipsetProfile,
            CsiParseError,
        >(c),
        forall|e: ElementFormat| element_format_from_code(#[trigger] element_format_code(e)) == Ok::<
            ElementFormat,
            CsiParseError,
        >(e),
        forall|p: PpduType| ppdu_type_from_code(#[trigger] ppdu_type_code(p)) == Ok::<
            PpduType,
            CsiParseError,
        >(p),
        forall|v: u8|
            !(1 <= v <= 2) ==> #[trigger] report_kind_from_code(v) == Err::<ReportKind, CsiParseError>(
                CsiParseError::UnknownReportKind(v),
            ),
        forall|v: u16|
            !(1 <= v <= 3) ==> #[trigger] chipset_from_code(v) == Err::<ChipsetProfile, CsiParseError>(
                CsiParseError::UnknownChipset(v),
            ),
        forall|v: u8|
            !(1 <= v <= 3) ==> #[trigger] element_format_from_code(v) == Err::<
                ElementFormat,
                CsiParseError,
            >(CsiParseError::UnknownElementFormat(v)),
        forall|v: u8|
            !(1 <= v <= 5) ==> #[trigger] ppdu_type_from_code(v) == Err::<PpduType, CsiParseError>(
                CsiParseError::UnknownPpduType(v),
            ),
{
}

/// An encoded frame carries the wire codes of its kind (byte 5), chipset (bytes
/// 32..34), element format (byte 44) and PPDU type (byte 45), by their numbers.
pub proof fn law_encoded_codes(f: FrameModel, w: Seq<u8>)
    requires
        spec_to_bytes(f) == Ok::<Seq<u8>, CsiParseError>(w),
    ensures
        w[5] == (if f.report_kind == ReportKind::Csi { 1u8 } else { 2u8 }),
        le_u16_at(w, 32) == match f.chipset {
            ChipsetProfile::Mt7981Mt7976 => 1u16,
            ChipsetProfile::Mt7986Mt7975 => 2u16,
            ChipsetProfile::Mt7988Mt7996 => 3u16,
        },
        w[44] == match f.payload {
            PayloadModel::ComplexI16 { .. } => 1u8,
            PayloadModel::ComplexF32 { .. } => 2u8,
            PayloadModel::Bytes(_) => 3u8,
        },
        w[45] == match f.ppdu_type {
            PpduType::Ht => 1u8,
            PpduType::Vht => 2u8,
            PpduType::HeSu => 3u8,
            PpduType::HeMu => 4u8,
            PpduType::Eht => 5u8,
        },
{
    lemma_encoded_frame_reads(f);
}

/// A decoded frame's kind, chipset, element format and PPDU type are the ones whose
/// numbers its bytes 5, 32..34, 44 and 45 hold.
pub proof fn law_decoded_codes(w: Seq<u8>, f: FrameModel, n: int)
    requires
        spec_from_bytes(w) == Ok::<(FrameModel, int), CsiParseError>((f, n)),
    ensures
        w[5] == (if f.report_kind == ReportKind::Csi { 1u8 } else { 2u8 }),
        le_u16_at(w, 32) == match f.chipset {
            ChipsetProfile::Mt7981Mt7976 => 1u16,
            ChipsetProfile::Mt7986Mt7975 => 2u16,
            ChipsetProfile::Mt7988Mt7996 => 3u16,
        },
        w[44] == match f.payload {
            PayloadModel::ComplexI16 { .. } => 1u8,
            PayloadModel::ComplexF32 { .. } => 2u8,
            PayloadModel::Bytes(_) => 3u8,
        },
        w[45] == match f.ppdu_type {
            PpduType::Ht => 1u8,
            PpduType::Vht => 2u8,
            PpduType::HeSu => 3u8,
            PpduType::HeMu => 4u8,
            PpduType::Eht => 5u8,
        },
{
}

/// The channel widths: a frame is refused for its bandwidth exactly when the
/// bandwidth is not 20, 40, 80 or 160 MHz, and the error carries the bandwidth.
pub proof fn law_bandwidths(f: FrameModel)
    ensures
        (f.validate() matches Err(CsiParseError::InvalidBandwidth(_))) <==> !(f.bandwidth_mhz == 20
            || f.bandwidth_mhz == 40 || f.bandwidth_mhz == 80 || f.bandwidth_mhz == 160),
        f.validate() matches Err(CsiParseError::InvalidBandwidth(b)) ==> b == f.bandwidth_mhz,
{
}

/// The chain limits: MT7981 supports at most 3 TX and RX chains, MT7986 and MT7988
/// at most 4; a frame with a supported bandwidth and more chains (or none) is
/// refused for its dimensions.
pub proof fn law_chain_limits(f: FrameModel)
    ensures
        spec_max_chains(f.chipset) == (if f.chipset == ChipsetProfile::Mt7981Mt7976 {
            3u8
        } else {
            4u8
        }),
        valid_bandwidth(f.bandwidth_mhz) && (f.tx_count == 0 || f.rx_count == 0 || f.tx_count
            > spec_max_chains(f.chipset) || f.rx_count > spec_max_chains(f.chipset))
            ==> f.validate() == Err::<(), CsiParseError>(CsiParseError::InvalidDimensions),
{
}

/// The wire format's constants: magic "MTC1" read little-endian (0x3143544d),
/// version 1, a 72-byte header, a 4-byte CRC, frames of at most 65507 bytes (one
/// UDP datagram), at most 16384 samples, and the flag bits calibrated 1,
/// saturated 2, time-synchronized 4, dropped-predecessor 8 and synthetic 0x8000.
pub proof fn law_wire_constants()
    ensures
        MEDIATEK_CSI_MAGIC == 0x3143_544d,
        MEDIATEK_CSI_VERSION == 1,
        MEDIATEK_CSI_HEADER_LEN == 72,
        MEDIATEK_CSI_CRC_LEN == 4,
        MEDIATEK_CSI_MAX_FRAME_LEN == 65_507,
        MEDIATEK_CSI_MAX_ELEMENTS == 16_384,
        CsiFlags::CALIBRATED == 1,
        CsiFlags::SATURATED == 2,
        CsiFlags::TIME_SYNCHRONIZED == 4,
        CsiFlags::DROPPED_PREDECESSOR == 8,
        CsiFlags::SYNTHETIC == 0x8000,
{
}

} // verus!
