use vstd::prelude::*;
use crate::codec::{
    push_u32_le, push_u64_le, read_u32_le, read_u64_le, spec_u32_from_le, spec_u32_le, spec_u64_from_le,
    spec_u64_le, lemma_u32_le_roundtrip, lemma_u64_le_roundtrip,
};
use crate::comm::collective::{CommError, Communicator, spec_bytes_result};
use crate::precision::config::Fp8Format;

verus! {

/// A block quantized to FP8 for the wire: its dimensions, the FP8 format, the bit pattern of
/// the single-precision scale factor, and the FP8 bytes.
#[derive(Debug, PartialEq, Eq)]
pub struct Fp8Payload {
    pub rows: usize,
    pub cols: usize,
    pub format: Fp8Format,
    pub scale_bits: u32,
    pub data: Vec<u8>,
}

/// The mathematical value of an [`Fp8Payload`].
pub struct Fp8PayloadView {
    pub rows: usize,
    pub cols: usize,
    pub format: Fp8Format,
    pub scale_bits: u32,
    pub data: Seq<u8>,
}

impl View for Fp8Payload {
    type V = Fp8PayloadView;

    open spec fn view(&self) -> Fp8PayloadView {
        Fp8PayloadView {
            rows: self.rows,
            cols: self.cols,
            format: self.format,
            scale_bits: self.scale_bits,
            data: self.data@,
        }
    }
}

/// The byte that stands for a format on the wire.
pub open spec fn spec_format_byte(format: Fp8Format) -> u8 {
    match format {
        Fp8Format::E4M3 => 0,
        Fp8Format::E5M2 => 1,
    }
}

/// The format a wire byte stands for: 1 is E5M2, anything else E4M3.
pub open spec fn spec_format_of_byte(b: u8) -> Fp8Format {
    if b == 1 {
        Fp8Format::E5M2
    } else {
        Fp8Format::E4M3
    }
}

/// Length of the fixed part of a compressed frame.
pub const FRAME_HEADER_LEN: usize = 29;

/// The compressed frame of a payload: rows and cols (8 bytes each), the format byte, the
/// scale (4 bytes), the data length (8 bytes), then the data; numbers little-endian.
pub open spec fn spec_encode_payload(p: Fp8PayloadView) -> Seq<u8> {
    spec_u64_le(p.rows as u64) + spec_u64_le(p.cols as u64) + seq![spec_format_byte(p.format)]
        + spec_u32_le(p.scale_bits) + spec_u64_le(p.data.len() as u64) + p.data
}

/// The data length a frame announces.
pub open spec fn spec_announced_data_len(b: Seq<u8>) -> usize {
    spec_u64_from_le(b.subrange(21, 29)) as usize
}

/// The payload a frame holds, or `None` when the frame is shorter than its header or than
/// the data it announces.
pub open spec fn spec_decode_payload(b: Seq<u8>) -> Option<Fp8PayloadView> {
    if b.len() < 29 || 29 + spec_announced_data_len(b) > b.len() {
        None
    } else {
        Some(
            Fp8PayloadView {
                rows: spec_u64_from_le(b.subrange(0, 8)) as usize,
                cols: spec_u64_from_le(b.subrange(8, 16)) as usize,
                format: spec_format_of_byte(b[16]),
                scale_bits: spec_u32_from_le(b.subrange(17, 21)),
                data: b.subrange(29, 29 + spec_announced_data_len(b)),
            },
        )
    }
}

/// Decoding the compressed frame of a payload gives the payload back.
pub proof fn lemma_payload_roundtrip(p: Fp8PayloadView)
    requires
        p.data.len() <= usize::MAX,
    ensures
        spec_decode_payload(spec_encode_payload(p)) == Some(p),
{
    let b = spec_encode_payload(p);
    lemma_u64_le_roundtrip(p.rows as u64);
    lemma_u64_le_roundtrip(p.cols as u64);
    lemma_u32_le_roundtrip(p.scale_bits);
    lemma_u64_le_roundtrip(p.data.len() as u64);
    assert(b.subrange(0, 8) =~= spec_u64_le(p.rows as u64));
    assert(b.subrange(8, 16) =~= spec_u64_le(p.cols as u64));
    assert(b.subrange(17, 21) =~= spec_u32_le(p.scale_bits));
    assert(b.subrange(21, 29) =~= spec_u64_le(p.data.len() as u64));
    assert((p.rows as u64) as usize == p.rows && (p.cols as u64) as usize == p.cols);
    assert((p.data.len() as u64) as usize == p.data.len());
    assert(b.subrange(29, 29 + p.data.len() as int) =~= p.data);
    assert(spec_format_of_byte(spec_format_byte(p.format)) == p.format);
    let d = spec_decode_payload(b).unwrap();
    assert(d.rows == p.rows && d.cols == p.cols && d.format == p.format && d.scale_bits == p.scale_bits
        && d.data == p.data);
}

/// `r` is what a link hands back for the outcome `received` of a receive: the payload the
/// received frame holds, `MalformedFrame` where it holds none, or the receive's own error.
pub open spec fn spec_payload_received(received: Result<Seq<u8>, CommError>, r: Result<Fp8Payload, CommError>) -> bool {
    match received {
        Ok(b) => match spec_decode_payload(b) {
            Some(v) => r is Ok && r->Ok_0@ == v,
            None => r is Err && r->Err_0 is MalformedFrame,
        },
        Err(e) => r is Err && r->Err_0 == e,
    }
}

/// Sends and receives the activations and gradients of pipeline stages over a
/// communicator, as FP8 payloads in compressed frames.
pub struct PipelineComm<C: Communicator> {
    comm: C,
    fp8_format: Fp8Format,
}

impl<C: Communicator> PipelineComm<C> {
    /// The communicator this pipeline link sends through.
    pub closed spec fn spec_comm(&self) -> C {
        self.comm
    }

    /// The FP8 format of the payloads this link sends.
    pub closed spec fn spec_format(&self) -> Fp8Format {
        self.fp8_format
    }

    /// A link over `comm` that sends E4M3 payloads.
    pub fn new(comm: C) -> (r: Self)
        ensures
            r.spec_comm() == comm,
            r.spec_format() == Fp8Format::E4M3,
    {
        Self { comm, fp8_format: Fp8Format::E4M3 }
    }

    /// The same link, sending payloads in `format`.
    pub fn with_fp8_format(self, format: Fp8Format) -> (r: Self)
        ensures
            r.spec_comm() == self.spec_comm(),
            r.spec_format() == format,
    {
        Self { comm: self.comm, fp8_format: format }
    }

    /// The FP8 format of the payloads this link sends.
    pub fn fp8_format(&self) -> (r: Fp8Format)
        ensures
            r == self.spec_format(),
    {
        self.fp8_format
    }

    /// The compressed frame of a payload in this link's format.
    pub fn compress_stage_data(&self, payload: &Fp8Payload) -> (r: Vec<u8>)
        requires
            payload.format == self.spec_format(),
        ensures
            r@ == spec_encode_payload(payload@),
    {
        let mut bytes: Vec<u8> = Vec::new();
        push_u64_le(&mut bytes, payload.rows as u64);
        push_u64_le(&mut bytes, payload.cols as u64);
        let format_byte: u8 = match self.fp8_format {
            Fp8Format::E4M3 => 0,
            Fp8Format::E5M2 => 1,
        };
        bytes.push(format_byte);
        push_u32_le(&mut bytes, payload.scale_bits);
        push_u64_le(&mut bytes, payload.data.len() as u64);
        let ghost header = bytes@;
        let mut i: usize = 0;
        while i < payload.data.len()
            invariant
                i <= payload.data@.len(),
                bytes@ == header + payload.data@.take(i as int),
            decreases payload.data@.len() - i,
        {
            bytes.push(payload.data[i]);
            i = i + 1;
            assert(bytes@ =~= header + payload.data@.take(i as int));
        }
        assert(payload.data@.take(i as int) =~= payload.data@);
        assert(bytes@ =~= spec_encode_payload(payload@));
        bytes
    }

    /// The payload of a compressed frame; `MalformedFrame` when the frame is shorter than
    /// its header or than the data it announces.
    pub fn decompress_stage_data(&self, bytes: &[u8]) -> (r: Result<Fp8Payload, CommError>)
        ensures
            match spec_decode_payload(bytes@) {
                Some(v) => r is Ok && r->Ok_0@ == v,
                None => r is Err && r->Err_0 is MalformedFrame,
            },
    {
        let len = bytes.len();
        if len < FRAME_HEADER_LEN {
            return Err(CommError::MalformedFrame);
        }
        let data_len = read_u64_le(bytes, 21) as usize;
        if data_len > len - FRAME_HEADER_LEN {
            return Err(CommError::MalformedFrame);
        }
        let rows = read_u64_le(bytes, 0) as usize;
        let cols = read_u64_le(bytes, 8) as usize;
        let format = if bytes[16] == 1 { Fp8Format::E5M2 } else { Fp8Format::E4M3 };
        let scale_bits = read_u32_le(bytes, 17);
        let mut data: Vec<u8> = Vec::new();
        let mut i: usize = 0;
        while i < data_len
            invariant
                i <= data_len,
                data_len + 29 <= bytes@.len(),
                len == bytes@.len(),
                data@ == bytes@.subrange(29, 29 + i),
            decreases data_len - i,
        {
            data.push(bytes[29 + i]);
            i = i + 1;
            assert(data@ =~= bytes@.subrange(29, 29 + i));
        }
        let payload = Fp8Payload { rows, cols, format, scale_bits, data };
        assert(payload@ == spec_decode_payload(bytes@).unwrap());
        Ok(payload)
    }

    /// Sends the compressed frame of an activation payload to `dst_stage`; the outcome is one the
    /// communicator allows for sending that frame there.
    pub fn send_activations(&self, payload: &Fp8Payload, dst_stage: usize) -> (r: Result<(), CommError>)
        requires
            payload.format == self.spec_format(),
        ensures
            self.spec_comm().send_outcome(spec_encode_payload(payload@), dst_stage, r),
    {
        let bytes = self.compress_stage_data(payload);
        self.comm.send(bytes, dst_stage)
    }

    /// Receives a frame from `src_stage` and decompresses it: the payload it holds,
    /// `MalformedFrame` where it holds none, or the receive's own error.
    pub fn recv_activations(&self, src_stage: usize) -> (r: Result<Fp8Payload, CommError>)
        ensures
            exists|received: Result<Seq<u8>, CommError>|
                #[trigger] self.spec_comm().recv_outcome(src_stage, received) && spec_payload_received(received, r),
    {
        let received = self.comm.recv(src_stage);
        let ghost outcome = spec_bytes_result(received);
        let r = match received {
            Ok(bytes) => self.decompress_stage_data(bytes.as_slice()),
            Err(e) => Err(e),
        };
        assert(self.spec_comm().recv_outcome(src_stage, outcome) && spec_payload_received(outcome, r));
        r
    }

    /// Sends the compressed frame of a gradient payload to `dst_stage`; the outcome is one the
    /// communicator allows for sending that frame there.
    pub fn send_gradients(&self, payload: &Fp8Payload, dst_stage: usize) -> (r: Result<(), CommError>)
        requires
            payload.format == self.spec_format(),
        ensures
            self.spec_comm().send_outcome(spec_encode_payload(payload@), dst_stage, r),
    {
        let bytes = self.compress_stage_data(payload);
        self.comm.send(bytes, dst_stage)
    }

    /// Receives a frame from `src_stage` and decompresses it: the payload it holds,
    /// `MalformedFrame` where it holds none, or the receive's own error.
    pub fn recv_gradients(&self, src_stage: usize) -> (r: Result<Fp8Payload, CommError>)
        ensures
            exists|received: Result<Seq<u8>, CommError>|
                #[trigger] self.spec_comm().recv_outcome(src_stage, received) && spec_payload_received(received, r),
    {
        let received = self.comm.recv(src_stage);
        let ghost outcome = spec_bytes_result(received);
        let r = match received {
            Ok(bytes) => self.decompress_stage_data(bytes.as_slice()),
            Err(e) => Err(e),
        };
        assert(self.spec_comm().recv_outcome(src_stage, outcome) && spec_payload_received(outcome, r));
        r
    }

    /// The rank of the underlying communicator.
    pub fn rank(&self) -> (r: usize)
        ensures
            r == self.spec_comm().spec_rank(),
    {
        self.comm.rank()
    }

    /// The world size of the underlying communicator.
    pub fn world_size(&self) -> (r: usize)
        ensures
            r == self.spec_comm().spec_world_size(),
    {
        self.comm.world_size()
    }
}

} // verus!
