use vstd::prelude::*;

use crate::error::StreamError;
use crate::sink::{sink_data, ChunkSink};

verus! {

broadcast use Seq::lemma_flatten_push;

/// Spare output space reserved for each compressor call.
pub const DEFLATE_OUT_CHUNK: usize = 32768;

/// Rounds the drain loops tolerate without the compressor consuming
/// input before giving up: enough for any realistic backlog of pending
/// compressed output.
pub const DEFLATE_MAX_STALL: usize = 64;

/// The modulus of the 32-bit length recorded in the gzip trailer.
pub const ISIZE_MODULUS: u64 = 0x1_0000_0000;

/// Relies on `flate2::Compress`, the raw in-memory deflate stream,
/// declared here so that it can be held in a field; Verus sees nothing
/// inside it.
#[verifier::external_type_specification]
#[verifier::external_body]
pub struct ExCompress(flate2::Compress);

/// Relies on `flate2::Crc`, the CRC-32 accumulator, declared here so
/// that it can be held in a field; Verus sees nothing inside it.
#[verifier::external_type_specification]
#[verifier::external_body]
pub struct ExCrc(flate2::Crc);

/// The CRC-32 checksum of a byte sequence, as the compression crate's
/// accumulator computes it: a function of the bytes alone.
pub uninterp spec fn crc32_of(data: Seq<u8>) -> u32;

/// A CRC-32 accumulator together with the history of bytes it has been
/// fed. The history is ghost and only the trusted functions below
/// extend it, so the checksum the accumulator reports can be specified
/// as a function of that history.
pub struct CrcAccumulator {
    inner: flate2::Crc,
    fed: Ghost<Seq<u8>>,
}

impl CrcAccumulator {
    /// Every byte folded into the checksum so far, in order.
    pub closed spec fn fed_bytes(&self) -> Seq<u8> {
        self.fed@
    }
}

/// Relies on `flate2::Compress::new` with `zlib_header` false: a fresh
/// raw-deflate compressor, as a gzip stream body requires. Compression
/// levels are documented on a scale of 0 to 9.
#[verifier::external_body]
fn deflate_new(level: u32) -> (r: flate2::Compress)
    requires
        level <= 9,
{
    flate2::Compress::new(flate2::Compression::new(level), false)
}

/// Relies on `flate2::Compress::compress_vec`: consumes some prefix of
/// `input`, appending compressed output to the spare capacity of
/// `output`. Returns `None` on a compressor error, and otherwise whether
/// the stream reached its end (which only a finishing call can reach).
#[verifier::external_body]
fn deflate_step(
    compressor: &mut flate2::Compress,
    input: &[u8],
    output: &mut Vec<u8>,
    finishing: bool,
) -> (r: Option<bool>) {
    let flush = if finishing {
        flate2::FlushCompress::Finish
    } else {
        flate2::FlushCompress::None
    };
    match compressor.compress_vec(input, output, flush) {
        Ok(flate2::Status::StreamEnd) => Some(true),
        Ok(flate2::Status::Ok) => Some(false),
        Ok(flate2::Status::BufError) => Some(false),
        Ok(_) => Some(false),
        Err(_) => None,
    }
}

/// Relies on `flate2::Compress::total_in`: the running count of input
/// bytes the compressor has consumed.
#[verifier::external_body]
fn deflate_total_in(compressor: &flate2::Compress) -> (r: u64) {
    compressor.total_in()
}

/// Relies on `flate2::Crc::new`: a fresh CRC-32 accumulator.
#[verifier::external_body]
fn crc_raw_new() -> (r: flate2::Crc) {
    flate2::Crc::new()
}

/// Relies on `flate2::Crc::update`: folds `data` into the checksum.
#[verifier::external_body]
fn crc_raw_update(crc: &mut flate2::Crc, data: &[u8]) {
    crc.update(data);
}

fn crc_new() -> (r: CrcAccumulator)
    ensures
        r.fed_bytes() == Seq::<u8>::empty(),
{
    CrcAccumulator { inner: crc_raw_new(), fed: Ghost(Seq::empty()) }
}

fn crc_update(acc: &mut CrcAccumulator, data: &[u8])
    ensures
        final(acc).fed_bytes() == old(acc).fed_bytes() + data@,
{
    crc_raw_update(&mut acc.inner, data);
    proof {
        acc.fed@ = acc.fed@ + data@;
    }
}

/// Relies on `flate2::Crc::sum`: the checksum the accumulator reports
/// is the CRC-32 of exactly the bytes fed to it — within this module
/// the accumulator is only ever updated together with its ghost
/// history.
#[verifier::external_body]
fn crc_sum(acc: &CrcAccumulator) -> (r: u32)
    ensures
        r == crc32_of(acc.fed_bytes()),
{
    acc.inner.sum()
}

/// The fixed ten-byte gzip member header this stage emits: magic bytes,
/// the deflate method, no flags, no modification time, no extra flags,
/// and the "unknown" operating system marker.
pub open spec fn gzip_header() -> Seq<u8> {
    seq![0x1fu8, 0x8bu8, 0x08u8, 0u8, 0u8, 0u8, 0u8, 0u8, 0u8, 0xffu8]
}

/// A 32-bit value in the little-endian byte order the gzip trailer uses.
pub open spec fn le32(x: u32) -> Seq<u8> {
    seq![
        (x % 256) as u8,
        ((x / 256) % 256) as u8,
        ((x / 65536) % 256) as u8,
        ((x / 16777216) % 256) as u8,
    ]
}

fn push_le32(out: &mut Vec<u8>, x: u32)
    ensures
        final(out)@ == old(out)@ + le32(x),
{
    out.push((x % 256) as u8);
    out.push(((x / 256) % 256) as u8);
    out.push(((x / 65536) % 256) as u8);
    out.push(((x / 16777216) % 256) as u8);
    proof {
        assert(out@ =~= old(out)@ + le32(x));
    }
}

/// The compression stage of the writer chain: bytes accepted here are
/// folded into the CRC, fed to a raw-deflate compressor, and everything
/// the compressor emits is forwarded downstream in emission order,
/// between a verified gzip header and a trailer carrying the CRC-32 of
/// exactly the accepted bytes and their length (modulo 2^32) at
/// finish.
///
/// `chunks()` records the uncompressed side. What deflate emits for a
/// given input depends on the compressor's internal state, so nothing is
/// claimed about the emitted bytes themselves; what is proved is the
/// framing and the transport: the sink downstream receives exactly the
/// header followed by the emitted bytes, in order, and the recorded
/// trailer length is the fed length modulo 2^32.
pub struct GzipSink<S: ChunkSink> {
    compressor: flate2::Compress,
    crc: CrcAccumulator,
    inner: S,
    header_written: bool,
    isize_counter: u32,
    fed: Ghost<Seq<Seq<u8>>>,
    emitted: Ghost<Seq<u8>>,
}

impl<S: ChunkSink> GzipSink<S> {
    /// The sink the framed stream is forwarded to, in its current state.
    pub closed spec fn inner_sink(&self) -> S {
        self.inner
    }

    /// Every byte forwarded downstream so far: the header once anything
    /// has been written, followed by the compressor's emission.
    pub closed spec fn emitted_bytes(&self) -> Seq<u8> {
        self.emitted@
    }

    /// Whether the gzip header has been forwarded yet; it goes out just
    /// before the first compressed byte would.
    pub closed spec fn header_sent(&self) -> bool {
        self.header_written
    }

    /// The 32-bit running length that will be recorded in the trailer.
    pub closed spec fn recorded_len(&self) -> u32 {
        self.isize_counter
    }

    /// The bytes the checksum accumulator has been fed; the trailer
    /// will carry `crc32_of` of exactly these.
    pub closed spec fn checksum_input(&self) -> Seq<u8> {
        self.crc.fed_bytes()
    }

    /// Construct a compression stage at `level` in front of the fresh
    /// sink `inner`.
    pub fn new(level: u32, inner: S) -> (r: GzipSink<S>)
        requires
            level <= 9,
            inner.wf(),
            !inner.finished(),
            inner.chunks() == Seq::<Seq<u8>>::empty(),
        ensures
            r.wf(),
            !r.finished(),
            r.chunks() == Seq::<Seq<u8>>::empty(),
            r.inner_sink() == inner,
            r.emitted_bytes() == Seq::<u8>::empty(),
    {
        let r = GzipSink {
            compressor: deflate_new(level),
            crc: crc_new(),
            inner,
            header_written: false,
            isize_counter: 0,
            fed: Ghost(Seq::empty()),
            emitted: Ghost(Seq::empty()),
        };
        proof {
            assert(sink_data(&r.inner) =~= r.emitted@);
            assert(r.fed@.flatten() =~= Seq::<u8>::empty());
        }
        r
    }

    /// Forward the gzip header downstream if it has not gone out yet.
    fn ensure_header(&mut self) -> (r: Result<(), StreamError>)
        requires
            old(self).wf(),
            !old(self).finished(),
        ensures
            final(self).chunks() == old(self).chunks(),
            final(self).recorded_len() == old(self).recorded_len(),
            !final(self).finished(),
            match r {
                Ok(()) => final(self).wf() && final(self).header_sent(),
                Err(_) => true,
            },
    {
        if self.header_written {
            return Ok(());
        }
        let header: Vec<u8> = vec![0x1fu8, 0x8bu8, 0x08u8, 0u8, 0u8, 0u8, 0u8, 0u8, 0u8, 0xffu8];
        proof {
            assert(header@ =~= gzip_header());
        }
        let res = self.inner.accept_chunk(header.as_slice());
        match res {
            Ok(()) => {
                self.header_written = true;
                proof {
                    self.emitted@ = self.emitted@ + header@;
                    assert(sink_data(&self.inner) =~= self.emitted@);
                    assert(self.emitted@.take(10) =~= gzip_header());
                }
                Ok(())
            },
            Err(e) => Err(e),
        }
    }

    /// Feed `input` to the compressor in full, forwarding every piece of
    /// compressed output downstream as it appears.
    fn deflate_all(&mut self, input: &[u8]) -> (r: Result<(), StreamError>)
        requires
            old(self).wf(),
            !old(self).finished(),
            old(self).header_sent(),
        ensures
            final(self).chunks() == old(self).chunks(),
            final(self).recorded_len() == old(self).recorded_len(),
            !final(self).finished(),
            match r {
                Ok(()) => final(self).wf() && final(self).header_sent(),
                Err(_) => true,
            },
    {
        let mut consumed: usize = 0;
        let mut stall: usize = 0;
        while consumed < input.len()
            invariant
                self.wf(),
                !self.finished(),
                self.header_sent(),
                self.chunks() == old(self).chunks(),
                self.recorded_len() == old(self).recorded_len(),
                consumed <= input.len(),
                stall <= DEFLATE_MAX_STALL,
            decreases input@.len() - consumed, DEFLATE_MAX_STALL - stall,
        {
            let before = deflate_total_in(&self.compressor);
            let mut out: Vec<u8> = Vec::new();
            out.reserve(DEFLATE_OUT_CHUNK);
            let status = deflate_step(
                &mut self.compressor,
                &input[consumed..input.len()],
                &mut out,
                false,
            );
            if status.is_none() {
                return Err(StreamError::DestinationFailed);
            }
            let after = deflate_total_in(&self.compressor);
            if after < before {
                return Err(StreamError::DestinationFailed);
            }
            let used_wide = after - before;
            let remaining = input.len() - consumed;
            let used: usize = if used_wide >= remaining as u64 {
                remaining
            } else {
                used_wide as usize
            };
            if out.len() > 0 {
                let res = self.inner.accept_chunk(out.as_slice());
                match res {
                    Ok(()) => {
                        proof {
                            self.emitted@ = self.emitted@ + out@;
                            assert(sink_data(&self.inner) =~= self.emitted@);
                            assert(self.emitted@.take(10) =~= gzip_header());
                        }
                    },
                    Err(e) => {
                        return Err(e);
                    },
                }
            }
            if used == 0 {
                // the compressor is draining backlog; tolerate a bounded
                // number of such rounds, then treat the stream as stuck
                if stall >= DEFLATE_MAX_STALL {
                    return Err(StreamError::DestinationFailed);
                }
                stall = stall + 1;
            } else {
                consumed = consumed + used;
                stall = 0;
            }
        }
        Ok(())
    }
}

impl<S: ChunkSink> ChunkSink for GzipSink<S> {
    closed spec fn chunks(&self) -> Seq<Seq<u8>> {
        self.fed@
    }

    closed spec fn wf(&self) -> bool {
        &&& self.inner.wf()
        &&& !self.inner.finished()
        &&& sink_data(&self.inner) == self.emitted@
        &&& (!self.header_written ==> self.emitted@ == Seq::<u8>::empty())
        &&& (self.header_written ==> self.emitted@.len() >= 10 && self.emitted@.take(10)
            == gzip_header())
        &&& self.isize_counter as int == self.fed@.flatten().len() as int % (ISIZE_MODULUS as int)
        &&& self.crc.fed_bytes() == self.fed@.flatten()
    }

    closed spec fn finished(&self) -> bool {
        self.inner.finished()
    }

    fn accept_chunk(&mut self, chunk: &[u8]) -> (r: Result<(), StreamError>) {
        if chunk.len() == 0 {
            return Ok(());
        }
        match self.ensure_header() {
            Ok(()) => {},
            Err(e) => {
                return Err(e);
            },
        }
        match self.deflate_all(chunk) {
            Ok(()) => {},
            Err(e) => {
                return Err(e);
            },
        }
        crc_update(&mut self.crc, chunk);
        let truncated_len: u32 = ((chunk.len() as u64) % ISIZE_MODULUS) as u32;
        let next_counter = self.isize_counter.wrapping_add(truncated_len);
        proof {
            let t = self.fed@.flatten().len() as int;
            let l = chunk@.len() as int;
            let m = ISIZE_MODULUS as int;
            assert(self.isize_counter as int == t % m);
            assert(truncated_len as int == l % m);
            assert(next_counter as int == ((t % m) + (l % m)) % m);
            vstd::arithmetic::div_mod::lemma_add_mod_noop(t, l, m);
            assert(next_counter as int == (t + l) % m);
        }
        self.isize_counter = next_counter;
        proof {
            self.fed@ = self.fed@.push(chunk@);
        }
        Ok(())
    }

    fn finish_sink(&mut self) -> (r: Result<(), StreamError>) {
        // an empty stream still carries a header, an (empty) deflate
        // body and a trailer
        match self.ensure_header() {
            Ok(()) => {},
            Err(e) => {
                return Err(e);
            },
        }
        let empty: [u8; 0] = [];
        let mut stall: usize = 0;
        let mut ended = false;
        while !ended
            invariant
                self.wf(),
                !self.finished(),
                self.header_sent(),
                self.chunks() == old(self).chunks(),
                self.recorded_len() == old(self).recorded_len(),
                stall <= DEFLATE_MAX_STALL,
            decreases (if ended { 0int } else { 1int }), DEFLATE_MAX_STALL - stall,
        {
            let mut out: Vec<u8> = Vec::new();
            out.reserve(DEFLATE_OUT_CHUNK);
            let status = deflate_step(&mut self.compressor, &empty, &mut out, true);
            let stream_end = match status {
                Some(b) => b,
                None => {
                    return Err(StreamError::DestinationFailed);
                },
            };
            if out.len() > 0 {
                let res = self.inner.accept_chunk(out.as_slice());
                match res {
                    Ok(()) => {
                        proof {
                            self.emitted@ = self.emitted@ + out@;
                            assert(sink_data(&self.inner) =~= self.emitted@);
                            assert(self.emitted@.take(10) =~= gzip_header());
                        }
                    },
                    Err(e) => {
                        return Err(e);
                    },
                }
            }
            if stream_end {
                ended = true;
            } else {
                if stall >= DEFLATE_MAX_STALL {
                    return Err(StreamError::DestinationFailed);
                }
                stall = stall + 1;
            }
        }
        let mut trailer: Vec<u8> = Vec::new();
        push_le32(&mut trailer, crc_sum(&self.crc));
        push_le32(&mut trailer, self.isize_counter);
        proof {
            // the trailer is the checksum of the accepted bytes and
            // their length modulo 2^32, little-endian
            assert(trailer@ =~= le32(crc32_of(self.fed@.flatten())) + le32(self.isize_counter));
        }
        let res = self.inner.accept_chunk(trailer.as_slice());
        match res {
            Ok(()) => {},
            Err(e) => {
                return Err(e);
            },
        }
        proof {
            self.emitted@ = self.emitted@ + trailer@;
        }
        self.inner.finish_sink()
    }
}

/// The compression stage loses nothing in transport: in any well-formed
/// state, the sink downstream holds exactly what this stage has
/// emitted — nothing before the ten-byte gzip header, and the header
/// first once anything has gone out — the running trailer length is the
/// fed length modulo 2^32, and the checksum accumulator has been fed
/// exactly the accepted bytes, so the trailer carries their CRC-32.
pub proof fn lemma_gzip_invariant<S: ChunkSink>(g: &GzipSink<S>)
    requires
        g.wf(),
    ensures
        sink_data(&g.inner_sink()) == g.emitted_bytes(),
        g.inner_sink().wf(),
        !g.inner_sink().finished(),
        g.header_sent() ==> g.emitted_bytes().take(10) == gzip_header(),
        !g.header_sent() ==> g.emitted_bytes() == Seq::<u8>::empty(),
        g.recorded_len() as int == sink_data(g).len() as int % (ISIZE_MODULUS as int),
        g.checksum_input() == sink_data(g),
{
}

} // verus!
