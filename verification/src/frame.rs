//! The engine's multiplexed stream format: each frame is an 8-byte header —
//! a stream selector, three reserved bytes, a big-endian payload length —
//! followed by that many payload bytes. Stdin-echo and stdout frames go to
//! the local standard output, stderr frames to the local standard error.

use vstd::prelude::*;
use crate::error::{DockerError, ErrorView};

verus! {

/// The stream a frame belongs to, as declared by its selector byte.
#[derive(Clone, Copy, Debug, PartialEq, Eq, Structural)]
pub enum StreamType {
    Stdin,
    Stdout,
    Stderr,
}

/// The stream selected by a header's first byte; selectors outside the
/// known set select nothing.
pub open spec fn frame_type_of(b: u8) -> Option<StreamType> {
    if b == 0 {
        Some(StreamType::Stdin)
    } else if b == 1 {
        Some(StreamType::Stdout)
    } else if b == 2 {
        Some(StreamType::Stderr)
    } else {
        None
    }
}

/// A frame's payload goes to the local standard error exactly when it is an
/// stderr frame; stdin-echo and stdout frames go to the local standard output.
pub open spec fn routes_to_stderr(t: StreamType) -> bool {
    t is Stderr
}

/// Whether a frame's payload belongs on the local standard error.
pub fn frame_to_stderr(t: StreamType) -> (r: bool)
    ensures
        r == routes_to_stderr(t),
{
    match t {
        StreamType::Stderr => true,
        _ => false,
    }
}

/// The number held big-endian in four bytes.
pub open spec fn be_u32(b0: u8, b1: u8, b2: u8, b3: u8) -> int {
    b0 * 0x1000000 + b1 * 0x10000 + b2 * 0x100 + b3
}

/// The four big-endian bytes of a number below 2^32.
pub open spec fn be_bytes(n: int) -> Seq<u8> {
    seq![
        ((n / 0x1000000) % 0x100) as u8,
        ((n / 0x10000) % 0x100) as u8,
        ((n / 0x100) % 0x100) as u8,
        (n % 0x100) as u8,
    ]
}

/// Reading back the four big-endian bytes of a number recovers it.
pub proof fn lemma_be_roundtrip(n: int)
    requires
        0 <= n < 0x100000000,
    ensures
        be_u32(be_bytes(n)[0], be_bytes(n)[1], be_bytes(n)[2], be_bytes(n)[3]) == n,
{
    assert(be_u32(be_bytes(n)[0], be_bytes(n)[1], be_bytes(n)[2], be_bytes(n)[3]) == n) by (nonlinear_arith)
        requires
            0 <= n < 0x100000000,
    ;
}

/// A parsed frame header: the stream and the payload length.
pub open spec fn spec_frame_header(h: Seq<u8>) -> Option<(StreamType, int)>
    recommends
        h.len() == 8,
{
    match frame_type_of(h[0]) {
        None => None,
        Some(t) => Some((t, be_u32(h[4], h[5], h[6], h[7]))),
    }
}

/// Parses an 8-byte frame header: the stream selector and the big-endian
/// payload length. A selector outside the known set is an invalid-stream
/// failure carrying the offending byte.
pub fn parse_frame_header(h: &[u8]) -> (r: Result<(StreamType, u32), DockerError>)
    requires
        h@.len() == 8,
    ensures
        r is Ok <==> spec_frame_header(h@) is Some,
        r matches Ok((t, n)) ==> spec_frame_header(h@) == Some((t, n as int)),
        r matches Err(e) ==> e@ == ErrorView::InvalidStream(h@[0]),
{
    let t = match h[0] {
        0 => StreamType::Stdin,
        1 => StreamType::Stdout,
        2 => StreamType::Stderr,
        b => {
            return Err(DockerError::InvalidStream(b));
        },
    };
    let n: u32 = (h[4] as u32) * 0x1000000 + (h[5] as u32) * 0x10000 + (h[6] as u32) * 0x100 + (
    h[7] as u32);
    Ok((t, n))
}

/// Why a byte stream failed to demultiplex: an unknown stream selector, or
/// a frame whose declared payload runs past the end of the stream.
pub enum DemuxFault {
    BadSelector(u8),
    Truncated,
}

/// Demultiplexes a finite byte stream into routed payloads. A stream that
/// ends exactly on a frame boundary — or inside a header, which is how a
/// closed connection looks — ends cleanly; one that ends inside a declared
/// payload is truncated.
pub open spec fn spec_demux(s: Seq<u8>) -> Result<Seq<(StreamType, Seq<u8>)>, DemuxFault>
    decreases s.len(),
{
    if s.len() < 8 {
        Ok(Seq::empty())
    } else {
        match spec_frame_header(s.take(8)) {
            None => Err(DemuxFault::BadSelector(s[0])),
            Some((t, n)) => {
                if 8 + n <= s.len() {
                    match spec_demux(s.skip(8 + n)) {
                        Ok(rest) => Ok(seq![(t, s.subrange(8, 8 + n))] + rest),
                        Err(e) => Err(e),
                    }
                } else {
                    Err(DemuxFault::Truncated)
                }
            },
        }
    }
}

/// One demultiplexed payload with the stream it arrived on.
pub struct FramePayload {
    pub stream: StreamType,
    pub data: Vec<u8>,
}

/// Payloads as pairs of stream and bytes.
pub open spec fn payloads_view(ps: Seq<FramePayload>) -> Seq<(StreamType, Seq<u8>)> {
    ps.map(|i: int, p: FramePayload| (p.stream, p.data@))
}

/// `r` is the executable rendering of the outcome `o`.
pub open spec fn demux_matches(
    r: Result<Vec<FramePayload>, DockerError>,
    o: Result<Seq<(StreamType, Seq<u8>)>, DemuxFault>,
) -> bool {
    match r {
        Ok(ps) => o matches Ok(fs) && payloads_view(ps@) == fs,
        Err(e) => match o {
            Ok(_) => false,
            Err(DemuxFault::BadSelector(b)) => e@ == ErrorView::InvalidStream(b),
            Err(DemuxFault::Truncated) => e@ == ErrorView::Network("truncated frame"@),
        },
    }
}

proof fn lemma_payloads_view_push(ps: Seq<FramePayload>, p: FramePayload)
    ensures
        payloads_view(ps.push(p)) =~= payloads_view(ps) + seq![(p.stream, p.data@)],
{
}

/// Demultiplexes a whole buffered stream, keeping the payloads in their
/// original order.
pub fn demux_buffer(buf: &[u8]) -> (r: Result<Vec<FramePayload>, DockerError>)
    ensures
        demux_matches(r, spec_demux(buf@)),
{
    let mut out: Vec<FramePayload> = Vec::new();
    let mut pos: usize = 0;
    let blen = buf.len();
    proof {
        assert(payloads_view(out@) =~= Seq::<(StreamType, Seq<u8>)>::empty());
        assert(buf@.skip(0) =~= buf@);
    }
    loop
        invariant
            0 <= pos <= blen,
            blen == buf@.len(),
            spec_demux(buf@) == (match spec_demux(buf@.skip(pos as int)) {
                Ok(fs) => Ok(payloads_view(out@) + fs),
                Err(e) => Err::<Seq<(StreamType, Seq<u8>)>, DemuxFault>(e),
            }),
        decreases blen - pos,
    {
        let ghost t0 = buf@.skip(pos as int);
        if blen - pos < 8 {
            proof {
                assert(payloads_view(out@) + Seq::<(StreamType, Seq<u8>)>::empty()
                    =~= payloads_view(out@));
            }
            return Ok(out);
        }
        proof {
            assert(t0.take(8) =~= buf@.subrange(pos as int, pos + 8));
            assert(t0[0] == buf@[pos as int]);
        }
        let header = vstd::slice::slice_subrange(buf, pos, pos + 8);
        let (stream, n32) = match parse_frame_header(header) {
            Ok(p) => p,
            Err(e) => {
                return Err(e);
            },
        };
        let n = n32 as usize;
        if n > blen - pos - 8 {
            return Err(DockerError::NetworkError(String::from_str("truncated frame")));
        }
        proof {
            assert(t0.subrange(8, 8 + n as int) =~= buf@.subrange(pos + 8, pos + 8 + n as int));
        }
        let data = vstd::slice::slice_subrange(buf, pos + 8, pos + 8 + n);
        let data_vec = vstd::slice::slice_to_vec(data);
        let ghost gp = FramePayload { stream, data: data_vec };
        let piece = FramePayload { stream, data: data_vec };
        let ghost old_out = out@;
        out.push(piece);
        proof {
            lemma_payloads_view_push(old_out, gp);
        }
        pos = pos + 8 + n;
        proof {
            assert(t0.skip(8 + n as int) =~= buf@.skip(pos as int));
            let rest = spec_demux(buf@.skip(pos as int));
            if let Ok(fs) = rest {
                assert((payloads_view(old_out) + seq![(stream, t0.subrange(8, 8 + n as int))]) + fs
                    =~= payloads_view(old_out) + (seq![(stream, t0.subrange(8, 8 + n as int))]
                    + fs));
            }
        }
    }
}

/// The selector byte that names a stream.
pub open spec fn type_byte(t: StreamType) -> u8 {
    match t {
        StreamType::Stdin => 0,
        StreamType::Stdout => 1,
        StreamType::Stderr => 2,
    }
}

/// The serialized form of one frame: selector, three reserved zero bytes,
/// big-endian payload length, payload.
pub open spec fn frame_bytes(t: StreamType, p: Seq<u8>) -> Seq<u8> {
    seq![type_byte(t), 0u8, 0u8, 0u8] + be_bytes(p.len() as int) + p
}

/// The byte stream carrying the given frames back to back.
pub open spec fn flatten_frames(fs: Seq<(StreamType, Seq<u8>)>) -> Seq<u8>
    decreases fs.len(),
{
    if fs.len() == 0 {
        Seq::empty()
    } else {
        frame_bytes(fs[0].0, fs[0].1) + flatten_frames(fs.drop_first())
    }
}

/// A byte stream composed of whole frames — whatever streams they select,
/// in whatever order — demultiplexes to exactly those frames' payloads, in
/// their original order, and ends cleanly at the true end of the stream.
pub proof fn lemma_demux_frames(fs: Seq<(StreamType, Seq<u8>)>)
    requires
        forall|i: int| 0 <= i < fs.len() ==> (#[trigger] fs[i].1).len() < 0x100000000,
    ensures
        spec_demux(flatten_frames(fs)) == Ok::<Seq<(StreamType, Seq<u8>)>, DemuxFault>(fs),
    decreases fs.len(),
{
    if fs.len() == 0 {
        assert(spec_demux(flatten_frames(fs)) == Ok::<Seq<(StreamType, Seq<u8>)>, DemuxFault>(Seq::empty()));
        assert(fs =~= Seq::<(StreamType, Seq<u8>)>::empty());
    } else {
        let t = fs[0].0;
        let p = fs[0].1;
        let s = flatten_frames(fs);
        let head = frame_bytes(t, p);
        let rest = flatten_frames(fs.drop_first());
        let n = p.len() as int;
        assert(s == head + rest);
        assert(head.len() == 8 + n);
        lemma_be_roundtrip(n);
        assert(s.take(8)[0] == type_byte(t));
        assert(frame_type_of(type_byte(t)) == Some(t)) by {
            match t {
                StreamType::Stdin => {},
                StreamType::Stdout => {},
                StreamType::Stderr => {},
            }
        }
        assert(s.take(8)[4] == be_bytes(n)[0]);
        assert(s.take(8)[5] == be_bytes(n)[1]);
        assert(s.take(8)[6] == be_bytes(n)[2]);
        assert(s.take(8)[7] == be_bytes(n)[3]);
        assert(spec_frame_header(s.take(8)) == Some((t, n)));
        assert(s.subrange(8, 8 + n) =~= p);
        assert(s.skip(8 + n) =~= rest);
        lemma_demux_frames(fs.drop_first());
        assert(seq![(t, p)] + fs.drop_first() =~= fs);
    }
}

} // verus!
