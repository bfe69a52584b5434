//! Wire protocol between the app (running as the user) and the helper
//! service (running as root).
//!
//! Framing: each message is a 4-byte big-endian unsigned length, then that
//! many bytes of UTF-8 JSON; a frame longer than [`MAX_FRAME`] bytes is
//! refused on both sides. Every request gets exactly one response, and a
//! connection starts with a `Hello` carrying [`PROTOCOL_VERSION`].

use vstd::prelude::*;

verus! {

pub const PROTOCOL_VERSION: u32 = 1;

/// Unix socket the service listens on.
pub const SOCKET_PATH: &'static str = "/var/run/clashr/clashr-service.sock";

/// Where the service's launchd plist lives (macOS).
pub const LAUNCHD_PLIST_PATH: &'static str = "/Library/LaunchDaemons/com.clashr.service.plist";

/// launchd label of the service (macOS).
pub const LAUNCHD_LABEL: &'static str = "com.clashr.service";

/// Largest accepted frame body: 16 MiB.
pub const MAX_FRAME: u32 = 16777216;

/// All requests the app can make to the service.
#[derive(Debug, Clone)]
pub enum Request {
    /// Handshake: must be the first request on a new connection.
    Hello { version: u32 },
    /// Spawn mihomo with the given absolute paths.
    StartCore { binary: String, config: String },
    /// Replace a running mihomo (stop, then start).
    RestartCore { binary: String, config: String },
    /// Kill mihomo if it is running; a no-op when stopped.
    StopCore,
    /// Current state tracked by the service.
    Status,
    /// Tell the service to exit.
    Shutdown,
}

/// Replies of the service.
#[derive(Debug, Clone)]
pub enum Response {
    /// Hello reply carrying the service's protocol version.
    Hello { version: u32 },
    /// Generic OK (`"ok"` on the wire).
    Ack,
    /// Status reply.
    Status(CoreState),
    /// Generic failure with a human-readable reason.
    Error { message: String },
}

/// State of the mihomo process as seen by the service.
#[derive(Debug, Clone)]
pub enum CoreState {
    Stopped,
    Starting,
    Running { pid: u32 },
    Stopping,
    Failed { reason: String },
}

/// Why a frame could not be written or read.
#[derive(Debug, Clone, Copy, PartialEq, Eq, Structural)]
pub enum FrameError {
    /// The body (or the length announced by a header) exceeds `MAX_FRAME`.
    TooLarge { len: u64 },
    /// The input ends before the header or the announced body is complete.
    UnexpectedEnd,
}

/// Big-endian bytes of `n`.
pub open spec fn be32(n: u32) -> Seq<u8> {
    seq![
        (n / 16777216) as u8,
        ((n / 65536) % 256) as u8,
        ((n / 256) % 256) as u8,
        (n % 256) as u8,
    ]
}

/// The number encoded by four big-endian bytes.
pub open spec fn be32_value(b: Seq<u8>) -> nat {
    (b[0] * 16777216 + b[1] * 65536 + b[2] * 256 + b[3]) as nat
}

/// A complete frame carrying `payload`.
pub open spec fn frame(payload: Seq<u8>) -> Seq<u8> {
    be32(payload.len() as u32) + payload
}

/// What reading one frame from the front of `input` yields: the body and
/// the number of bytes consumed.
pub open spec fn frame_read(input: Seq<u8>) -> Result<(Seq<u8>, nat), FrameError> {
    if input.len() < 4 {
        Err(FrameError::UnexpectedEnd)
    } else {
        let n = be32_value(input.subrange(0, 4));
        if n > MAX_FRAME {
            Err(FrameError::TooLarge { len: n as u64 })
        } else if input.len() < 4 + n {
            Err(FrameError::UnexpectedEnd)
        } else {
            Ok((input.subrange(4, (4 + n) as int), (4 + n) as nat))
        }
    }
}

proof fn lemma_be32_value(n: u32)
    ensures
        be32_value(be32(n)) == n,
        be32(n).len() == 4,
{
    let b = be32(n);
    assert(b[0] == n / 16777216);
    assert(b[1] == (n / 65536) % 256);
    assert(b[2] == (n / 256) % 256);
    assert(b[3] == n % 256);
}

/// Appends the frame carrying `payload` to `out`; refuses a payload larger
/// than `MAX_FRAME` and leaves `out` untouched then.
pub fn write_frame(out: &mut Vec<u8>, payload: &[u8]) -> (r: Result<(), FrameError>)
    ensures
        r is Ok <==> payload@.len() <= MAX_FRAME,
        r matches Ok(()) ==> final(out)@ == old(out)@ + frame(payload@),
        r matches Err(e) ==> final(out)@ == old(out)@ && e == (FrameError::TooLarge {
            len: payload@.len() as u64,
        }),
{
    let len = payload.len();
    if len > MAX_FRAME as usize {
        return Err(FrameError::TooLarge { len: len as u64 });
    }
    let n = len as u32;
    let ghost start = out@;
    out.push((n / 16777216) as u8);
    out.push(((n / 65536) % 256) as u8);
    out.push(((n / 256) % 256) as u8);
    out.push((n % 256) as u8);
    assert(out@ == start + be32(n));
    let ghost mid = out@;
    let mut i: usize = 0;
    while i < len
        invariant
            len == payload@.len(),
            i <= len,
            out@ == mid + payload@.take(i as int),
        decreases len - i,
    {
        out.push(payload[i]);
        assert(payload@.take(i + 1) == payload@.take(i as int).push(payload@[i as int]));
        i = i + 1;
    }
    assert(payload@.take(len as int) == payload@);
    Ok(())
}

/// Decodes a 4-byte frame header into the announced body length; refuses
/// a length above `MAX_FRAME`.
pub fn decode_frame_header(header: &[u8]) -> (r: Result<u32, FrameError>)
    ensures
        header@.len() < 4 ==> r == Err::<u32, FrameError>(FrameError::UnexpectedEnd),
        header@.len() >= 4 ==> {
            let n = be32_value(header@.subrange(0, 4));
            if n > MAX_FRAME {
                r == Err::<u32, FrameError>(FrameError::TooLarge { len: n as u64 })
            } else {
                r == Ok::<u32, FrameError>(n as u32)
            }
        },
{
    if header.len() < 4 {
        return Err(FrameError::UnexpectedEnd);
    }
    let n: u64 = header[0] as u64 * 16777216 + header[1] as u64 * 65536 + header[2] as u64 * 256
        + header[3] as u64;
    assert(n == be32_value(header@.subrange(0, 4)));
    if n > MAX_FRAME as u64 {
        return Err(FrameError::TooLarge { len: n });
    }
    Ok(n as u32)
}

/// Reads one frame from the front of `input`: its body and the number of
/// bytes it occupied.
pub fn read_frame(input: &[u8]) -> (r: Result<(Vec<u8>, usize), FrameError>)
    ensures
        match (r, frame_read(input@)) {
            (Ok((body, used)), Ok((b, u))) => body@ == b && used == u,
            (Err(e), Err(f)) => e == f,
            _ => false,
        },
{
    let n = match decode_frame_header(input) {
        Ok(n) => n as usize,
        Err(e) => return Err(e),
    };
    if input.len() - 4 < n {
        return Err(FrameError::UnexpectedEnd);
    }
    let mut body: Vec<u8> = Vec::new();
    let mut i: usize = 0;
    while i < n
        invariant
            4 + n <= input@.len(),
            input@.len() == input.len(),
            i <= n,
            body@ == input@.subrange(4, 4 + i),
        decreases n - i,
    {
        body.push(input[4 + i]);
        assert(input@.subrange(4, 4 + i + 1) == input@.subrange(4, 4 + i).push(input@[4 + i]));
        i = i + 1;
    }
    Ok((body, 4 + n))
}

/// A frame written by `write_frame` reads back as the same payload, whatever
/// follows it in the stream.
pub proof fn lemma_frame_roundtrip(payload: Seq<u8>, rest: Seq<u8>)
    requires
        payload.len() <= MAX_FRAME,
    ensures
        frame_read(frame(payload) + rest) == Ok::<(Seq<u8>, nat), FrameError>(
            (payload, (4 + payload.len()) as nat),
        ),
{
    let n = payload.len() as u32;
    lemma_be32_value(n);
    let input = frame(payload) + rest;
    assert(input.subrange(0, 4) == be32(n));
    assert(input.subrange(4, 4 + payload.len() as int) == payload);
}

/// A header announcing more than `MAX_FRAME` bytes is refused, whatever
/// follows it.
pub proof fn lemma_header_over_limit(input: Seq<u8>)
    requires
        input.len() >= 4,
        be32_value(input.subrange(0, 4)) > MAX_FRAME,
    ensures
        frame_read(input) == Err::<(Seq<u8>, nat), FrameError>(
            FrameError::TooLarge { len: be32_value(input.subrange(0, 4)) as u64 },
        ),
{
}

} // verus!
