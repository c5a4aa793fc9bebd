//! Frames: byte strings that travel behind their length.
use vstd::prelude::*;
use crate::text::{decimal, decimal_text, join};

verus! {

/// Why a frame cannot be written or read.
#[derive(Debug, Clone, Copy, PartialEq, Eq, Structural)]
pub enum FrameError {
    /// The length does not fit into the 32 bits that it has.
    TooLarge { len: usize },
    /// The frame is longer than the reader takes.
    ExceedsLimit { len: usize, max_len: usize },
    /// The input ends before the frame does.
    Truncated,
}

impl FrameError {
    /// The error in words.
    pub open spec fn text(self) -> Seq<char> {
        match self {
            FrameError::TooLarge { .. } => "out of range integral type conversion attempted"@,
            FrameError::ExceedsLimit { len, max_len } => "frame of "@ + decimal(len as nat) + " bytes exceeds "@
                + decimal(max_len as nat) + "-byte limit"@,
            FrameError::Truncated => "unexpected end of file"@,
        }
    }

    /// The error in words.
    pub fn message(&self) -> (text: String)
        ensures
            text@ == self.text(),
    {
        match self {
            FrameError::TooLarge { .. } => "out of range integral type conversion attempted".to_owned(),
            FrameError::ExceedsLimit { len, max_len } => {
                let start = join("frame of ", decimal_text(*len).as_str(), " bytes exceeds ");
                join(start.as_str(), decimal_text(*max_len).as_str(), "-byte limit")
            },
            FrameError::Truncated => "unexpected end of file".to_owned(),
        }
    }
}

/// The four bytes of a number, the most significant first.
pub open spec fn be_bytes(n: int) -> Seq<u8> {
    seq![
        (n / 0x100_0000) as u8,
        ((n / 0x1_0000) % 0x100) as u8,
        ((n / 0x100) % 0x100) as u8,
        (n % 0x100) as u8,
    ]
}

/// The number that four bytes make, the most significant first.
pub open spec fn be_value(bytes: Seq<u8>) -> int {
    bytes[0] * 0x100_0000 + bytes[1] * 0x1_0000 + bytes[2] * 0x100 + bytes[3]
}

/// A byte string behind its length.
pub open spec fn frame(bytes: Seq<u8>) -> Seq<u8> {
    be_bytes(bytes.len() as int) + bytes
}

/// What the frame at the start of the input holds.
pub open spec fn parse_frame(input: Seq<u8>, max_len: usize) -> Result<Seq<u8>, FrameError> {
    if input.len() < 4 {
        Err(FrameError::Truncated)
    } else {
        let len = be_value(input);
        if len > max_len {
            Err(FrameError::ExceedsLimit { len: len as usize, max_len })
        } else if input.len() < 4 + len {
            Err(FrameError::Truncated)
        } else {
            Ok(input.subrange(4, 4 + len))
        }
    }
}

/// Appends bytes.
pub(crate) fn append(out: &mut Vec<u8>, bytes: &[u8])
    ensures
        final(out)@ == old(out)@ + bytes@,
{
    let mut i: usize = 0;
    while i < bytes.len()
        invariant
            0 <= i <= bytes@.len(),
            out@ =~= old(out)@ + bytes@.take(i as int),
        decreases bytes@.len() - i,
    {
        out.push(bytes[i]);
        assert(bytes@.take(i + 1) =~= bytes@.take(i as int).push(bytes@[i as int]));
        i += 1;
    }
    assert(bytes@.take(i as int) =~= bytes@);
}

/// Puts bytes into a frame.
pub fn write_frame(bytes: &[u8]) -> (framed: Result<Vec<u8>, FrameError>)
    ensures
        bytes@.len() > u32::MAX ==> framed == Err::<Vec<u8>, FrameError>(
            FrameError::TooLarge { len: bytes@.len() as usize },
        ),
        bytes@.len() <= u32::MAX ==> (framed matches Ok(f) && f@ == frame(bytes@)),
{
    let len: usize = bytes.len();
    if len > u32::MAX as usize {
        return Err(FrameError::TooLarge { len });
    }
    let mut out: Vec<u8> = Vec::new();
    out.push((len / 0x100_0000) as u8);
    out.push(((len / 0x1_0000) % 0x100) as u8);
    out.push(((len / 0x100) % 0x100) as u8);
    out.push((len % 0x100) as u8);
    assert(out@ =~= be_bytes(len as int));
    append(&mut out, bytes);
    Ok(out)
}

/// The length of the frame that starts with the given four bytes.
pub fn frame_len(header: &[u8; 4], max_len: usize) -> (len: Result<usize, FrameError>)
    ensures
        be_value(header@) > max_len ==> len == Err::<usize, FrameError>(
            FrameError::ExceedsLimit { len: be_value(header@) as usize, max_len },
        ),
        be_value(header@) <= max_len ==> (len matches Ok(n) && n == be_value(header@)),
{
    let value: u32 = header[0] as u32 * 0x100_0000 + header[1] as u32 * 0x1_0000 + header[2] as u32 * 0x100
        + header[3] as u32;
    let len: usize = value as usize;
    if len > max_len {
        Err(FrameError::ExceedsLimit { len, max_len })
    } else {
        Ok(len)
    }
}

/// Takes what the frame at the start of the input holds.
pub fn read_frame(input: &[u8], max_len: usize) -> (bytes: Result<Vec<u8>, FrameError>)
    ensures
        match bytes {
            Ok(b) => parse_frame(input@, max_len) == Ok::<Seq<u8>, FrameError>(b@),
            Err(e) => parse_frame(input@, max_len) == Err::<Seq<u8>, FrameError>(e),
        },
{
    if input.len() < 4 {
        return Err(FrameError::Truncated);
    }
    let header: [u8; 4] = [input[0], input[1], input[2], input[3]];
    let len: usize = match frame_len(&header, max_len) {
        Ok(n) => n,
        Err(error) => return Err(error),
    };
    if input.len() - 4 < len {
        return Err(FrameError::Truncated);
    }
    let mut out: Vec<u8> = Vec::new();
    append(&mut out, vstd::slice::slice_subrange(input, 4, 4 + len));
    assert(out@ =~= input@.subrange(4, 4 + len));
    Ok(out)
}

/// What was put into a frame is taken out of it, whatever follows, as long as the reader takes
/// frames of its length.
pub proof fn law_frame_round_trip(bytes: Seq<u8>, rest: Seq<u8>, max_len: usize)
    requires
        bytes.len() <= u32::MAX,
        bytes.len() <= max_len,
    ensures
        parse_frame(frame(bytes) + rest, max_len) == Ok::<Seq<u8>, FrameError>(bytes),
{
    let input = frame(bytes) + rest;
    lemma_be_round_trip(bytes.len() as int);
    assert(be_value(input) == be_value(be_bytes(bytes.len() as int)));
    assert(input.subrange(4, 4 + bytes.len() as int) =~= bytes);
}

/// A frame that is longer than the reader takes is refused.
pub proof fn law_frame_limit(bytes: Seq<u8>, rest: Seq<u8>, max_len: usize)
    requires
        max_len < bytes.len() <= u32::MAX,
    ensures
        parse_frame(frame(bytes) + rest, max_len) == Err::<Seq<u8>, FrameError>(
            FrameError::ExceedsLimit { len: bytes.len() as usize, max_len },
        ),
{
    let input = frame(bytes) + rest;
    lemma_be_round_trip(bytes.len() as int);
    assert(be_value(input) == be_value(be_bytes(bytes.len() as int)));
}

proof fn lemma_be_round_trip(n: int)
    requires
        0 <= n <= u32::MAX,
    ensures
        be_value(be_bytes(n)) == n,
{
}

/// A frame starts with the length of what it holds, in four bytes, the most significant first; then
/// comes what it holds.
pub proof fn law_frame_layout(bytes: Seq<u8>)
    requires
        bytes.len() <= u32::MAX,
    ensures
        frame(bytes).len() == 4 + bytes.len(),
        frame(bytes)[0] * 0x100_0000 + frame(bytes)[1] * 0x1_0000 + frame(bytes)[2] * 0x100 + frame(bytes)[3]
            == bytes.len(),
        forall|i: int| 0 <= i < bytes.len() ==> #[trigger] frame(bytes)[4 + i] == bytes[i],
{
    lemma_be_round_trip(bytes.len() as int);
}

/// What a frame holds is what stands behind its length, as many bytes as that says. It is refused if
/// that is more than the reader takes, and cut short if the input has fewer.
pub proof fn law_frame_is_read(input: Seq<u8>, max_len: usize, len: int)
    requires
        input.len() >= 4,
        len == input[0] * 0x100_0000 + input[1] * 0x1_0000 + input[2] * 0x100 + input[3],
    ensures
        len > max_len ==> (parse_frame(input, max_len) matches Err(
            FrameError::ExceedsLimit { len: l, max_len: m },
        ) && l == len as usize && m == max_len),
        len <= max_len && input.len() < 4 + len ==> parse_frame(input, max_len) == Err::<Seq<u8>, FrameError>(
            FrameError::Truncated,
        ),
        len <= max_len && input.len() >= 4 + len ==> (parse_frame(input, max_len) matches Ok(bytes)
            && bytes.len() == len && forall|i: int| 0 <= i < len ==> bytes[i] == #[trigger] input[4 + i]),
{
}

/// An input that is too short for a length holds no frame.
pub proof fn law_short_input_has_no_frame(input: Seq<u8>, max_len: usize)
    requires
        input.len() < 4,
    ensures
        parse_frame(input, max_len) == Err::<Seq<u8>, FrameError>(FrameError::Truncated),
{
}

/// The length that four bytes make.
pub proof fn law_length_of_header(header: Seq<u8>)
    requires
        header.len() == 4,
    ensures
        be_value(header) == header[0] * 0x100_0000 + header[1] * 0x1_0000 + header[2] * 0x100 + header[3],
{
}

/// The errors on frames in words.
pub proof fn law_frame_errors_in_words(len: usize, max_len: usize)
    ensures
        (FrameError::TooLarge { len }).text() == "out of range integral type conversion attempted"@,
        (FrameError::ExceedsLimit { len, max_len }).text() == "frame of "@ + decimal(len as nat)
            + " bytes exceeds "@ + decimal(max_len as nat) + "-byte limit"@,
        FrameError::Truncated.text() == "unexpected end of file"@,
{
}

} // verus!
