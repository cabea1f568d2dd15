use vstd::prelude::*;

verus! {

/// A frame of the headset protocol: a payload preceded by its length as a four-byte
/// big-endian unsigned integer.
pub struct LengthDelimMessage {
    pub len: u32,
    pub bytes: Vec<u8>,
}

/// Why a frame could not be read.
#[derive(PartialEq, Eq, Structural, Clone, Copy, Debug)]
pub enum FrameError {
    /// Fewer than four bytes of length came.
    ShortHeader { read: usize },
}

/// The four big-endian bytes of `n`.
pub open spec fn be_bytes(n: u32) -> Seq<u8> {
    seq![
        (n / 16_777_216) as u8,
        ((n / 65_536) % 256) as u8,
        ((n / 256) % 256) as u8,
        (n % 256) as u8,
    ]
}

/// The number that four big-endian bytes stand for.
pub open spec fn be_value(b: Seq<u8>) -> int {
    b[0] * 16_777_216 + b[1] * 65_536 + b[2] * 256 + b[3]
}

impl LengthDelimMessage {
    /// The frame of `bytes`; its length is that of `bytes`, modulo 2^32.
    pub fn from_payload(bytes: Vec<u8>) -> (r: LengthDelimMessage)
        ensures
            r.bytes@ == bytes@,
            r.len == bytes@.len() as u32,
    {
        let len = bytes.len() as u32;
        LengthDelimMessage { len, bytes }
    }

    /// The length prefix written before the payload.
    pub fn header(&self) -> (r: [u8; 4])
        ensures
            r@ == be_bytes(self.len),
    {
        let n = self.len;
        let r = [
            (n / 16_777_216) as u8,
            ((n / 65_536) % 256) as u8,
            ((n / 256) % 256) as u8,
            (n % 256) as u8,
        ];
        assert(r@ =~= be_bytes(n));
        r
    }

    /// The payload length announced by `header`, of which `read` bytes came.
    pub fn parse_header(header: [u8; 4], read: usize) -> (r: Result<u32, FrameError>)
        ensures
            r is Ok <==> read == 4,
            r matches Ok(n) ==> n == be_value(header@),
            r matches Err(e) ==> e == (FrameError::ShortHeader { read }),
    {
        if read == 4 {
            let n: u32 = (header[0] as u32) * 16_777_216 + (header[1] as u32) * 65_536
                + (header[2] as u32) * 256 + (header[3] as u32);
            Ok(n)
        } else {
            Err(FrameError::ShortHeader { read })
        }
    }
}

/// Reading back the length prefix of a frame gives the frame's length.
pub proof fn law_header_round_trip(n: u32)
    ensures
        be_value(be_bytes(n)) == n,
{
    let b = be_bytes(n);
    assert(b[0] == n / 16_777_216);
    assert(b[1] == (n / 65_536) % 256);
    assert(b[2] == (n / 256) % 256);
    assert(b[3] == n % 256);
    assert((n / 16_777_216) * 16_777_216 + ((n / 65_536) % 256) * 65_536 + ((n / 256) % 256) * 256
        + n % 256 == n) by (nonlinear_arith)
        requires 0 <= n < 4_294_967_296;
}

} // verus!
