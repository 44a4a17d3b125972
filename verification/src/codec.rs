use vstd::prelude::*;

verus! {

use crate::error::Error;
use vstd::string::StrSliceExecFns;

/// Largest value a variable-length integer can carry: 28 payload bits.
pub const VARIABLE_BYTE_INTEGER_MAX: u32 = 268_435_455;

/// A bounded cursor over a byte buffer.
///
/// Decoding consumes bytes from `pos` forward, never past `end`. The `end`
/// bound is how an outer frame's declared remaining length scopes the bytes a
/// packet body may consume.
pub struct Reader {
    buf: Vec<u8>,
    pos: usize,
    end: usize,
}

impl Reader {
    /// The whole underlying buffer.
    pub closed spec fn bytes(self) -> Seq<u8> {
        self.buf@
    }

    /// Index of the next unread byte.
    pub closed spec fn pos(self) -> int {
        self.pos as int
    }

    /// Exclusive bound on the readable range.
    pub closed spec fn end(self) -> int {
        self.end as int
    }

    pub open spec fn wf(self) -> bool {
        0 <= self.pos() <= self.end() <= self.bytes().len()
    }

    /// The bytes still available to read.
    pub open spec fn remaining(self) -> Seq<u8> {
        self.bytes().subrange(self.pos(), self.end())
    }

    pub fn new(buf: Vec<u8>) -> (r: Reader)
        ensures
            r.wf(),
            r.bytes() == buf@,
            r.pos() == 0,
            r.end() == buf@.len(),
            r.remaining() == buf@,
    {
        let end = buf.len();
        let r = Reader { buf, pos: 0, end };
        proof {
            assert(r.remaining() =~= r.bytes());
        }
        r
    }

    /// How many bytes are still available.
    pub fn remaining_len(&self) -> (n: usize)
        requires
            self.wf(),
        ensures
            n == self.remaining().len(),
    {
        self.end - self.pos
    }

    /// Narrows the readable range to the next `n` bytes and returns the old
    /// bound, so that a caller can scope decoding to a declared region length
    /// and afterwards hand the bound back to `widen`.
    pub(crate) fn narrow(&mut self, n: usize) -> (r: Result<usize, Error>)
        requires
            old(self).wf(),
        ensures
            match r {
                Ok(saved) => {
                    &&& n <= old(self).remaining().len()
                    &&& saved == old(self).end()
                    &&& final(self).wf()
                    &&& final(self).bytes() == old(self).bytes()
                    &&& final(self).pos() == old(self).pos()
                    &&& final(self).end() == old(self).pos() + n
                },
                Err(e) => {
                    &&& e == Error::UnexpectedEndOfStream
                    &&& n > old(self).remaining().len()
                    &&& *final(self) == *old(self)
                },
            },
    {
        if n <= self.end - self.pos {
            let saved = self.end;
            self.end = self.pos + n;
            Ok(saved)
        } else {
            Err(Error::UnexpectedEndOfStream)
        }
    }

    /// Restores a readable bound previously returned by `narrow`.
    pub(crate) fn widen(&mut self, e: usize)
        requires
            old(self).wf(),
            old(self).end() <= e <= old(self).bytes().len(),
        ensures
            final(self).wf(),
            final(self).bytes() == old(self).bytes(),
            final(self).pos() == old(self).pos(),
            final(self).end() == e,
    {
        self.end = e;
    }
}

/// Relates the reader before and after a successful read of `n` bytes: the
/// cursor moved forward by `n` and nothing else changed.
pub open spec fn consumed(r0: Reader, r1: Reader, n: int) -> bool {
    &&& r1.wf()
    &&& r1.bytes() == r0.bytes()
    &&& r1.end() == r0.end()
    &&& r1.pos() == r0.pos() + n
    &&& r1.remaining() == r0.remaining().skip(n)
}

/// Relates the reader before and after a failed read: the buffer and bound
/// are unchanged, though some bytes may already have been consumed. A failure
/// aborts the whole packet, so the exact position is of no further use.
pub open spec fn failed(r0: Reader, r1: Reader) -> bool {
    &&& r1.wf()
    &&& r1.bytes() == r0.bytes()
    &&& r1.end() == r0.end()
    &&& r0.pos() <= r1.pos()
}

/// What decoding a single byte yields: the first remaining byte.
pub open spec fn spec_parse_byte(bytes: Seq<u8>) -> Result<(u8, int), Error> {
    if bytes.len() < 1 {
        Err(Error::UnexpectedEndOfStream)
    } else {
        Ok((bytes[0], 1))
    }
}

/// Write the given byte into `out`. Returns `1`, the count of bytes written.
pub fn write_byte(byte: u8, out: &mut Vec<u8>) -> (n: usize)
    ensures
        final(out)@ == old(out)@.push(byte),
        n == 1,
{
    out.push(byte);
    1
}

/// Read one byte from `reader`.
pub fn read_byte(reader: &mut Reader) -> (r: Result<u8, Error>)
    requires
        old(reader).wf(),
    ensures
        match r {
            Ok(b) => {
                &&& spec_parse_byte(old(reader).remaining()) == Ok::<_, Error>((b, 1int))
                &&& consumed(*old(reader), *final(reader), 1)
            },
            Err(e) => {
                &&& spec_parse_byte(old(reader).remaining()) == Err::<(u8, int), _>(e)
                &&& *final(reader) == *old(reader)
            },
        },
{
    if reader.pos < reader.end {
        let b = reader.buf[reader.pos];
        reader.pos = reader.pos + 1;
        proof {
            assert(reader.remaining() =~= old(reader).remaining().skip(1));
        }
        Ok(b)
    } else {
        Err(Error::UnexpectedEndOfStream)
    }
}

/// The single-byte wire form of a boolean: `0x00` or `0x01`.
pub open spec fn spec_bool(data: bool) -> Seq<u8> {
    seq![if data { 1u8 } else { 0u8 }]
}

/// What decoding a boolean byte yields; any byte besides `0x00` and `0x01`
/// is a protocol violation.
pub open spec fn spec_parse_bool(bytes: Seq<u8>) -> Result<(bool, int), Error> {
    if bytes.len() < 1 {
        Err(Error::UnexpectedEndOfStream)
    } else if bytes[0] == 0 {
        Ok((false, 1))
    } else if bytes[0] == 1 {
        Ok((true, 1))
    } else {
        Err(Error::ProtocolError)
    }
}

/// Write the given bool into `out` as a single byte, `0x00` for `false` and
/// `0x01` for `true`. Returns `1`, the count of bytes written.
pub fn write_bool(data: bool, out: &mut Vec<u8>) -> (n: usize)
    ensures
        final(out)@ == old(out)@ + spec_bool(data),
        n == 1,
{
    out.push(if data { 1 } else { 0 });
    proof {
        assert(out@ =~= old(out)@ + spec_bool(data));
    }
    1
}

/// Read a boolean byte from `reader`.
pub fn read_bool(reader: &mut Reader) -> (r: Result<bool, Error>)
    requires
        old(reader).wf(),
    ensures
        match r {
            Ok(b) => {
                &&& spec_parse_bool(old(reader).remaining()) == Ok::<_, Error>((b, 1int))
                &&& consumed(*old(reader), *final(reader), 1)
            },
            Err(e) => {
                &&& spec_parse_bool(old(reader).remaining()) == Err::<(bool, int), _>(e)
                &&& failed(*old(reader), *final(reader))
            },
        },
{
    let byte = read_byte(reader)?;
    match byte {
        0 => Ok(false),
        1 => Ok(true),
        _ => Err(Error::ProtocolError),
    }
}

/// The big-endian two-byte wire form of a 16-bit integer.
pub open spec fn spec_u16(v: u16) -> Seq<u8> {
    seq![(v / 256) as u8, (v % 256) as u8]
}

/// What decoding a two-byte big-endian integer yields.
pub open spec fn spec_parse_u16(bytes: Seq<u8>) -> Result<(u16, int), Error> {
    if bytes.len() < 2 {
        Err(Error::UnexpectedEndOfStream)
    } else {
        Ok((((bytes[0] as int) * 256 + (bytes[1] as int)) as u16, 2))
    }
}

/// Write a 16-bit integer into `out` as two big-endian bytes.
/// Returns `2`, the count of bytes written.
pub fn write_two_byte_integer(v: u16, out: &mut Vec<u8>) -> (n: usize)
    ensures
        final(out)@ == old(out)@ + spec_u16(v),
        n == 2,
{
    out.push((v / 256) as u8);
    out.push((v % 256) as u8);
    proof {
        assert(out@ =~= old(out)@ + spec_u16(v));
    }
    2
}

/// Read a two-byte big-endian integer from `reader`.
pub fn read_two_byte_integer(reader: &mut Reader) -> (r: Result<u16, Error>)
    requires
        old(reader).wf(),
    ensures
        match r {
            Ok(v) => {
                &&& spec_parse_u16(old(reader).remaining()) == Ok::<_, Error>((v, 2int))
                &&& consumed(*old(reader), *final(reader), 2)
            },
            Err(e) => {
                &&& spec_parse_u16(old(reader).remaining()) == Err::<(u16, int), _>(e)
                &&& failed(*old(reader), *final(reader))
            },
        },
{
    if reader.end - reader.pos < 2 {
        return Err(Error::UnexpectedEndOfStream);
    }
    let hi = reader.buf[reader.pos];
    let lo = reader.buf[reader.pos + 1];
    reader.pos = reader.pos + 2;
    proof {
        assert(reader.remaining() =~= old(reader).remaining().skip(2));
    }
    Ok((hi as u16) * 256 + (lo as u16))
}

/// The big-endian four-byte wire form of a 32-bit integer.
pub open spec fn spec_u32(v: u32) -> Seq<u8> {
    seq![
        (v / 0x1000000) as u8,
        ((v / 0x10000) % 256) as u8,
        ((v / 256) % 256) as u8,
        (v % 256) as u8,
    ]
}

/// What decoding a four-byte big-endian integer yields.
pub open spec fn spec_parse_u32(bytes: Seq<u8>) -> Result<(u32, int), Error> {
    if bytes.len() < 4 {
        Err(Error::UnexpectedEndOfStream)
    } else {
        Ok((
            ((bytes[0] as int) * 0x1000000 + (bytes[1] as int) * 0x10000 + (bytes[2] as int) * 256
                + (bytes[3] as int)) as u32,
            4,
        ))
    }
}

/// Write a 32-bit integer into `out` as four big-endian bytes.
/// Returns `4`, the count of bytes written.
pub fn write_four_byte_integer(v: u32, out: &mut Vec<u8>) -> (n: usize)
    ensures
        final(out)@ == old(out)@ + spec_u32(v),
        n == 4,
{
    out.push((v / 0x1000000) as u8);
    out.push(((v / 0x10000) % 256) as u8);
    out.push(((v / 256) % 256) as u8);
    out.push((v % 256) as u8);
    proof {
        assert(out@ =~= old(out)@ + spec_u32(v));
    }
    4
}

/// Read a four-byte big-endian integer from `reader`.
pub fn read_four_byte_integer(reader: &mut Reader) -> (r: Result<u32, Error>)
    requires
        old(reader).wf(),
    ensures
        match r {
            Ok(v) => {
                &&& spec_parse_u32(old(reader).remaining()) == Ok::<_, Error>((v, 4int))
                &&& consumed(*old(reader), *final(reader), 4)
            },
            Err(e) => {
                &&& spec_parse_u32(old(reader).remaining()) == Err::<(u32, int), _>(e)
                &&& failed(*old(reader), *final(reader))
            },
        },
{
    if reader.end - reader.pos < 4 {
        return Err(Error::UnexpectedEndOfStream);
    }
    let b0 = reader.buf[reader.pos];
    let b1 = reader.buf[reader.pos + 1];
    let b2 = reader.buf[reader.pos + 2];
    let b3 = reader.buf[reader.pos + 3];
    reader.pos = reader.pos + 4;
    proof {
        assert(reader.remaining() =~= old(reader).remaining().skip(4));
    }
    Ok((b0 as u32) * 0x1000000 + (b1 as u32) * 0x10000 + (b2 as u32) * 256 + (b3 as u32))
}

/// The wire form of a variable-length integer: 7 payload bits per byte, least
/// significant group first, the top bit of each byte a continuation flag.
pub open spec fn spec_vli(v: int) -> Seq<u8>
    recommends
        0 <= v <= VARIABLE_BYTE_INTEGER_MAX,
{
    if v < 128 {
        seq![v as u8]
    } else if v < 16384 {
        seq![(v % 128 + 128) as u8, (v / 128) as u8]
    } else if v < 2097152 {
        seq![(v % 128 + 128) as u8, ((v / 128) % 128 + 128) as u8, (v / 16384) as u8]
    } else {
        seq![
            (v % 128 + 128) as u8,
            ((v / 128) % 128 + 128) as u8,
            ((v / 16384) % 128 + 128) as u8,
            (v / 2097152) as u8,
        ]
    }
}

/// What decoding a variable-length integer yields: groups of 7 payload bits
/// until the first byte whose continuation flag is clear; a fourth
/// continuation flag is a protocol violation.
pub open spec fn spec_parse_vli(bytes: Seq<u8>) -> Result<(int, int), Error> {
    if bytes.len() < 1 {
        Err(Error::UnexpectedEndOfStream)
    } else if bytes[0] < 128 {
        Ok((bytes[0] as int, 1))
    } else if bytes.len() < 2 {
        Err(Error::UnexpectedEndOfStream)
    } else if bytes[1] < 128 {
        Ok((bytes[0] - 128 + 128 * (bytes[1] as int), 2))
    } else if bytes.len() < 3 {
        Err(Error::UnexpectedEndOfStream)
    } else if bytes[2] < 128 {
        Ok((bytes[0] - 128 + 128 * (bytes[1] - 128) + 16384 * (bytes[2] as int), 3))
    } else if bytes.len() < 4 {
        Err(Error::UnexpectedEndOfStream)
    } else if bytes[3] < 128 {
        Ok((
            bytes[0] - 128 + 128 * (bytes[1] - 128) + 16384 * (bytes[2] - 128) + 2097152 * (
            bytes[3] as int),
            4,
        ))
    } else {
        Err(Error::ProtocolError)
    }
}

/// Write a variable-length integer into `out`, in 1 to 4 bytes. A value over
/// the 28-bit range cannot be represented and fails instead of truncating.
pub fn write_variable_byte_integer(v: u32, out: &mut Vec<u8>) -> (r: Result<usize, Error>)
    ensures
        match r {
            Ok(n) => {
                &&& v <= VARIABLE_BYTE_INTEGER_MAX
                &&& final(out)@ == old(out)@ + spec_vli(v as int)
                &&& n == spec_vli(v as int).len()
            },
            Err(e) => {
                &&& e == Error::ProtocolError
                &&& v > VARIABLE_BYTE_INTEGER_MAX
                &&& final(out)@ == old(out)@
            },
        },
{
    if v < 128 {
        out.push(v as u8);
        proof {
            assert(out@ =~= old(out)@ + spec_vli(v as int));
        }
        Ok(1)
    } else if v < 16384 {
        out.push((v % 128 + 128) as u8);
        out.push((v / 128) as u8);
        proof {
            assert(out@ =~= old(out)@ + spec_vli(v as int));
        }
        Ok(2)
    } else if v < 2097152 {
        out.push((v % 128 + 128) as u8);
        out.push(((v / 128) % 128 + 128) as u8);
        out.push((v / 16384) as u8);
        proof {
            assert(out@ =~= old(out)@ + spec_vli(v as int));
        }
        Ok(3)
    } else if v <= VARIABLE_BYTE_INTEGER_MAX {
        out.push((v % 128 + 128) as u8);
        out.push(((v / 128) % 128 + 128) as u8);
        out.push(((v / 16384) % 128 + 128) as u8);
        out.push((v / 2097152) as u8);
        proof {
            assert(out@ =~= old(out)@ + spec_vli(v as int));
        }
        Ok(4)
    } else {
        Err(Error::ProtocolError)
    }
}

/// Read a variable-length integer from `reader`.
pub fn read_variable_byte_integer(reader: &mut Reader) -> (r: Result<u32, Error>)
    requires
        old(reader).wf(),
    ensures
        match r {
            Ok(v) => {
                &&& spec_parse_vli(old(reader).remaining()) matches Ok(p) && p.0 == v as int
                    && consumed(*old(reader), *final(reader), p.1)
                &&& v <= VARIABLE_BYTE_INTEGER_MAX
            },
            Err(e) => {
                &&& spec_parse_vli(old(reader).remaining()) == Err::<(int, int), _>(e)
                &&& failed(*old(reader), *final(reader))
            },
        },
{
    let ghost rem = old(reader).remaining();
    let b0 = read_byte(reader)?;
    if b0 < 128 {
        return Ok(b0 as u32);
    }
    let b1 = read_byte(reader)?;
    proof {
        assert(rem.skip(1)[0] == rem[1]);
        assert(rem.skip(1).skip(1) =~= rem.skip(2));
    }
    if b1 < 128 {
        return Ok((b0 - 128) as u32 + 128 * (b1 as u32));
    }
    let b2 = read_byte(reader)?;
    proof {
        assert(rem.skip(2)[0] == rem[2]);
        assert(rem.skip(2).skip(1) =~= rem.skip(3));
    }
    if b2 < 128 {
        return Ok((b0 - 128) as u32 + 128 * ((b1 - 128) as u32) + 16384 * (b2 as u32));
    }
    let b3 = read_byte(reader)?;
    proof {
        assert(rem.skip(3)[0] == rem[3]);
        assert(rem.skip(3).skip(1) =~= rem.skip(4));
    }
    if b3 < 128 {
        Ok((b0 - 128) as u32 + 128 * ((b1 - 128) as u32) + 16384 * ((b2 - 128) as u32) + 2097152
            * (b3 as u32))
    } else {
        Err(Error::ProtocolError)
    }
}

/// Read exactly `n` bytes from `reader` into a fresh buffer.
pub(crate) fn read_chunk(reader: &mut Reader, n: usize) -> (r: Result<Vec<u8>, Error>)
    requires
        old(reader).wf(),
    ensures
        match r {
            Ok(v) => {
                &&& n <= old(reader).remaining().len()
                &&& v@ == old(reader).remaining().take(n as int)
                &&& consumed(*old(reader), *final(reader), n as int)
            },
            Err(e) => {
                &&& e == Error::UnexpectedEndOfStream
                &&& n > old(reader).remaining().len()
                &&& *final(reader) == *old(reader)
            },
        },
{
    if reader.end - reader.pos < n {
        return Err(Error::UnexpectedEndOfStream);
    }
    let mut v: Vec<u8> = Vec::new();
    let mut i: usize = 0;
    while i < n
        invariant
            *reader == *old(reader),
            reader.wf(),
            i <= n,
            n <= reader.remaining().len(),
            v@ == reader.remaining().take(i as int),
        decreases n - i,
    {
        let b = reader.buf[reader.pos + i];
        v.push(b);
        proof {
            assert(v@ =~= reader.remaining().take(i + 1));
        }
        i = i + 1;
    }
    reader.pos = reader.pos + n;
    proof {
        assert(reader.remaining() =~= old(reader).remaining().skip(n as int));
    }
    Ok(v)
}

/// The wire form of a length-prefixed binary blob: a two-byte big-endian
/// length, then the bytes themselves.
pub open spec fn spec_binary(data: Seq<u8>) -> Seq<u8>
    recommends
        data.len() <= 65535,
{
    spec_u16(data.len() as u16) + data
}

/// What decoding a length-prefixed binary blob yields.
pub open spec fn spec_parse_binary(bytes: Seq<u8>) -> Result<(Seq<u8>, int), Error> {
    match spec_parse_u16(bytes) {
        Ok(p) => {
            let len = p.0 as int;
            if bytes.len() < 2 + len {
                Err(Error::UnexpectedEndOfStream)
            } else {
                Ok((bytes.subrange(2, 2 + len), 2 + len))
            }
        },
        Err(e) => Err(e),
    }
}

/// Write a length-prefixed binary blob into `out`. Blobs over 65,535 bytes
/// cannot be represented and fail.
pub fn write_binary_data(data: &Vec<u8>, out: &mut Vec<u8>) -> (r: Result<usize, Error>)
    ensures
        match r {
            Ok(n) => {
                &&& data@.len() <= 65535
                &&& final(out)@ == old(out)@ + spec_binary(data@)
                &&& n == spec_binary(data@).len()
            },
            Err(e) => {
                &&& e == Error::ProtocolError
                &&& data@.len() > 65535
                &&& final(out)@ == old(out)@
            },
        },
{
    if data.len() > 65535 {
        return Err(Error::ProtocolError);
    }
    write_two_byte_integer(data.len() as u16, out);
    out.extend_from_slice(data.as_slice());
    proof {
        assert(out@ =~= old(out)@ + spec_binary(data@));
    }
    Ok(2 + data.len())
}

/// Read a length-prefixed binary blob from `reader`.
pub fn read_binary_data(reader: &mut Reader) -> (r: Result<Vec<u8>, Error>)
    requires
        old(reader).wf(),
    ensures
        match r {
            Ok(v) => spec_parse_binary(old(reader).remaining()) matches Ok(p) && p.0 == v@
                && consumed(*old(reader), *final(reader), p.1),
            Err(e) => {
                &&& spec_parse_binary(old(reader).remaining()) == Err::<(Seq<u8>, int), _>(e)
                &&& failed(*old(reader), *final(reader))
            },
        },
{
    let ghost rem = old(reader).remaining();
    let len = read_two_byte_integer(reader)?;
    let data = match read_chunk(reader, len as usize) {
        Ok(v) => v,
        Err(e) => {
            return Err(e);
        },
    };
    proof {
        assert(rem.skip(2).take(len as int) =~= rem.subrange(2, 2 + len as int));
        assert(rem.skip(2).skip(len as int) =~= rem.skip(2 + len as int));
    }
    Ok(data)
}

/// Relies on `String::from_utf8`: it returns `Ok` exactly when the bytes are
/// a valid UTF-8 encoding, and then the string's characters are their
/// decoding.
#[verifier::external_body]
fn string_from_utf8(bytes: Vec<u8>) -> (r: Option<String>)
    ensures
        match r {
            Some(s) => vstd::utf8::valid_utf8(bytes@) && s@ == vstd::utf8::decode_utf8(bytes@),
            None => !vstd::utf8::valid_utf8(bytes@),
        },
{
    String::from_utf8(bytes).ok()
}

/// The wire form of length-prefixed text: a two-byte big-endian length, then
/// that many bytes of the characters' UTF-8 encoding.
pub open spec fn spec_text(s: Seq<char>) -> Seq<u8>
    recommends
        vstd::utf8::encode_utf8(s).len() <= 65535,
{
    spec_binary(vstd::utf8::encode_utf8(s))
}

/// What decoding length-prefixed text yields; bytes that are not valid UTF-8
/// are a protocol violation.
pub open spec fn spec_parse_text(bytes: Seq<u8>) -> Result<(Seq<char>, int), Error> {
    match spec_parse_binary(bytes) {
        Ok(p) => {
            if vstd::utf8::valid_utf8(p.0) {
                Ok((vstd::utf8::decode_utf8(p.0), p.1))
            } else {
                Err(Error::ProtocolError)
            }
        },
        Err(e) => Err(e),
    }
}

/// Write length-prefixed UTF-8 text into `out`. Text whose encoding exceeds
/// 65,535 bytes cannot be represented and fails.
pub fn write_utf8_string(data: &str, out: &mut Vec<u8>) -> (r: Result<usize, Error>)
    ensures
        match r {
            Ok(n) => {
                &&& vstd::utf8::encode_utf8(data@).len() <= 65535
                &&& final(out)@ == old(out)@ + spec_text(data@)
                &&& n == spec_text(data@).len()
            },
            Err(e) => {
                &&& e == Error::ProtocolError
                &&& vstd::utf8::encode_utf8(data@).len() > 65535
                &&& final(out)@ == old(out)@
            },
        },
{
    let bytes = data.as_bytes_vec();
    write_binary_data(&bytes, out)
}

/// Read length-prefixed UTF-8 text from `reader`.
pub fn read_utf8_string(reader: &mut Reader) -> (r: Result<String, Error>)
    requires
        old(reader).wf(),
    ensures
        match r {
            Ok(s) => spec_parse_text(old(reader).remaining()) matches Ok(p) && p.0 == s@
                && consumed(*old(reader), *final(reader), p.1),
            Err(e) => {
                &&& spec_parse_text(old(reader).remaining()) == Err::<(Seq<char>, int), _>(e)
                &&& failed(*old(reader), *final(reader))
            },
        },
{
    let bytes = read_binary_data(reader)?;
    match string_from_utf8(bytes) {
        Some(s) => Ok(s),
        None => Err(Error::ProtocolError),
    }
}

/// The byte length of a variable-length integer, as a function of the
/// value's range: one byte per 7 bits of magnitude.
pub proof fn lemma_vli_len(v: int)
    requires
        0 <= v <= VARIABLE_BYTE_INTEGER_MAX,
    ensures
        spec_vli(v).len() == if v < 128 {
            1int
        } else if v < 16384 {
            2int
        } else if v < 2097152 {
            3int
        } else {
            4int
        },
{
}

/// Decoding a variable-length integer's wire form, with any suffix behind
/// it, yields the value back and consumes exactly the wire form.
pub proof fn lemma_parse_vli_round_trip(v: int, rest: Seq<u8>)
    requires
        0 <= v <= VARIABLE_BYTE_INTEGER_MAX,
    ensures
        spec_parse_vli(spec_vli(v) + rest) == Ok::<_, Error>((v, spec_vli(v).len() as int)),
{
    vstd::arithmetic::div_mod::lemma_div_denominator(v, 128, 128);
    vstd::arithmetic::div_mod::lemma_div_denominator(v, 16384, 128);
    let b = spec_vli(v) + rest;
    if v < 128 {
        assert(b[0] == v as u8);
    } else if v < 16384 {
        assert(b[0] == (v % 128 + 128) as u8 && b[1] == (v / 128) as u8);
    } else if v < 2097152 {
        assert(b[0] == (v % 128 + 128) as u8 && b[1] == ((v / 128) % 128 + 128) as u8 && b[2]
            == (v / 16384) as u8);
    } else {
        assert(b[0] == (v % 128 + 128) as u8 && b[1] == ((v / 128) % 128 + 128) as u8 && b[2] == (
        (v / 16384) % 128 + 128) as u8 && b[3] == (v / 2097152) as u8);
    }
}

/// Decoding a two-byte integer's wire form, with any suffix behind it,
/// yields the value back and consumes exactly the two bytes.
pub proof fn lemma_parse_u16_round_trip(v: u16, rest: Seq<u8>)
    ensures
        spec_parse_u16(spec_u16(v) + rest) == Ok::<_, Error>((v, 2int)),
{
    let b = spec_u16(v) + rest;
    assert(b[0] == (v / 256) as u8 && b[1] == (v % 256) as u8);
}

/// Decoding a four-byte integer's wire form, with any suffix behind it,
/// yields the value back and consumes exactly the four bytes.
pub proof fn lemma_parse_u32_round_trip(v: u32, rest: Seq<u8>)
    ensures
        spec_parse_u32(spec_u32(v) + rest) == Ok::<_, Error>((v, 4int)),
{
    vstd::arithmetic::div_mod::lemma_div_denominator(v as int, 256, 256);
    vstd::arithmetic::div_mod::lemma_div_denominator(v as int, 65536, 256);
    let b = spec_u32(v) + rest;
    assert(b[0] == (v / 0x1000000) as u8 && b[1] == ((v / 0x10000) % 256) as u8 && b[2] == ((v
        / 256) % 256) as u8 && b[3] == (v % 256) as u8);
}

/// Decoding a boolean's wire form, with any suffix behind it, yields the
/// value back and consumes exactly one byte.
pub proof fn lemma_parse_bool_round_trip(v: bool, rest: Seq<u8>)
    ensures
        spec_parse_bool(spec_bool(v) + rest) == Ok::<_, Error>((v, 1int)),
{
    let b = spec_bool(v) + rest;
    assert(b[0] == if v { 1u8 } else { 0u8 });
}

/// Decoding a binary blob's wire form, with any suffix behind it, yields the
/// blob back and consumes exactly the wire form.
pub proof fn lemma_parse_binary_round_trip(data: Seq<u8>, rest: Seq<u8>)
    requires
        data.len() <= 65535,
    ensures
        spec_parse_binary(spec_binary(data) + rest) == Ok::<_, Error>((data, spec_binary(
            data,
        ).len() as int)),
{
    let n = data.len() as u16;
    assert(spec_binary(data) + rest =~= spec_u16(n) + (data + rest));
    lemma_parse_u16_round_trip(n, data + rest);
    assert((spec_binary(data) + rest).subrange(2, 2 + data.len() as int) =~= data);
}

/// Decoding text's wire form, with any suffix behind it, yields the
/// characters back and consumes exactly the wire form.
pub proof fn lemma_parse_text_round_trip(s: Seq<char>, rest: Seq<u8>)
    requires
        vstd::utf8::encode_utf8(s).len() <= 65535,
    ensures
        spec_parse_text(spec_text(s) + rest) == Ok::<_, Error>((s, spec_text(s).len() as int)),
{
    lemma_parse_binary_round_trip(vstd::utf8::encode_utf8(s), rest);
    vstd::utf8::encode_utf8_valid_utf8(s);
    vstd::utf8::encode_utf8_decode_utf8(s);
}

} // verus!
