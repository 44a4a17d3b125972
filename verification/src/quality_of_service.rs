use vstd::prelude::*;

verus! {

use crate::codec::{self, Reader};
use crate::error::Error;

/// The delivery guarantee a message is published or granted with.
#[derive(Debug, Clone, Copy, PartialEq, Eq, Structural)]
pub enum QoS {
    /// Fire and forget: the message is delivered at most once.
    AtMostOnce,
    /// The message is delivered at least once, acknowledged by the receiver.
    AtLeastOnce,
    /// The message is delivered exactly once, through a two-step handshake.
    ExactlyOnce,
}

impl QoS {
    /// The single-byte wire form of the level.
    pub open spec fn code(self) -> u8 {
        match self {
            QoS::AtMostOnce => 0,
            QoS::AtLeastOnce => 1,
            QoS::ExactlyOnce => 2,
        }
    }

    /// Write the level into `out` as one byte. Returns `1`.
    pub fn encode(self, out: &mut Vec<u8>) -> (n: usize)
        ensures
            final(out)@ == old(out)@.push(self.code()),
            n == 1,
    {
        let b: u8 = match self {
            QoS::AtMostOnce => 0,
            QoS::AtLeastOnce => 1,
            QoS::ExactlyOnce => 2,
        };
        out.push(b);
        1
    }

    /// Read a quality-of-service byte from `reader`.
    pub fn decode(reader: &mut Reader) -> (r: Result<QoS, Error>)
        requires
            old(reader).wf(),
        ensures
            match r {
                Ok(q) => {
                    &&& spec_parse_qos(old(reader).remaining()) == Ok::<_, Error>((q, 1int))
                    &&& codec::consumed(*old(reader), *final(reader), 1)
                },
                Err(e) => {
                    &&& spec_parse_qos(old(reader).remaining()) == Err::<(QoS, int), _>(e)
                    &&& codec::failed(*old(reader), *final(reader))
                },
            },
    {
        let b = codec::read_byte(reader)?;
        match b {
            0 => Ok(QoS::AtMostOnce),
            1 => Ok(QoS::AtLeastOnce),
            2 => Ok(QoS::ExactlyOnce),
            _ => Err(Error::ProtocolError),
        }
    }
}

/// What decoding a quality-of-service byte yields; any byte besides `0x00`,
/// `0x01` and `0x02` is a protocol violation.
pub open spec fn spec_parse_qos(bytes: Seq<u8>) -> Result<(QoS, int), Error> {
    if bytes.len() < 1 {
        Err(Error::UnexpectedEndOfStream)
    } else if bytes[0] == 0 {
        Ok((QoS::AtMostOnce, 1))
    } else if bytes[0] == 1 {
        Ok((QoS::AtLeastOnce, 1))
    } else if bytes[0] == 2 {
        Ok((QoS::ExactlyOnce, 1))
    } else {
        Err(Error::ProtocolError)
    }
}

/// Decoding a quality-of-service byte, with any suffix behind it, yields the
/// level back and consumes exactly one byte.
pub proof fn lemma_parse_qos_round_trip(q: QoS, rest: Seq<u8>)
    ensures
        spec_parse_qos(seq![q.code()] + rest) == Ok::<_, Error>((q, 1int)),
{
    let b = seq![q.code()] + rest;
    assert(b[0] == q.code());
}

} // verus!
