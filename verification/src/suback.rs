use vstd::prelude::*;

verus! {

use crate::codec::{self, spec_u16, spec_vli, Reader, VARIABLE_BYTE_INTEGER_MAX};
use crate::error::Error;
use crate::property::{
    lemma_parse_fold_round_trip, props_bytes, spec_fold, spec_parse_fold, spec_take_region,
    user_prop_models, user_props_encodable, write_user_properties, PropertiesDecoder, Property,
    PropertyModel,
};
use crate::reason_code::{spec_try_parse, ControlPacketType, ReasonCode};
use vstd::utf8::encode_utf8;

/// A subscribe-acknowledgment packet body: the server's answer to a
/// subscribe request, with one reason code per requested topic filter.
#[derive(Debug, PartialEq, Clone)]
pub struct SubAck {
    /// The identifier of the subscribe being acknowledged.
    pub packet_identifier: u16,
    /// Free-form name and value pairs, kept in order.
    pub user_properties: Vec<(String, String)>,
    /// One outcome per requested topic filter, in request order; the list
    /// runs to the end of the packet's declared remaining length.
    pub reason_codes: Vec<ReasonCode>,
}

/// The mathematical value of a [`SubAck`] packet.
pub ghost struct SubAckModel {
    pub packet_identifier: u16,
    pub user_properties: Seq<(Seq<char>, Seq<char>)>,
    pub reason_codes: Seq<ReasonCode>,
}

impl View for SubAck {
    type V = SubAckModel;

    open spec fn view(&self) -> SubAckModel {
        SubAckModel {
            packet_identifier: self.packet_identifier,
            user_properties: self.user_properties.deep_view(),
            reason_codes: self.reason_codes.deep_view(),
        }
    }
}

/// The wire form of a reason-code list: one byte per code.
pub open spec fn reason_codes_bytes(l: Seq<ReasonCode>) -> Seq<u8> {
    l.map_values(|rc: ReasonCode| rc.code())
}

/// What decoding a byte range as a reason-code list for a subscribe
/// acknowledgment yields: every byte must be a code legal there.
pub open spec fn spec_parse_reason_codes(bytes: Seq<u8>) -> Result<Seq<ReasonCode>, Error>
    decreases bytes.len(),
{
    if bytes.len() == 0 {
        Ok(Seq::empty())
    } else {
        match spec_try_parse(bytes[0], ControlPacketType::SUBACK) {
            Ok(rc) => match spec_parse_reason_codes(bytes.drop_first()) {
                Ok(l) => Ok(seq![rc] + l),
                Err(e) => Err(e),
            },
            Err(e) => Err(e),
        }
    }
}

impl SubAckModel {
    /// The properties of the packet's region: only user properties are
    /// allowed here.
    pub open spec fn props(self) -> Seq<PropertyModel> {
        user_prop_models(self.user_properties)
    }

    /// The bytes of the packet's properties region.
    pub open spec fn region(self) -> Seq<u8> {
        props_bytes(self.props())
    }

    /// Whether the packet can be represented on the wire.
    pub open spec fn encodable(self) -> bool {
        &&& user_props_encodable(self.user_properties)
        &&& self.region().len() <= VARIABLE_BYTE_INTEGER_MAX
    }

    /// A packet that can be represented and all of whose reason codes are
    /// legal in a subscribe acknowledgment.
    pub open spec fn wf(self) -> bool {
        &&& self.encodable()
        &&& forall|i: int|
            0 <= i < self.reason_codes.len() ==> (#[trigger] self.reason_codes[i]).valid_in(
                ControlPacketType::SUBACK,
            )
    }

    /// The packet body's full wire form: the identifier, the region's
    /// length, the region, then the reason codes.
    pub open spec fn spec_bytes(self) -> Seq<u8> {
        spec_u16(self.packet_identifier) + spec_vli(self.region().len() as int) + self.region()
            + reason_codes_bytes(self.reason_codes)
    }
}

/// What decoding a subscribe-acknowledgment packet body yields, given the
/// remaining length the outer frame declared for it: the identifier, a
/// properties region holding only user properties, then reason codes up to
/// exactly the declared length. The result carries the model and the bytes
/// consumed, which is the declared length itself.
pub open spec fn spec_parse_suback(bytes: Seq<u8>, remaining_size: int) -> Result<
    (SubAckModel, int),
    Error,
> {
    if remaining_size < 0 || bytes.len() < remaining_size {
        Err(Error::UnexpectedEndOfStream)
    } else {
        let body = bytes.take(remaining_size);
        match codec::spec_parse_u16(body) {
            Ok(pid) => match spec_take_region(body.skip(2)) {
                Ok(t) => match spec_parse_fold(t.0, Set::empty(), suback_init(), suback_step()) {
                    Ok(acc) => match spec_parse_reason_codes(body.skip(2 + t.1)) {
                        Ok(l) => Ok(
                            (
                                SubAckModel {
                                    packet_identifier: pid.0,
                                    user_properties: acc.user_properties,
                                    reason_codes: l,
                                },
                                remaining_size,
                            ),
                        ),
                        Err(e) => Err(e),
                    },
                    Err(e) => Err(e),
                },
                Err(e) => Err(e),
            },
            Err(e) => Err(e),
        }
    }
}

/// The state a subscribe-acknowledgment decode accumulates while reading
/// its properties region.
pub ghost struct SubAckAcc {
    pub user_properties: Seq<(Seq<char>, Seq<char>)>,
}

/// The state before any property has been read.
pub open spec fn suback_init() -> SubAckAcc {
    SubAckAcc { user_properties: Seq::empty() }
}

/// How a subscribe acknowledgment folds one decoded property into its
/// state; any property kind besides a user property is a protocol
/// violation.
pub open spec fn suback_step() -> spec_fn(SubAckAcc, PropertyModel) -> Result<SubAckAcc, Error> {
    |acc: SubAckAcc, p: PropertyModel|
        match p {
            PropertyModel::UserProperty(k, v) => Ok(
                SubAckAcc { user_properties: acc.user_properties.push((k, v)) },
            ),
            _ => Err(Error::ProtocolError),
        }
}

impl Default for SubAck {
    /// An acknowledgment of packet identifier zero with no properties and
    /// no reason codes.
    fn default() -> (d: SubAck)
        ensures
            d@.packet_identifier == 0,
            d@.user_properties == Seq::<(Seq<char>, Seq<char>)>::empty(),
            d@.reason_codes == Seq::<ReasonCode>::empty(),
    {
        SubAck { packet_identifier: 0, user_properties: Vec::new(), reason_codes: Vec::new() }
    }
}

impl SubAck {
    /// Write the packet body into `writer` and return the byte count.
    #[verifier::loop_isolation(false)]
    pub fn write(self, writer: &mut Vec<u8>) -> (r: Result<usize, Error>)
        ensures
            r is Ok <==> self@.encodable(),
            match r {
                Ok(n) => {
                    &&& final(writer)@ == old(writer)@ + self@.spec_bytes()
                    &&& n == self@.spec_bytes().len()
                },
                Err(e) => e == Error::ProtocolError,
            },
    {
        let ghost m = self@;
        let start = writer.len();
        codec::write_two_byte_integer(self.packet_identifier, writer);

        let mut properties: Vec<u8> = Vec::new();
        proof {
            assert(Seq::<PropertyModel>::empty() + user_prop_models(m.user_properties)
                =~= m.props());
            assert(properties@ =~= props_bytes(Seq::<PropertyModel>::empty()));
        }
        write_user_properties(
            self.user_properties,
            Ghost(Seq::<PropertyModel>::empty()),
            &mut properties,
        )?;

        if properties.len() > 268435455 {
            return Err(Error::ProtocolError);
        }
        let vn = match codec::write_variable_byte_integer(properties.len() as u32, writer) {
            Ok(k) => k,
            Err(_) => {
                return Err(Error::ProtocolError);
            },
        };
        writer.append(&mut properties);

        let ghost mid = writer@;
        let mut i: usize = 0;
        while i < self.reason_codes.len()
            invariant
                i <= self.reason_codes.len(),
                writer@ == mid + reason_codes_bytes(m.reason_codes.take(i as int)),
            decreases self.reason_codes.len() - i,
        {
            self.reason_codes[i].write_byte(writer);
            proof {
                assert(reason_codes_bytes(m.reason_codes.take(i + 1)) =~= reason_codes_bytes(
                    m.reason_codes.take(i as int),
                ).push(m.reason_codes[i as int].code()));
            }
            i = i + 1;
        }
        proof {
            assert(m.reason_codes.take(m.reason_codes.len() as int) =~= m.reason_codes);
            assert(writer@ =~= old(writer)@ + m.spec_bytes());
        }
        let n = writer.len() - start;
        Ok(n)
    }

    /// Read a packet body from `reader`, consuming exactly the remaining
    /// length the outer frame declared for it.
    #[verifier::loop_isolation(false)]
    #[verifier::rlimit(100)]
    pub fn read(reader: &mut Reader, remaining_size: usize) -> (r: Result<SubAck, Error>)
        requires
            old(reader).wf(),
        ensures
            match r {
                Ok(a) => spec_parse_suback(old(reader).remaining(), remaining_size as int)
                    matches Ok(t) && t.0 == a@ && codec::consumed(
                    *old(reader),
                    *final(reader),
                    remaining_size as int,
                ),
                Err(e) => {
                    &&& spec_parse_suback(old(reader).remaining(), remaining_size as int) == Err::<
                        (SubAckModel, int),
                        _,
                    >(e)
                    &&& codec::failed(*old(reader), *final(reader))
                },
            },
    {
        let ghost rem = old(reader).remaining();
        let saved_end = reader.narrow(remaining_size)?;
        let ghost body = rem.take(remaining_size as int);
        proof {
            assert(reader.remaining() =~= body);
        }

        let packet_identifier = match codec::read_two_byte_integer(reader) {
            Ok(v) => v,
            Err(e) => {
                reader_fail(reader, saved_end);
                return Err(e);
            },
        };
        let mut properties = match PropertiesDecoder::take(reader) {
            Ok(d) => d,
            Err(e) => {
                reader_fail(reader, saved_end);
                return Err(e);
            },
        };
        let acc = match read_suback_properties(&mut properties) {
            Ok(t) => t,
            Err(e) => {
                reader_fail(reader, saved_end);
                return Err(e);
            },
        };
        let user_properties = acc;

        let ghost codes0 = reader.remaining();
        proof {
            let t1 = spec_take_region(body.skip(2))->Ok_0;
            assert(body.skip(2).skip(t1.1) =~= body.skip(2 + t1.1));
            assert(codes0 == body.skip(2 + t1.1));
        }
        let mut reason_codes: Vec<ReasonCode> = Vec::new();
        proof {
            assert(reason_codes.deep_view() =~= Seq::<ReasonCode>::empty());
        }
        while reader.remaining_len() > 0
            invariant
                reader.wf(),
                reader.bytes() == old(reader).bytes(),
                reader.end() == old(reader).pos() + remaining_size,
                reader.pos() >= old(reader).pos(),
                saved_end == old(reader).end(),
                spec_parse_reason_codes(codes0) == match spec_parse_reason_codes(
                    reader.remaining(),
                ) {
                    Ok(l) => Ok::<Seq<ReasonCode>, Error>(reason_codes.deep_view() + l),
                    Err(e) => Err(e),
                },
            decreases reader.remaining().len(),
        {
            let ghost r0 = reader.remaining();
            let ghost codes_before = reason_codes.deep_view();
            let b = match codec::read_byte(reader) {
                Ok(b) => b,
                Err(e) => {
                    reader_fail(reader, saved_end);
                    return Err(e);
                },
            };
            let rc = match ReasonCode::try_parse(b, ControlPacketType::SUBACK) {
                Ok(rc) => rc,
                Err(e) => {
                    proof {
                        assert(spec_parse_reason_codes(r0) == Err::<Seq<ReasonCode>, Error>(e));
                    }
                    reader_fail(reader, saved_end);
                    return Err(e);
                },
            };
            reason_codes.push(rc);
            proof {
                assert(r0.drop_first() =~= r0.skip(1));
                assert(reason_codes.deep_view() =~= codes_before.push(rc));
                assert forall|l: Seq<ReasonCode>| true implies (codes_before + (seq![rc] + l))
                    =~= (codes_before.push(rc) + l) by {}
            }
        }
        proof {
            assert(reader.remaining().len() == 0);
            assert(spec_parse_reason_codes(reader.remaining()) == Ok::<Seq<ReasonCode>, Error>(
                Seq::empty(),
            ));
            assert(reason_codes.deep_view() + Seq::<ReasonCode>::empty() =~= reason_codes
                .deep_view());
        }
        reader.widen(saved_end);
        proof {
            assert(reader.remaining() =~= rem.skip(remaining_size as int));
        }

        let a = SubAck { packet_identifier, user_properties, reason_codes };
        Ok(a)
    }
}

/// Restore a reader's bound after a failure inside a narrowed range.
fn reader_fail(reader: &mut Reader, saved_end: usize)
    requires
        old(reader).wf(),
        old(reader).end() <= saved_end <= old(reader).bytes().len(),
    ensures
        final(reader).wf(),
        final(reader).bytes() == old(reader).bytes(),
        final(reader).pos() == old(reader).pos(),
        final(reader).end() == saved_end,
{
    reader.widen(saved_end);
}

/// Read every property of a subscribe acknowledgment's region: the user
/// properties, in wire order.
#[verifier::loop_isolation(false)]
#[verifier::rlimit(100)]
fn read_suback_properties(properties: &mut PropertiesDecoder) -> (r: Result<
    Vec<(String, String)>,
    Error,
>)
    requires
        old(properties).wf(),
    ensures
        match r {
            Ok(t) => spec_parse_fold(
                old(properties).remaining(),
                old(properties).seen_set(),
                suback_init(),
                suback_step(),
            ) == Ok::<SubAckAcc, Error>(SubAckAcc { user_properties: t.deep_view() }),
            Err(e) => spec_parse_fold(
                old(properties).remaining(),
                old(properties).seen_set(),
                suback_init(),
                suback_step(),
            ) == Err::<SubAckAcc, Error>(e),
        },
{
    let ghost region0 = old(properties).remaining();
    let ghost seen0 = old(properties).seen_set();

    let mut user_properties: Vec<(String, String)> = Vec::new();
    proof {
        assert(user_properties.deep_view() =~= Seq::<(Seq<char>, Seq<char>)>::empty());
        assert(SubAckAcc { user_properties: user_properties.deep_view() } == suback_init());
    }
    while properties.has_properties()
        invariant
            properties.wf(),
            spec_parse_fold(region0, seen0, suback_init(), suback_step()) == spec_parse_fold(
                properties.remaining(),
                properties.seen_set(),
                SubAckAcc { user_properties: user_properties.deep_view() },
                suback_step(),
            ),
        decreases properties.remaining().len(),
    {
        let ghost acc0 = SubAckAcc { user_properties: user_properties.deep_view() };
        let ghost d0_rem = properties.remaining();
        let ghost d0_seen = properties.seen_set();
        let p = match properties.read() {
            Ok(p) => p,
            Err(e) => {
                proof {
                    assert(spec_parse_fold(d0_rem, d0_seen, acc0, suback_step())
                        == Err::<SubAckAcc, Error>(e));
                }
                return Err(e);
            },
        };
        proof {
            let t = crate::property::spec_read_prop(d0_rem, d0_seen)->Ok_0;
            assert(spec_parse_fold(d0_rem, d0_seen, acc0, suback_step()) == match suback_step()(
                acc0,
                t.0,
            ) {
                Ok(a2) => spec_parse_fold(d0_rem.skip(t.1), t.2, a2, suback_step()),
                Err(e) => Err(e),
            });
        }
        match p {
            Property::UserProperty(k, v) => {
                let ghost ups0 = user_properties.deep_view();
                let ghost kv = (k@, v@);
                user_properties.push((k, v));
                proof {
                    assert(user_properties.deep_view() =~= ups0.push(kv));
                }
            },
            _ => {
                return Err(Error::ProtocolError);
            },
        }
    }
    Ok(user_properties)
}

/// Decoding a reason-code list's wire form yields the list back, provided
/// every code is legal in a subscribe acknowledgment.
proof fn lemma_parse_reason_codes_round_trip(l: Seq<ReasonCode>)
    requires
        forall|i: int|
            0 <= i < l.len() ==> (#[trigger] l[i]).valid_in(ControlPacketType::SUBACK),
    ensures
        spec_parse_reason_codes(reason_codes_bytes(l)) == Ok::<_, Error>(l),
    decreases l.len(),
{
    let bytes = reason_codes_bytes(l);
    if l.len() == 0 {
        assert(bytes.len() == 0);
        assert(l =~= Seq::<ReasonCode>::empty());
    } else {
        assert(bytes[0] == l[0].code());
        assert(l[0].valid_in(ControlPacketType::SUBACK));
        assert(crate::reason_code::spec_reason_code(l[0].code()) == Some(l[0]));
        assert(spec_try_parse(bytes[0], ControlPacketType::SUBACK) == Ok::<ReasonCode, Error>(
            l[0],
        ));
        assert(bytes.len() > 0);
        assert(bytes.drop_first() =~= reason_codes_bytes(l.drop_first()));
        assert forall|i: int| 0 <= i < l.drop_first().len() implies (#[trigger] l.drop_first()[i])
            .valid_in(ControlPacketType::SUBACK) by {
            assert(l.drop_first()[i] == l[i + 1]);
        }
        lemma_parse_reason_codes_round_trip(l.drop_first());
        assert(spec_parse_reason_codes(bytes.drop_first()) == Ok::<Seq<ReasonCode>, Error>(
            l.drop_first(),
        ));
        assert(spec_parse_reason_codes(bytes) == Ok::<Seq<ReasonCode>, Error>(
            seq![l[0]] + l.drop_first(),
        ));
        assert(seq![l[0]] + l.drop_first() =~= l);
    }
}

/// Decoding the wire form of a representable subscribe acknowledgment all
/// of whose reason codes are legal there, given its own length as the
/// declared remaining length, yields the packet back and consumes the whole
/// wire form.
pub proof fn lemma_suback_round_trip(m: SubAckModel)
    requires
        m.wf(),
    ensures
        spec_parse_suback(m.spec_bytes(), m.spec_bytes().len() as int) == Ok::<_, Error>(
            (m, m.spec_bytes().len() as int),
        ),
{
    let bytes = m.spec_bytes();
    let rlen = m.region().len() as int;
    let vlen = spec_vli(rlen).len() as int;
    assert(bytes.take(bytes.len() as int) =~= bytes);
    lemma_suback_layout(m);
    lemma_suback_region_parse(m);
    lemma_parse_reason_codes_round_trip(m.reason_codes);
}

/// How a subscribe acknowledgment's wire form splits: the identifier, the
/// region behind its length prefix, then the reason-code bytes.
#[verifier::rlimit(100)]
proof fn lemma_suback_layout(m: SubAckModel)
    requires
        m.encodable(),
    ensures
        codec::spec_parse_u16(m.spec_bytes()) == Ok::<_, Error>((m.packet_identifier, 2int)),
        spec_take_region(m.spec_bytes().skip(2)) == Ok::<_, Error>(
            (m.region(), spec_vli(m.region().len() as int).len() + m.region().len() as int),
        ),
        m.spec_bytes().skip(
            2 + spec_vli(m.region().len() as int).len() + m.region().len() as int,
        ) == reason_codes_bytes(m.reason_codes),
        m.spec_bytes().len() == 2 + spec_vli(m.region().len() as int).len() + m.region().len()
            + m.reason_codes.len(),
{
    let bytes = m.spec_bytes();
    let region = m.region();
    let rlen = region.len() as int;

    let tail1 = spec_vli(rlen) + region + reason_codes_bytes(m.reason_codes);
    codec::lemma_parse_u16_round_trip(m.packet_identifier, tail1);
    assert(bytes =~= spec_u16(m.packet_identifier) + tail1);
    assert(bytes.skip(2) =~= tail1);

    codec::lemma_parse_vli_round_trip(rlen, region + reason_codes_bytes(m.reason_codes));
    assert(tail1 =~= spec_vli(rlen) + (region + reason_codes_bytes(m.reason_codes)));
    let vlen = spec_vli(rlen).len() as int;
    assert(tail1.subrange(vlen, vlen + rlen) =~= region);
    assert(bytes.skip(2 + vlen + rlen) =~= reason_codes_bytes(m.reason_codes));
}

/// Decoding a subscribe acknowledgment's own region yields exactly its user
/// properties.
proof fn lemma_suback_region_parse(m: SubAckModel)
    requires
        m.encodable(),
    ensures
        spec_parse_fold(m.region(), Set::empty(), suback_init(), suback_step()) == Ok::<
            SubAckAcc,
            Error,
        >(SubAckAcc { user_properties: m.user_properties }),
{
    let ps = m.props();
    assert forall|i: int| 0 <= i < ps.len() implies crate::property::prop_encode_ok(
        #[trigger] ps[i],
    ) && !crate::property::prop_is_default(ps[i]) && crate::property::prop_id(ps[i]) == 38 by {
        assert(ps[i] == PropertyModel::UserProperty(
            m.user_properties[i].0,
            m.user_properties[i].1,
        ));
    }
    lemma_parse_fold_round_trip(ps, Set::empty(), suback_init(), suback_step());
    lemma_suback_fold_ups(m.user_properties, suback_init());
    assert(suback_init().user_properties + m.user_properties =~= m.user_properties);
}

/// Folding user properties appends each pair, in order, to the state.
proof fn lemma_suback_fold_ups(ups: Seq<(Seq<char>, Seq<char>)>, acc: SubAckAcc)
    ensures
        spec_fold(user_prop_models(ups), acc, suback_step()) == Ok::<_, Error>(
            SubAckAcc { user_properties: acc.user_properties + ups },
        ),
    decreases ups.len(),
{
    let pm = user_prop_models(ups);
    if ups.len() == 0 {
        assert(acc.user_properties + ups =~= acc.user_properties);
    } else {
        assert(pm[0] == PropertyModel::UserProperty(ups[0].0, ups[0].1));
        let acc1 = SubAckAcc { user_properties: acc.user_properties.push((ups[0].0, ups[0].1)) };
        assert(pm.drop_first() =~= user_prop_models(ups.drop_first()));
        lemma_suback_fold_ups(ups.drop_first(), acc1);
        assert(acc1.user_properties + ups.drop_first() =~= acc.user_properties + ups);
    }
}

} // verus!
