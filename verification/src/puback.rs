use vstd::prelude::*;

verus! {

use crate::codec::{self, spec_u16, spec_vli, Reader, VARIABLE_BYTE_INTEGER_MAX};
use crate::error::Error;
use crate::property::{
    lemma_parse_fold_round_trip, lemma_props_bytes_singleton, lemma_spec_fold_append, props_bytes,
    spec_fold, spec_parse_fold, spec_take_region, user_prop_models, user_props_encodable,
    write_user_properties, PropertiesDecoder, Property, PropertyModel,
};
use crate::reason_code::{
    lemma_parse_reason_code_round_trip, spec_parse_reason_code, ControlPacketType, ReasonCode,
};
use vstd::utf8::encode_utf8;

/// A publish-acknowledgment packet body: the receiver's answer to an
/// at-least-once publish.
///
/// The packet has a shortened wire form: when nothing beyond the packet
/// identifier would follow but a success reason code with an empty
/// properties region, only the two identifier bytes are emitted, and a
/// decoder told that only two bytes remain substitutes success and no
/// properties.
#[derive(Debug, PartialEq, Clone)]
pub struct PubAck {
    /// The identifier of the publish being acknowledged.
    pub packet_identifier: u16,
    /// The outcome the receiver announces.
    pub reason_code: ReasonCode,
    /// An optional human-readable elaboration.
    pub reason_string: Option<String>,
    /// Free-form name and value pairs, kept in order.
    pub user_properties: Vec<(String, String)>,
}

/// The mathematical value of a [`PubAck`] packet.
pub ghost struct PubAckModel {
    pub packet_identifier: u16,
    pub reason_code: ReasonCode,
    pub reason_string: Option<Seq<char>>,
    pub user_properties: Seq<(Seq<char>, Seq<char>)>,
}

impl View for PubAck {
    type V = PubAckModel;

    open spec fn view(&self) -> PubAckModel {
        PubAckModel {
            packet_identifier: self.packet_identifier,
            reason_code: self.reason_code,
            reason_string: self.reason_string.deep_view(),
            user_properties: self.user_properties.deep_view(),
        }
    }
}

impl PubAckModel {
    /// The properties of the packet's region, in encoding order.
    pub open spec fn props(self) -> Seq<PropertyModel> {
        (match self.reason_string {
            Some(s) => seq![PropertyModel::ReasonString(s)],
            None => Seq::empty(),
        }) + user_prop_models(self.user_properties)
    }

    /// The bytes of the packet's properties region.
    pub open spec fn region(self) -> Seq<u8> {
        props_bytes(self.props())
    }

    /// Whether the packet takes the shortened two-byte wire form: a success
    /// outcome with nothing else to say.
    pub open spec fn is_shortened(self) -> bool {
        &&& self.reason_code == ReasonCode::Success
        &&& self.reason_string is None
        &&& self.user_properties.len() == 0
    }

    /// Whether the packet can be represented on the wire.
    pub open spec fn encodable(self) -> bool {
        &&& match self.reason_string {
            Some(s) => encode_utf8(s).len() <= 65535,
            None => true,
        }
        &&& user_props_encodable(self.user_properties)
        &&& self.region().len() <= VARIABLE_BYTE_INTEGER_MAX
    }

    /// A packet that can be represented and whose reason code is legal in a
    /// publish acknowledgment.
    pub open spec fn wf(self) -> bool {
        self.encodable() && self.reason_code.valid_in(ControlPacketType::PUBACK)
    }

    /// The packet body's full wire form: the identifier alone in the
    /// shortened form, else the identifier, the reason code, the region's
    /// length and the region.
    pub open spec fn spec_bytes(self) -> Seq<u8> {
        if self.is_shortened() {
            spec_u16(self.packet_identifier)
        } else {
            spec_u16(self.packet_identifier) + seq![self.reason_code.code()] + spec_vli(
                self.region().len() as int,
            ) + self.region()
        }
    }
}

/// The state a publish-acknowledgment decode accumulates while reading its
/// properties region.
pub ghost struct PubAckAcc {
    pub reason_string: Option<Seq<char>>,
    pub user_properties: Seq<(Seq<char>, Seq<char>)>,
}

/// The state before any property has been read.
pub open spec fn puback_init() -> PubAckAcc {
    PubAckAcc { reason_string: None, user_properties: Seq::empty() }
}

/// How a publish acknowledgment folds one decoded property into its state;
/// only a reason string and user properties are allowed.
pub open spec fn puback_step() -> spec_fn(PubAckAcc, PropertyModel) -> Result<PubAckAcc, Error> {
    |acc: PubAckAcc, p: PropertyModel|
        match p {
            PropertyModel::ReasonString(v) => Ok(PubAckAcc { reason_string: Some(v), ..acc }),
            PropertyModel::UserProperty(k, v) => Ok(
                PubAckAcc { user_properties: acc.user_properties.push((k, v)), ..acc },
            ),
            _ => Err(Error::ProtocolError),
        }
}

/// What decoding a publish-acknowledgment packet body yields. With
/// `shortened` set — the outer frame declared only two remaining bytes —
/// the identifier is followed by nothing, the reason code defaults to
/// success and no properties are read; otherwise a reason code legal for
/// the acknowledgment and a properties region follow. The result carries
/// the model and the bytes consumed.
pub open spec fn spec_parse_puback(bytes: Seq<u8>, shortened: bool) -> Result<
    (PubAckModel, int),
    Error,
> {
    match codec::spec_parse_u16(bytes) {
        Ok(pid) => {
            if shortened {
                Ok(
                    (
                        PubAckModel {
                            packet_identifier: pid.0,
                            reason_code: ReasonCode::Success,
                            reason_string: None,
                            user_properties: Seq::empty(),
                        },
                        2,
                    ),
                )
            } else {
                match spec_parse_reason_code(bytes.skip(2), ControlPacketType::PUBACK) {
                    Ok(rc) => match spec_take_region(bytes.skip(3)) {
                        Ok(t) => match spec_parse_fold(
                            t.0,
                            Set::empty(),
                            puback_init(),
                            puback_step(),
                        ) {
                            Ok(acc) => Ok(
                                (
                                    PubAckModel {
                                        packet_identifier: pid.0,
                                        reason_code: rc.0,
                                        reason_string: acc.reason_string,
                                        user_properties: acc.user_properties,
                                    },
                                    3 + t.1,
                                ),
                            ),
                            Err(e) => Err(e),
                        },
                        Err(e) => Err(e),
                    },
                    Err(e) => Err(e),
                }
            }
        },
        Err(e) => Err(e),
    }
}

impl Default for PubAck {
    /// A successful acknowledgment of packet identifier zero with no
    /// optional fields.
    fn default() -> (d: PubAck)
        ensures
            d@.packet_identifier == 0,
            d@.reason_code == ReasonCode::Success,
            d@.reason_string is None,
            d@.user_properties == Seq::<(Seq<char>, Seq<char>)>::empty(),
    {
        PubAck {
            packet_identifier: 0,
            reason_code: ReasonCode::Success,
            reason_string: None,
            user_properties: Vec::new(),
        }
    }
}

impl PubAck {
    /// Write the packet body into `writer` and return the byte count,
    /// emitting the shortened two-byte form when nothing but a success
    /// reason code with an empty region would follow the identifier.
    pub fn write(self, writer: &mut Vec<u8>) -> (r: Result<usize, Error>)
        ensures
            r is Ok <==> self@.encodable(),
            match r {
                Ok(n) => {
                    &&& final(writer)@ == old(writer)@ + self@.spec_bytes()
                    &&& n == self@.spec_bytes().len()
                },
                Err(e) => e == Error::ProtocolError,
            },
    {
        let ghost m = self@;
        codec::write_two_byte_integer(self.packet_identifier, writer);

        let shortened = self.reason_string.is_none() && self.user_properties.len() == 0
            && self.reason_code == ReasonCode::Success;
        if shortened {
            proof {
                assert(writer@ =~= old(writer)@ + m.spec_bytes());
            }
            return Ok(2);
        }

        let mut properties: Vec<u8> = Vec::new();
        let ghost prefix = match m.reason_string {
            Some(s) => seq![PropertyModel::ReasonString(s)],
            None => Seq::<PropertyModel>::empty(),
        };
        if let Some(v) = self.reason_string {
            match Property::ReasonString(v).encode(&mut properties) {
                Ok(_) => {},
                Err(e) => {
                    return Err(e);
                },
            }
            proof {
                lemma_props_bytes_singleton(PropertyModel::ReasonString(m.reason_string->0));
            }
        }
        proof {
            assert(properties@ == props_bytes(prefix));
        }
        write_user_properties(self.user_properties, Ghost(prefix), &mut properties)?;
        proof {
            assert(prefix + user_prop_models(m.user_properties) =~= m.props());
        }

        self.reason_code.write_byte(writer);
        if properties.len() > 268435455 {
            return Err(Error::ProtocolError);
        }
        let vn = match codec::write_variable_byte_integer(properties.len() as u32, writer) {
            Ok(k) => k,
            Err(_) => {
                return Err(Error::ProtocolError);
            },
        };
        let n = 3 + vn + properties.len();
        writer.append(&mut properties);
        proof {
            assert(writer@ =~= old(writer)@ + m.spec_bytes());
        }
        Ok(n)
    }

    /// Read a packet body from `reader`. The caller passes `shortened` when
    /// the outer frame declared that only the two identifier bytes remain.
    pub fn read(reader: &mut Reader, shortened: bool) -> (r: Result<PubAck, Error>)
        requires
            old(reader).wf(),
        ensures
            match r {
                Ok(a) => spec_parse_puback(old(reader).remaining(), shortened) matches Ok(t)
                    && t.0 == a@ && codec::consumed(*old(reader), *final(reader), t.1),
                Err(e) => {
                    &&& spec_parse_puback(old(reader).remaining(), shortened) == Err::<
                        (PubAckModel, int),
                        _,
                    >(e)
                    &&& codec::failed(*old(reader), *final(reader))
                },
            },
    {
        let ghost rem = old(reader).remaining();
        let packet_identifier = codec::read_two_byte_integer(reader)?;

        if shortened {
            let a = PubAck {
                packet_identifier,
                reason_code: ReasonCode::Success,
                reason_string: None,
                user_properties: Vec::new(),
            };
            proof {
                assert(a@.user_properties =~= Seq::<(Seq<char>, Seq<char>)>::empty());
            }
            return Ok(a);
        }

        let rc_byte = match codec::read_byte(reader) {
            Ok(b) => b,
            Err(e) => {
                return Err(e);
            },
        };
        let reason_code = match ReasonCode::try_parse(rc_byte, ControlPacketType::PUBACK) {
            Ok(rc) => rc,
            Err(e) => {
                return Err(e);
            },
        };
        proof {
            assert(rem.skip(2).skip(1) =~= rem.skip(3));
        }

        let mut properties = PropertiesDecoder::take(reader)?;
        let acc = match read_puback_properties(&mut properties) {
            Ok(t) => t,
            Err(e) => {
                return Err(e);
            },
        };
        let (reason_string, user_properties) = acc;

        let a = PubAck { packet_identifier, reason_code, reason_string, user_properties };
        proof {
            let t = spec_parse_puback(rem, false)->Ok_0;
            assert(rem.skip(3).skip(spec_take_region(rem.skip(3))->Ok_0.1) =~= rem.skip(t.1));
        }
        Ok(a)
    }
}

/// Read every property of a publish acknowledgment's region: the reason
/// string and the user properties, folded in wire order.
#[verifier::loop_isolation(false)]
#[verifier::rlimit(100)]
fn read_puback_properties(properties: &mut PropertiesDecoder) -> (r: Result<
    (Option<String>, Vec<(String, String)>),
    Error,
>)
    requires
        old(properties).wf(),
    ensures
        match r {
            Ok(t) => spec_parse_fold(
                old(properties).remaining(),
                old(properties).seen_set(),
                puback_init(),
                puback_step(),
            ) == Ok::<PubAckAcc, Error>(
                PubAckAcc { reason_string: t.0.deep_view(), user_properties: t.1.deep_view() },
            ),
            Err(e) => spec_parse_fold(
                old(properties).remaining(),
                old(properties).seen_set(),
                puback_init(),
                puback_step(),
            ) == Err::<PubAckAcc, Error>(e),
        },
{
    let ghost region0 = old(properties).remaining();
    let ghost seen0 = old(properties).seen_set();

    let mut user_properties: Vec<(String, String)> = Vec::new();
    let mut reason_string: Option<String> = None;

    proof {
        assert(user_properties.deep_view() =~= Seq::<(Seq<char>, Seq<char>)>::empty());
        assert(PubAckAcc {
            reason_string: reason_string.deep_view(),
            user_properties: user_properties.deep_view(),
        } == puback_init());
    }
    while properties.has_properties()
        invariant
            properties.wf(),
            spec_parse_fold(region0, seen0, puback_init(), puback_step()) == spec_parse_fold(
                properties.remaining(),
                properties.seen_set(),
                PubAckAcc {
                    reason_string: reason_string.deep_view(),
                    user_properties: user_properties.deep_view(),
                },
                puback_step(),
            ),
        decreases properties.remaining().len(),
    {
        let ghost acc0 = PubAckAcc {
            reason_string: reason_string.deep_view(),
            user_properties: user_properties.deep_view(),
        };
        let ghost d0_rem = properties.remaining();
        let ghost d0_seen = properties.seen_set();
        let p = match properties.read() {
            Ok(p) => p,
            Err(e) => {
                proof {
                    assert(spec_parse_fold(d0_rem, d0_seen, acc0, puback_step())
                        == Err::<PubAckAcc, Error>(e));
                }
                return Err(e);
            },
        };
        proof {
            let t = crate::property::spec_read_prop(d0_rem, d0_seen)->Ok_0;
            assert(spec_parse_fold(d0_rem, d0_seen, acc0, puback_step()) == match puback_step()(
                acc0,
                t.0,
            ) {
                Ok(a2) => spec_parse_fold(d0_rem.skip(t.1), t.2, a2, puback_step()),
                Err(e) => Err(e),
            });
        }
        match p {
            Property::ReasonString(v) => reason_string = Some(v),
            Property::UserProperty(k, v) => {
                let ghost ups0 = user_properties.deep_view();
                let ghost kv = (k@, v@);
                user_properties.push((k, v));
                proof {
                    assert(user_properties.deep_view() =~= ups0.push(kv));
                }
            },
            _ => {
                return Err(Error::ProtocolError);
            },
        }
    }
    Ok((reason_string, user_properties))
}

/// Decoding the wire form of a representable publish acknowledgment whose
/// reason code is legal for it, telling the decoder the shortened form is in
/// use exactly when the wire form is the two identifier bytes alone, yields
/// the packet back and consumes its whole wire form.
pub proof fn lemma_puback_round_trip(m: PubAckModel)
    requires
        m.wf(),
    ensures
        m.is_shortened() <==> m.spec_bytes().len() == 2,
        spec_parse_puback(m.spec_bytes(), m.is_shortened()) == Ok::<_, Error>(
            (m, m.spec_bytes().len() as int),
        ),
{
    let bytes = m.spec_bytes();
    if m.is_shortened() {
        codec::lemma_parse_u16_round_trip(m.packet_identifier, Seq::empty());
        assert(spec_u16(m.packet_identifier) + Seq::<u8>::empty() =~= bytes);
        assert(m.user_properties =~= Seq::<(Seq<char>, Seq<char>)>::empty());
    } else {
        lemma_puback_round_trip_full(m);
    }
}

/// The full, non-shortened form round trip.
#[verifier::rlimit(100)]
proof fn lemma_puback_round_trip_full(m: PubAckModel)
    requires
        m.wf(),
        !m.is_shortened(),
    ensures
        m.spec_bytes().len() >= 4,
        spec_parse_puback(m.spec_bytes(), false) == Ok::<_, Error>(
            (m, m.spec_bytes().len() as int),
        ),
{
    let bytes = m.spec_bytes();
    let region = m.region();
    let rlen = region.len() as int;
    let tail1 = seq![m.reason_code.code()] + spec_vli(rlen) + region;
    codec::lemma_parse_u16_round_trip(m.packet_identifier, tail1);
    assert(bytes =~= spec_u16(m.packet_identifier) + tail1);
    assert(bytes.skip(2) =~= tail1);

    let tail2 = spec_vli(rlen) + region;
    lemma_parse_reason_code_round_trip(m.reason_code, ControlPacketType::PUBACK, tail2);
    assert(tail1 =~= seq![m.reason_code.code()] + tail2);
    assert(bytes.skip(3) =~= tail2);

    codec::lemma_parse_vli_round_trip(rlen, region);
    let vlen = spec_vli(rlen).len() as int;
    assert(tail2.subrange(vlen, vlen + rlen) =~= region);

    let ps = m.props();
    assert forall|i: int| 0 <= i < ps.len() implies crate::property::prop_encode_ok(
        #[trigger] ps[i],
    ) && !crate::property::prop_is_default(ps[i]) by {
        lemma_puback_props_shape(m, i);
    }
    assert forall|i: int, j: int|
        0 <= i < j < ps.len() && !crate::property::prop_repeatable(
            crate::property::prop_id(#[trigger] ps[i]),
        ) implies crate::property::prop_id(ps[i]) != crate::property::prop_id(
        #[trigger] ps[j]) by {
        lemma_puback_props_shape(m, i);
        lemma_puback_props_shape(m, j);
    }
    lemma_parse_fold_round_trip(ps, Set::empty(), puback_init(), puback_step());
    lemma_puback_fold(m);
}

/// Which property stands at each index of a publish acknowledgment's
/// property list, and that each is representable and not elided.
proof fn lemma_puback_props_shape(m: PubAckModel, i: int)
    requires
        m.encodable(),
        0 <= i < m.props().len(),
    ensures
        crate::property::prop_encode_ok(m.props()[i]),
        !crate::property::prop_is_default(m.props()[i]),
        crate::property::prop_id(m.props()[i]) == 31 || crate::property::prop_id(m.props()[i])
            == 38,
        crate::property::prop_id(m.props()[i]) != 38 ==> forall|j: int|
            i < j < m.props().len() ==> crate::property::prop_id(m.props()[i])
                != crate::property::prop_id(#[trigger] m.props()[j]),
{
    let rs = match m.reason_string {
        Some(s) => seq![PropertyModel::ReasonString(s)],
        None => Seq::<PropertyModel>::empty(),
    };
    let ups = user_prop_models(m.user_properties);
    assert(m.props() =~= rs + ups);
    assert forall|j: int| 0 <= j < ups.len() implies crate::property::prop_id(
        #[trigger] ups[j],
    ) == 38 && crate::property::prop_encode_ok(ups[j]) && !crate::property::prop_is_default(
        ups[j],
    ) by {
        assert(ups[j] == PropertyModel::UserProperty(
            m.user_properties[j].0,
            m.user_properties[j].1,
        ));
    }
}

/// The pure fold of a publish acknowledgment's own property list lands on
/// exactly the packet's fields.
proof fn lemma_puback_fold(m: PubAckModel)
    ensures
        spec_fold(m.props(), puback_init(), puback_step()) == Ok::<_, Error>(
            PubAckAcc { reason_string: m.reason_string, user_properties: m.user_properties },
        ),
{
    let rs = match m.reason_string {
        Some(s) => seq![PropertyModel::ReasonString(s)],
        None => Seq::<PropertyModel>::empty(),
    };
    let ups = user_prop_models(m.user_properties);
    let step = puback_step();
    let init = puback_init();

    let acc1 = PubAckAcc { reason_string: m.reason_string, user_properties: Seq::empty() };
    assert(spec_fold(rs, init, step) == Ok::<_, Error>(acc1)) by {
        match m.reason_string {
            Some(s) => {
                assert(rs[0] == PropertyModel::ReasonString(s));
                assert(step(init, rs[0]) == Ok::<_, Error>(acc1));
                assert(rs.drop_first() =~= Seq::<PropertyModel>::empty());
                assert(spec_fold(rs.drop_first(), acc1, step) == Ok::<_, Error>(acc1));
            },
            None => {
                assert(init == acc1);
            },
        }
    }
    lemma_spec_fold_append(rs, ups, init, step);
    lemma_puback_fold_ups(m.user_properties, acc1);
    assert(acc1.user_properties + m.user_properties =~= m.user_properties);
    assert(m.props() =~= rs + ups);
}

/// Folding user properties appends each pair, in order, to the state.
proof fn lemma_puback_fold_ups(ups: Seq<(Seq<char>, Seq<char>)>, acc: PubAckAcc)
    ensures
        spec_fold(user_prop_models(ups), acc, puback_step()) == Ok::<_, Error>(
            PubAckAcc { user_properties: acc.user_properties + ups, ..acc },
        ),
    decreases ups.len(),
{
    let pm = user_prop_models(ups);
    if ups.len() == 0 {
        assert(acc.user_properties + ups =~= acc.user_properties);
    } else {
        assert(pm[0] == PropertyModel::UserProperty(ups[0].0, ups[0].1));
        let acc1 = PubAckAcc {
            user_properties: acc.user_properties.push((ups[0].0, ups[0].1)),
            ..acc
        };
        assert(pm.drop_first() =~= user_prop_models(ups.drop_first()));
        lemma_puback_fold_ups(ups.drop_first(), acc1);
        assert(acc1.user_properties + ups.drop_first() =~= acc.user_properties + ups);
    }
}

} // verus!
