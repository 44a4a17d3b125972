use vstd::prelude::*;

verus! {

use crate::codec::{self, spec_text, spec_u16, spec_vli, Reader, VARIABLE_BYTE_INTEGER_MAX};
use crate::error::Error;
use crate::property::{
    lemma_parse_fold_round_trip, lemma_props_bytes_append, lemma_props_bytes_singleton,
    lemma_spec_fold_append, props_bytes, spec_fold, spec_parse_fold, spec_take_region,
    user_prop_models, user_props_encodable, write_user_properties, PropertiesDecoder, Property,
    PropertyModel, DEFAULT_PAYLOAD_FORMAT_INDICATOR,
};
use crate::quality_of_service::QoS;
use vstd::utf8::encode_utf8;

/// A publish packet body: an application message on its way from one party
/// to the other.
///
/// The duplicate and retain flags and the quality-of-service level travel
/// in the outer frame header, not in this body; a decoder receives them as
/// context. The packet identifier is carried only when the quality of
/// service is not at-most-once. The trailing payload has no length prefix
/// of its own: it runs to the end of the packet's declared remaining
/// length.
#[derive(Debug, PartialEq, Clone)]
pub struct Publish {
    /// Whether this is a re-delivery attempt; carried in the frame header.
    pub duplicate: bool,
    /// The delivery guarantee; carried in the frame header.
    pub qos: QoS,
    /// Whether the server should retain the message; carried in the frame
    /// header.
    pub retain: bool,
    /// The topic the message is published to.
    pub topic_name: String,
    /// Present exactly when the quality of service is not at-most-once.
    pub packet_identifier: Option<u16>,
    /// Whether the payload is UTF-8 text; absent on the wire when `false`.
    pub payload_format_indicator: bool,
    /// Lifetime of the message, in seconds.
    pub message_expiry_interval: Option<u32>,
    /// An integer standing in for the topic name on this connection.
    pub topic_alias: Option<u16>,
    /// The topic name for a response message.
    pub response_topic: Option<String>,
    /// Data a requester uses to match a response to its request.
    pub correlation_data: Option<Vec<u8>>,
    /// Free-form name and value pairs, kept in order.
    pub user_properties: Vec<(String, String)>,
    /// The identifiers of the subscriptions the message matches; each must
    /// be non-zero, and they may repeat.
    pub subscription_identifiers: Vec<u32>,
    /// A description of the payload's content; empty means none was given.
    pub content_type: String,
    /// The opaque payload, copied verbatim.
    pub message: Vec<u8>,
}

/// The mathematical value of a [`Publish`] packet.
pub ghost struct PublishModel {
    pub duplicate: bool,
    pub qos: QoS,
    pub retain: bool,
    pub topic_name: Seq<char>,
    pub packet_identifier: Option<u16>,
    pub payload_format_indicator: bool,
    pub message_expiry_interval: Option<u32>,
    pub topic_alias: Option<u16>,
    pub response_topic: Option<Seq<char>>,
    pub correlation_data: Option<Seq<u8>>,
    pub user_properties: Seq<(Seq<char>, Seq<char>)>,
    pub subscription_identifiers: Seq<u32>,
    pub content_type: Seq<char>,
    pub message: Seq<u8>,
}

impl View for Publish {
    type V = PublishModel;

    open spec fn view(&self) -> PublishModel {
        PublishModel {
            duplicate: self.duplicate,
            qos: self.qos,
            retain: self.retain,
            topic_name: self.topic_name@,
            packet_identifier: self.packet_identifier,
            payload_format_indicator: self.payload_format_indicator,
            message_expiry_interval: self.message_expiry_interval,
            topic_alias: self.topic_alias,
            response_topic: self.response_topic.deep_view(),
            correlation_data: self.correlation_data.deep_view(),
            user_properties: self.user_properties.deep_view(),
            subscription_identifiers: self.subscription_identifiers.deep_view(),
            content_type: self.content_type@,
            message: self.message@,
        }
    }
}

/// The subscription-identifier models for a sequence of values.
pub open spec fn sub_id_models(ids: Seq<u32>) -> Seq<PropertyModel> {
    ids.map_values(|v: u32| PropertyModel::SubscriptionIdentifier(v))
}

impl PublishModel {
    /// The properties of the packet's region, in encoding order; the
    /// payload-format indicator is elided at its default.
    pub open spec fn props(self) -> Seq<PropertyModel> {
        (if self.payload_format_indicator != DEFAULT_PAYLOAD_FORMAT_INDICATOR {
            seq![PropertyModel::PayloadFormatIndicator(self.payload_format_indicator)]
        } else {
            Seq::empty()
        }) + (match self.message_expiry_interval {
            Some(v) => seq![PropertyModel::MessageExpiryInterval(v)],
            None => Seq::empty(),
        }) + (match self.topic_alias {
            Some(v) => seq![PropertyModel::TopicAlias(v)],
            None => Seq::empty(),
        }) + (match self.response_topic {
            Some(s) => seq![PropertyModel::ResponseTopic(s)],
            None => Seq::empty(),
        }) + (match self.correlation_data {
            Some(b) => seq![PropertyModel::CorrelationData(b)],
            None => Seq::empty(),
        }) + user_prop_models(self.user_properties) + sub_id_models(self.subscription_identifiers)
            + seq![PropertyModel::ContentType(self.content_type)]
    }

    /// The bytes of the packet's properties region.
    pub open spec fn region(self) -> Seq<u8> {
        props_bytes(self.props())
    }

    /// Whether every property payload can be represented on the wire.
    pub open spec fn props_encodable(self) -> bool {
        &&& match self.response_topic {
            Some(s) => encode_utf8(s).len() <= 65535,
            None => true,
        }
        &&& match self.correlation_data {
            Some(b) => b.len() <= 65535,
            None => true,
        }
        &&& user_props_encodable(self.user_properties)
        &&& forall|i: int|
            0 <= i < self.subscription_identifiers.len() ==> 0 < (
            #[trigger] self.subscription_identifiers[i]) <= VARIABLE_BYTE_INTEGER_MAX
        &&& encode_utf8(self.content_type).len() <= 65535
    }

    /// Whether the packet can be represented on the wire.
    pub open spec fn encodable(self) -> bool {
        &&& encode_utf8(self.topic_name).len() <= 65535
        &&& self.props_encodable()
        &&& self.region().len() <= VARIABLE_BYTE_INTEGER_MAX
    }

    /// A packet that can be represented and whose packet identifier is
    /// present exactly when the quality of service requires one.
    pub open spec fn wf(self) -> bool {
        &&& self.encodable()
        &&& self.qos != QoS::AtMostOnce ==> self.packet_identifier is Some
        &&& self.qos == QoS::AtMostOnce ==> self.packet_identifier is None
    }

    /// The packet body's full wire form: the topic name, the packet
    /// identifier when the quality of service carries one, the properties
    /// region behind its length, then the payload.
    pub open spec fn spec_bytes(self) -> Seq<u8> {
        spec_text(self.topic_name) + (match self.packet_identifier {
            Some(pid) => if self.qos != QoS::AtMostOnce {
                spec_u16(pid)
            } else {
                Seq::empty()
            },
            None => Seq::empty(),
        }) + spec_vli(self.region().len() as int) + self.region() + self.message
    }
}

/// The state a publish decode accumulates while reading its properties
/// region, starting from every property's default.
pub ghost struct PublishAcc {
    pub payload_format_indicator: bool,
    pub message_expiry_interval: Option<u32>,
    pub topic_alias: Option<u16>,
    pub response_topic: Option<Seq<char>>,
    pub correlation_data: Option<Seq<u8>>,
    pub user_properties: Seq<(Seq<char>, Seq<char>)>,
    pub subscription_identifiers: Seq<u32>,
    pub content_type: Seq<char>,
}

/// The state before any property has been read: every field at its
/// default.
pub open spec fn publish_init() -> PublishAcc {
    PublishAcc {
        payload_format_indicator: DEFAULT_PAYLOAD_FORMAT_INDICATOR,
        message_expiry_interval: None,
        topic_alias: None,
        response_topic: None,
        correlation_data: None,
        user_properties: Seq::empty(),
        subscription_identifiers: Seq::empty(),
        content_type: Seq::empty(),
    }
}

/// How a publish folds one decoded property into its state; any property
/// kind outside its allowed set is a protocol violation.
pub open spec fn publish_step() -> spec_fn(PublishAcc, PropertyModel) -> Result<PublishAcc, Error> {
    |acc: PublishAcc, p: PropertyModel|
        match p {
            PropertyModel::PayloadFormatIndicator(v) => Ok(
                PublishAcc { payload_format_indicator: v, ..acc },
            ),
            PropertyModel::MessageExpiryInterval(v) => Ok(
                PublishAcc { message_expiry_interval: Some(v), ..acc },
            ),
            PropertyModel::TopicAlias(v) => Ok(PublishAcc { topic_alias: Some(v), ..acc }),
            PropertyModel::ResponseTopic(v) => Ok(PublishAcc { response_topic: Some(v), ..acc }),
            PropertyModel::CorrelationData(v) => Ok(
                PublishAcc { correlation_data: Some(v), ..acc },
            ),
            PropertyModel::UserProperty(k, v) => Ok(
                PublishAcc { user_properties: acc.user_properties.push((k, v)), ..acc },
            ),
            PropertyModel::SubscriptionIdentifier(v) => Ok(
                PublishAcc {
                    subscription_identifiers: acc.subscription_identifiers.push(v),
                    ..acc
                },
            ),
            PropertyModel::ContentType(v) => Ok(PublishAcc { content_type: v, ..acc }),
            _ => Err(Error::ProtocolError),
        }
}

/// What decoding a publish packet body yields, given the remaining length
/// the outer frame declared and the flags it carried: the topic name, the
/// packet identifier when the quality of service is not at-most-once, a
/// properties region folded by [`publish_step`], then the payload, which is
/// everything up to the declared length. The result carries the model and
/// the bytes consumed, which is the declared length itself.
pub open spec fn spec_parse_publish(
    bytes: Seq<u8>,
    remaining_size: int,
    duplicate: bool,
    qos: QoS,
    retain: bool,
) -> Result<(PublishModel, int), Error> {
    if remaining_size < 0 || bytes.len() < remaining_size {
        Err(Error::UnexpectedEndOfStream)
    } else {
        match spec_parse_publish_body(bytes.take(remaining_size), duplicate, qos, retain) {
            Ok(m) => Ok((m, remaining_size)),
            Err(e) => Err(e),
        }
    }
}

/// What decoding exactly the body bytes of a publish packet yields; the
/// payload is everything after the properties region.
pub open spec fn spec_parse_publish_body(
    body: Seq<u8>,
    duplicate: bool,
    qos: QoS,
    retain: bool,
) -> Result<PublishModel, Error> {
    match codec::spec_parse_text(body) {
        Ok(topic) => {
            let pid_res: Result<(Option<u16>, int), Error> = if qos != QoS::AtMostOnce {
                match codec::spec_parse_u16(body.skip(topic.1)) {
                    Ok(p) => Ok((Some(p.0), topic.1 + 2)),
                    Err(e) => Err(e),
                }
            } else {
                Ok((None, topic.1))
            };
            match pid_res {
                Ok(pid) => match spec_take_region(body.skip(pid.1)) {
                    Ok(t) => match spec_parse_fold(
                        t.0,
                        Set::empty(),
                        publish_init(),
                        publish_step(),
                    ) {
                        Ok(acc) => Ok(
                            PublishModel {
                                duplicate,
                                qos,
                                retain,
                                topic_name: topic.0,
                                packet_identifier: pid.0,
                                payload_format_indicator: acc.payload_format_indicator,
                                message_expiry_interval: acc.message_expiry_interval,
                                topic_alias: acc.topic_alias,
                                response_topic: acc.response_topic,
                                correlation_data: acc.correlation_data,
                                user_properties: acc.user_properties,
                                subscription_identifiers: acc.subscription_identifiers,
                                content_type: acc.content_type,
                                message: body.skip(pid.1 + t.1),
                            },
                        ),
                        Err(e) => Err(e),
                    },
                    Err(e) => Err(e),
                },
                Err(e) => Err(e),
            }
        },
        Err(e) => Err(e),
    }
}

impl Default for Publish {
    /// An exactly-once publish of an empty message to an empty topic, with
    /// every optional field absent.
    fn default() -> (d: Publish)
        ensures
            d@.duplicate == false,
            d@.qos == QoS::ExactlyOnce,
            d@.retain == false,
            d@.topic_name == Seq::<char>::empty(),
            d@.packet_identifier is None,
            d@.payload_format_indicator == DEFAULT_PAYLOAD_FORMAT_INDICATOR,
            d@.message_expiry_interval is None,
            d@.topic_alias is None,
            d@.response_topic is None,
            d@.correlation_data is None,
            d@.user_properties == Seq::<(Seq<char>, Seq<char>)>::empty(),
            d@.subscription_identifiers == Seq::<u32>::empty(),
            d@.content_type == Seq::<char>::empty(),
            d@.message == Seq::<u8>::empty(),
    {
        Publish {
            duplicate: false,
            qos: QoS::ExactlyOnce,
            retain: false,
            topic_name: String::new(),
            packet_identifier: None,
            payload_format_indicator: false,
            message_expiry_interval: None,
            topic_alias: None,
            response_topic: None,
            correlation_data: None,
            user_properties: Vec::new(),
            subscription_identifiers: Vec::new(),
            content_type: String::new(),
            message: Vec::new(),
        }
    }
}

impl Publish {
    /// Write the packet body into `writer` and return the byte count. A
    /// missing packet identifier when the quality of service requires one,
    /// a zero subscription identifier, or a payload that does not fit its
    /// length prefix fails.
    pub fn write(self, writer: &mut Vec<u8>) -> (r: Result<usize, Error>)
        ensures
            r is Ok <==> (self@.encodable() && (self@.qos != QoS::AtMostOnce
                ==> self@.packet_identifier is Some)),
            match r {
                Ok(n) => {
                    &&& final(writer)@ == old(writer)@ + self@.spec_bytes()
                    &&& n == self@.spec_bytes().len()
                },
                Err(e) => e == Error::ProtocolError,
            },
    {
        let ghost m = self@;
        let start = writer.len();
        codec::write_utf8_string(self.topic_name.as_str(), writer)?;

        if !matches!(self.qos, QoS::AtMostOnce) {
            match self.packet_identifier {
                Some(pid) => {
                    codec::write_two_byte_integer(pid, writer);
                },
                None => {
                    return Err(Error::ProtocolError);
                },
            }
        }

        let mut properties: Vec<u8> = Vec::new();
        match write_publish_properties(
            self.payload_format_indicator,
            self.message_expiry_interval,
            self.topic_alias,
            self.response_topic,
            self.correlation_data,
            self.user_properties,
            self.subscription_identifiers,
            self.content_type,
            Ghost(m),
            &mut properties,
        ) {
            Ok(_) => {},
            Err(e) => {
                return Err(e);
            },
        }

        if properties.len() > 268435455 {
            return Err(Error::ProtocolError);
        }
        match codec::write_variable_byte_integer(properties.len() as u32, writer) {
            Ok(k) => k,
            Err(_) => {
                return Err(Error::ProtocolError);
            },
        };
        writer.append(&mut properties);

        let mut message = self.message;
        writer.append(&mut message);
        proof {
            assert(writer@ =~= old(writer)@ + m.spec_bytes());
        }
        let n = writer.len() - start;
        Ok(n)
    }

    /// Read a packet body from `reader`, consuming exactly the remaining
    /// length the outer frame declared, with the flags the frame header
    /// carried passed in as context.
    #[verifier::rlimit(60)]
    pub fn read(
        reader: &mut Reader,
        duplicate: bool,
        qos: QoS,
        retain: bool,
        remaining_size: u64,
    ) -> (r: Result<Publish, Error>)
        requires
            old(reader).wf(),
        ensures
            match r {
                Ok(a) => spec_parse_publish(
                    old(reader).remaining(),
                    remaining_size as int,
                    duplicate,
                    qos,
                    retain,
                ) matches Ok(t) && t.0 == a@ && codec::consumed(
                    *old(reader),
                    *final(reader),
                    remaining_size as int,
                ),
                Err(e) => {
                    &&& spec_parse_publish(
                        old(reader).remaining(),
                        remaining_size as int,
                        duplicate,
                        qos,
                        retain,
                    ) == Err::<(PublishModel, int), _>(e)
                    &&& codec::failed(*old(reader), *final(reader))
                },
            },
    {
        let ghost rem = old(reader).remaining();
        // an executable length is what bounds the buffer against the u64 size
        let _avail: usize = reader.remaining_len();
        if remaining_size > (usize::MAX as u64) {
            return Err(Error::UnexpectedEndOfStream);
        }
        let rs = remaining_size as usize;
        let saved_end = reader.narrow(rs)?;
        let ghost body = rem.take(rs as int);
        proof {
            assert(reader.remaining() =~= body);
        }

        let packet = match read_publish_body(reader, duplicate, qos, retain) {
            Ok(p) => p,
            Err(e) => {
                reader.widen(saved_end);
                return Err(e);
            },
        };
        reader.widen(saved_end);
        proof {
            assert(reader.remaining() =~= rem.skip(rs as int));
        }
        Ok(packet)
    }
}

/// Read a publish packet body from an already-narrowed reader, consuming
/// everything up to its bound.
#[verifier::rlimit(100)]
fn read_publish_body(reader: &mut Reader, duplicate: bool, qos: QoS, retain: bool) -> (r: Result<
    Publish,
    Error,
>)
    requires
        old(reader).wf(),
    ensures
        match r {
            Ok(a) => {
                &&& spec_parse_publish_body(old(reader).remaining(), duplicate, qos, retain)
                    == Ok::<PublishModel, Error>(a@)
                &&& codec::consumed(
                    *old(reader),
                    *final(reader),
                    old(reader).remaining().len() as int,
                )
            },
            Err(e) => {
                &&& spec_parse_publish_body(old(reader).remaining(), duplicate, qos, retain)
                    == Err::<PublishModel, _>(e)
                &&& codec::failed(*old(reader), *final(reader))
            },
        },
{
    let ghost body = old(reader).remaining();
    let topic_name = codec::read_utf8_string(reader)?;
    let ghost tlen = codec::spec_parse_text(body)->Ok_0.1;

    let packet_identifier = if !matches!(qos, QoS::AtMostOnce) {
        match codec::read_two_byte_integer(reader) {
            Ok(v) => Some(v),
            Err(e) => {
                return Err(e);
            },
        }
    } else {
        None
    };
    let ghost pidlen: int = if qos != QoS::AtMostOnce {
        tlen + 2
    } else {
        tlen
    };
    proof {
        assert(reader.remaining() =~= body.skip(pidlen));
    }

    let mut properties = PropertiesDecoder::take(reader)?;
    let acc = match read_publish_properties(&mut properties) {
        Ok(t) => t,
        Err(e) => {
            return Err(e);
        },
    };
    let (
        payload_format_indicator,
        message_expiry_interval,
        topic_alias,
        response_topic,
        correlation_data,
        user_properties,
        subscription_identifiers,
        content_type,
    ) = acc;

    let rest = reader.remaining_len();
    let message = match codec::read_chunk(reader, rest) {
        Ok(v) => v,
        Err(e) => {
            return Err(e);
        },
    };
    proof {
        let t1 = spec_take_region(body.skip(pidlen))->Ok_0;
        assert(body.skip(pidlen).skip(t1.1) =~= body.skip(pidlen + t1.1));
        assert(reader.remaining().take(reader.remaining().len() as int) =~= reader.remaining());
        assert(message@ == body.skip(pidlen + t1.1));
        assert(reader.remaining().len() == 0);
        assert(reader.remaining() =~= body.skip(body.len() as int));
    }

    Ok(
        Publish {
            duplicate,
            qos,
            retain,
            topic_name,
            packet_identifier,
            payload_format_indicator,
            message_expiry_interval,
            topic_alias,
            response_topic,
            correlation_data,
            user_properties,
            subscription_identifiers,
            content_type,
            message,
        },
    )
}

/// Write the whole property region of a publish into an empty properties
/// buffer, in wire order, eliding the payload-format indicator at its
/// default.
#[verifier::rlimit(100)]
fn write_publish_properties(
    payload_format_indicator: bool,
    message_expiry_interval: Option<u32>,
    topic_alias: Option<u16>,
    response_topic: Option<String>,
    correlation_data: Option<Vec<u8>>,
    user_properties: Vec<(String, String)>,
    subscription_identifiers: Vec<u32>,
    content_type: String,
    Ghost(m): Ghost<PublishModel>,
    out: &mut Vec<u8>,
) -> (r: Result<(), Error>)
    requires
        old(out)@.len() == 0,
        m.payload_format_indicator == payload_format_indicator,
        m.message_expiry_interval == message_expiry_interval,
        m.topic_alias == topic_alias,
        m.response_topic == response_topic.deep_view(),
        m.correlation_data == correlation_data.deep_view(),
        m.user_properties == user_properties.deep_view(),
        m.subscription_identifiers == subscription_identifiers.deep_view(),
        m.content_type == content_type@,
    ensures
        r is Ok <==> m.props_encodable(),
        match r {
            Ok(n) => final(out)@ == m.region(),
            Err(e) => e == Error::ProtocolError,
        },
{
    let ghost s1 = (if m.payload_format_indicator != DEFAULT_PAYLOAD_FORMAT_INDICATOR {
        seq![PropertyModel::PayloadFormatIndicator(m.payload_format_indicator)]
    } else {
        Seq::<PropertyModel>::empty()
    });
    Property::PayloadFormatIndicator(payload_format_indicator).encode(out)?;
    proof {
        if m.payload_format_indicator != DEFAULT_PAYLOAD_FORMAT_INDICATOR {
            lemma_props_bytes_singleton(s1[0]);
        }
        assert(out@ == props_bytes(s1));
    }

    let ghost s2 = s1 + (match m.message_expiry_interval {
        Some(v) => seq![PropertyModel::MessageExpiryInterval(v)],
        None => Seq::<PropertyModel>::empty(),
    });
    if let Some(v) = message_expiry_interval {
        Property::MessageExpiryInterval(v).encode(out)?;
    }
    proof {
        lemma_segment(s1, match m.message_expiry_interval {
            Some(v) => Some(PropertyModel::MessageExpiryInterval(v)),
            None => None,
        });
        assert(out@ == props_bytes(s2));
    }

    let ghost s3 = s2 + (match m.topic_alias {
        Some(v) => seq![PropertyModel::TopicAlias(v)],
        None => Seq::<PropertyModel>::empty(),
    });
    if let Some(v) = topic_alias {
        Property::TopicAlias(v).encode(out)?;
    }
    proof {
        lemma_segment(s2, match m.topic_alias {
            Some(v) => Some(PropertyModel::TopicAlias(v)),
            None => None,
        });
        assert(out@ == props_bytes(s3));
    }

    let ghost s4 = s3 + (match m.response_topic {
        Some(s) => seq![PropertyModel::ResponseTopic(s)],
        None => Seq::<PropertyModel>::empty(),
    });
    if let Some(v) = response_topic {
        Property::ResponseTopic(v).encode(out)?;
    }
    proof {
        lemma_segment(s3, match m.response_topic {
            Some(s) => Some(PropertyModel::ResponseTopic(s)),
            None => None,
        });
        assert(out@ == props_bytes(s4));
    }

    let ghost s5 = s4 + (match m.correlation_data {
        Some(b) => seq![PropertyModel::CorrelationData(b)],
        None => Seq::<PropertyModel>::empty(),
    });
    if let Some(v) = correlation_data {
        Property::CorrelationData(v).encode(out)?;
    }
    proof {
        lemma_segment(s4, match m.correlation_data {
            Some(b) => Some(PropertyModel::CorrelationData(b)),
            None => None,
        });
        assert(out@ == props_bytes(s5));
    }

    write_user_properties(user_properties, Ghost(s5), out)?;
    let ghost s6 = s5 + user_prop_models(m.user_properties);
    proof {
        assert(out@ == props_bytes(s6));
    }

    write_subscription_identifiers(subscription_identifiers, Ghost(s6), out)?;
    let ghost s7 = s6 + sub_id_models(m.subscription_identifiers);
    proof {
        assert(out@ == props_bytes(s7));
    }

    Property::ContentType(content_type).encode(out)?;
    proof {
        lemma_props_bytes_append(s7, seq![PropertyModel::ContentType(m.content_type)]);
        lemma_props_bytes_singleton(PropertyModel::ContentType(m.content_type));
        assert(s7 + seq![PropertyModel::ContentType(m.content_type)] =~= m.props());
        assert(out@ == props_bytes(m.props()));
    }
    Ok(())
}

/// The wire form of an optional property segment: one property or nothing.
proof fn lemma_segment(prefix: Seq<PropertyModel>, p: Option<PropertyModel>)
    ensures
        props_bytes(
            prefix + match p {
                Some(q) => seq![q],
                None => Seq::<PropertyModel>::empty(),
            },
        ) == props_bytes(prefix) + match p {
            Some(q) => crate::property::prop_bytes(q),
            None => Seq::<u8>::empty(),
        },
{
    match p {
        Some(q) => {
            lemma_props_bytes_append(prefix, seq![q]);
            lemma_props_bytes_singleton(q);
        },
        None => {
            assert(prefix + Seq::<PropertyModel>::empty() =~= prefix);
            assert(props_bytes(prefix) + Seq::<u8>::empty() =~= props_bytes(prefix));
        },
    }
}

/// Write each subscription identifier in order into a properties buffer.
#[verifier::loop_isolation(false)]
fn write_subscription_identifiers(
    ids: Vec<u32>,
    Ghost(prefix): Ghost<Seq<PropertyModel>>,
    out: &mut Vec<u8>,
) -> (r: Result<usize, Error>)
    requires
        old(out)@ == props_bytes(prefix),
    ensures
        r is Ok <==> (forall|i: int|
            0 <= i < ids.deep_view().len() ==> 0 < (#[trigger] ids.deep_view()[i])
                <= VARIABLE_BYTE_INTEGER_MAX),
        match r {
            Ok(n) => {
                &&& final(out)@ == props_bytes(prefix + sub_id_models(ids.deep_view()))
                &&& final(out)@.len() == old(out)@.len() + n
            },
            Err(e) => e == Error::ProtocolError,
        },
{
    proof {
        assert(ids.deep_view() =~= ids@);
    }
    let ghost idm = sub_id_models(ids@);
    let mut i: usize = 0;
    let mut n: usize = 0;
    proof {
        assert(prefix + idm.take(0) =~= prefix);
    }
    while i < ids.len()
        invariant
            i <= ids.len(),
            out@ == props_bytes(prefix + idm.take(i as int)),
            out@.len() == props_bytes(prefix).len() + n,
            n <= out@.len(),
            ids.deep_view() == ids@,
            forall|j: int| 0 <= j < i ==> 0 < (#[trigger] ids@[j]) <= VARIABLE_BYTE_INTEGER_MAX,
        decreases ids.len() - i,
    {
        let v = ids[i];
        let ghost pm = idm[i as int];
        proof {
            assert(pm == PropertyModel::SubscriptionIdentifier(ids@[i as int]));
        }
        let c = match Property::SubscriptionIdentifier(v).encode(out) {
            Ok(c) => c,
            Err(_) => {
                proof {
                    assert(!(0 < ids.deep_view()[i as int] <= VARIABLE_BYTE_INTEGER_MAX));
                }
                return Err(Error::ProtocolError);
            },
        };
        proof {
            lemma_props_bytes_append(prefix + idm.take(i as int), seq![pm]);
            lemma_props_bytes_singleton(pm);
            assert((prefix + idm.take(i as int)) + seq![pm] =~= prefix + idm.take(i + 1));
        }
        // an executable length is what bounds the growing count below
        let _total: usize = out.len();
        n = n + c;
        i = i + 1;
    }
    proof {
        assert(idm.take(ids@.len() as int) =~= idm);
        assert(forall|i: int|
            0 <= i < ids.deep_view().len() ==> 0 < (#[trigger] ids.deep_view()[i])
                <= VARIABLE_BYTE_INTEGER_MAX);
    }
    Ok(n)
}

/// Read every property of a publish's region, folded in wire order.
#[verifier::loop_isolation(false)]
#[verifier::rlimit(100)]
fn read_publish_properties(properties: &mut PropertiesDecoder) -> (r: Result<
    (
        bool,
        Option<u32>,
        Option<u16>,
        Option<String>,
        Option<Vec<u8>>,
        Vec<(String, String)>,
        Vec<u32>,
        String,
    ),
    Error,
>)
    requires
        old(properties).wf(),
    ensures
        match r {
            Ok(t) => spec_parse_fold(
                old(properties).remaining(),
                old(properties).seen_set(),
                publish_init(),
                publish_step(),
            ) == Ok::<PublishAcc, Error>(
                PublishAcc {
                    payload_format_indicator: t.0,
                    message_expiry_interval: t.1,
                    topic_alias: t.2,
                    response_topic: t.3.deep_view(),
                    correlation_data: t.4.deep_view(),
                    user_properties: t.5.deep_view(),
                    subscription_identifiers: t.6.deep_view(),
                    content_type: t.7@,
                },
            ),
            Err(e) => spec_parse_fold(
                old(properties).remaining(),
                old(properties).seen_set(),
                publish_init(),
                publish_step(),
            ) == Err::<PublishAcc, Error>(e),
        },
{
    let ghost region0 = old(properties).remaining();
    let ghost seen0 = old(properties).seen_set();

    let mut payload_format_indicator: bool = false;
    let mut message_expiry_interval: Option<u32> = None;
    let mut topic_alias: Option<u16> = None;
    let mut response_topic: Option<String> = None;
    let mut correlation_data: Option<Vec<u8>> = None;
    let mut user_properties: Vec<(String, String)> = Vec::new();
    let mut subscription_identifiers: Vec<u32> = Vec::new();
    let mut content_type: String = String::new();

    proof {
        assert(user_properties.deep_view() =~= Seq::<(Seq<char>, Seq<char>)>::empty());
        assert(subscription_identifiers.deep_view() =~= Seq::<u32>::empty());
        assert(PublishAcc {
            payload_format_indicator: payload_format_indicator,
            message_expiry_interval: message_expiry_interval,
            topic_alias: topic_alias,
            response_topic: response_topic.deep_view(),
            correlation_data: correlation_data.deep_view(),
            user_properties: user_properties.deep_view(),
            subscription_identifiers: subscription_identifiers.deep_view(),
            content_type: content_type@,
        } == publish_init());
    }
    while properties.has_properties()
        invariant
            properties.wf(),
            spec_parse_fold(region0, seen0, publish_init(), publish_step()) == spec_parse_fold(
                properties.remaining(),
                properties.seen_set(),
                PublishAcc {
                    payload_format_indicator: payload_format_indicator,
                    message_expiry_interval: message_expiry_interval,
                    topic_alias: topic_alias,
                    response_topic: response_topic.deep_view(),
                    correlation_data: correlation_data.deep_view(),
                    user_properties: user_properties.deep_view(),
                    subscription_identifiers: subscription_identifiers.deep_view(),
                    content_type: content_type@,
                },
                publish_step(),
            ),
        decreases properties.remaining().len(),
    {
        let ghost acc0 = PublishAcc {
            payload_format_indicator: payload_format_indicator,
            message_expiry_interval: message_expiry_interval,
            topic_alias: topic_alias,
            response_topic: response_topic.deep_view(),
            correlation_data: correlation_data.deep_view(),
            user_properties: user_properties.deep_view(),
            subscription_identifiers: subscription_identifiers.deep_view(),
            content_type: content_type@,
        };
        let ghost d0_rem = properties.remaining();
        let ghost d0_seen = properties.seen_set();
        let p = match properties.read() {
            Ok(p) => p,
            Err(e) => {
                proof {
                    assert(spec_parse_fold(d0_rem, d0_seen, acc0, publish_step())
                        == Err::<PublishAcc, Error>(e));
                }
                return Err(e);
            },
        };
        proof {
            let t = crate::property::spec_read_prop(d0_rem, d0_seen)->Ok_0;
            assert(spec_parse_fold(d0_rem, d0_seen, acc0, publish_step()) == match publish_step()(
                acc0,
                t.0,
            ) {
                Ok(a2) => spec_parse_fold(d0_rem.skip(t.1), t.2, a2, publish_step()),
                Err(e) => Err(e),
            });
        }
        match p {
            Property::PayloadFormatIndicator(v) => payload_format_indicator = v,
            Property::MessageExpiryInterval(v) => message_expiry_interval = Some(v),
            Property::TopicAlias(v) => topic_alias = Some(v),
            Property::ResponseTopic(v) => response_topic = Some(v),
            Property::CorrelationData(v) => {
                proof {
                    assert(v.deep_view() =~= v@);
                }
                correlation_data = Some(v);
            },
            Property::UserProperty(k, v) => {
                let ghost ups0 = user_properties.deep_view();
                let ghost kv = (k@, v@);
                user_properties.push((k, v));
                proof {
                    assert(user_properties.deep_view() =~= ups0.push(kv));
                }
            },
            Property::SubscriptionIdentifier(v) => {
                let ghost ids0 = subscription_identifiers.deep_view();
                subscription_identifiers.push(v);
                proof {
                    assert(subscription_identifiers.deep_view() =~= ids0.push(v));
                }
            },
            Property::ContentType(v) => content_type = v,
            _ => {
                return Err(Error::ProtocolError);
            },
        }
    }
    Ok(
        (
            payload_format_indicator,
            message_expiry_interval,
            topic_alias,
            response_topic,
            correlation_data,
            user_properties,
            subscription_identifiers,
            content_type,
        ),
    )
}


/// Decoding the wire form of a representable publish packet whose packet
/// identifier agrees with its quality of service, given its own length as
/// the declared remaining length and its own flags as context, yields the
/// packet back and consumes the whole wire form.
pub proof fn lemma_publish_round_trip(m: PublishModel)
    requires
        m.wf(),
    ensures
        spec_parse_publish(
            m.spec_bytes(),
            m.spec_bytes().len() as int,
            m.duplicate,
            m.qos,
            m.retain,
        ) == Ok::<_, Error>((m, m.spec_bytes().len() as int)),
{
    let bytes = m.spec_bytes();
    assert(bytes.take(bytes.len() as int) =~= bytes);
    lemma_publish_body_round_trip(m);
}

/// Decoding a publish packet's own body bytes yields the packet back.
proof fn lemma_publish_body_round_trip(m: PublishModel)
    requires
        m.wf(),
    ensures
        spec_parse_publish_body(m.spec_bytes(), m.duplicate, m.qos, m.retain) == Ok::<
            PublishModel,
            Error,
        >(m),
{
    lemma_publish_layout(m);
    lemma_publish_props_facts(m);
    lemma_parse_fold_round_trip(m.props(), Set::empty(), publish_init(), publish_step());
    lemma_publish_fold(m);
}

/// How a publish packet's wire form splits: the topic, the packet
/// identifier when carried, the region behind its length prefix, then the
/// payload.
#[verifier::rlimit(100)]
proof fn lemma_publish_layout(m: PublishModel)
    requires
        m.wf(),
    ensures
        codec::spec_parse_text(m.spec_bytes()) == Ok::<_, Error>(
            (m.topic_name, spec_text(m.topic_name).len() as int),
        ),
        m.qos != QoS::AtMostOnce ==> codec::spec_parse_u16(
            m.spec_bytes().skip(spec_text(m.topic_name).len() as int),
        ) == Ok::<_, Error>((m.packet_identifier->0, 2int)),
        spec_take_region(m.spec_bytes().skip(publish_pid_end(m))) == Ok::<_, Error>(
            (m.region(), spec_vli(m.region().len() as int).len() + m.region().len() as int),
        ),
        m.spec_bytes().skip(
            publish_pid_end(m) + spec_vli(m.region().len() as int).len()
                + m.region().len() as int,
        ) == m.message,
{
    let body = m.spec_bytes();
    let region = m.region();
    let rlen = region.len() as int;
    let pid_part = (match m.packet_identifier {
        Some(pid) => if m.qos != QoS::AtMostOnce {
            spec_u16(pid)
        } else {
            Seq::<u8>::empty()
        },
        None => Seq::<u8>::empty(),
    });
    let tail1 = pid_part + spec_vli(rlen) + region + m.message;
    codec::lemma_parse_text_round_trip(m.topic_name, tail1);
    assert(body =~= spec_text(m.topic_name) + tail1);
    let tlen = spec_text(m.topic_name).len() as int;
    assert(body.skip(tlen) =~= tail1);

    let tail2 = spec_vli(rlen) + region + m.message;
    let pidlen = publish_pid_end(m);
    if m.qos != QoS::AtMostOnce {
        codec::lemma_parse_u16_round_trip(m.packet_identifier->0, tail2);
        assert(tail1 =~= spec_u16(m.packet_identifier->0) + tail2);
    } else {
        assert(tail1 =~= tail2);
    }
    assert(body.skip(pidlen) =~= tail2);

    codec::lemma_parse_vli_round_trip(rlen, region + m.message);
    assert(tail2 =~= spec_vli(rlen) + (region + m.message));
    let vlen = spec_vli(rlen).len() as int;
    assert(tail2.subrange(vlen, vlen + rlen) =~= region);

    assert(body.skip(pidlen + vlen + rlen) =~= m.message);
}

/// Where a publish body's topic name and optional packet identifier end.
pub open spec fn publish_pid_end(m: PublishModel) -> int {
    if m.qos != QoS::AtMostOnce {
        spec_text(m.topic_name).len() as int + 2
    } else {
        spec_text(m.topic_name).len() as int
    }
}

/// Every property in a publish's list is representable and not elided, and
/// its non-repeatable property ids are pairwise distinct.
#[verifier::rlimit(100)]
proof fn lemma_publish_props_facts(m: PublishModel)
    requires
        m.props_encodable(),
    ensures
        forall|i: int|
            0 <= i < m.props().len() ==> crate::property::prop_encode_ok(#[trigger] m.props()[i])
                && !crate::property::prop_is_default(m.props()[i]),
        forall|i: int, j: int|
            0 <= i < j < m.props().len() && !crate::property::prop_repeatable(
                crate::property::prop_id(#[trigger] m.props()[i]),
            ) ==> crate::property::prop_id(m.props()[i]) != crate::property::prop_id(
                #[trigger] m.props()[j],
            ),
{
    let ps = m.props();
    let a1 = (if m.payload_format_indicator != DEFAULT_PAYLOAD_FORMAT_INDICATOR {
        seq![PropertyModel::PayloadFormatIndicator(m.payload_format_indicator)]
    } else {
        Seq::<PropertyModel>::empty()
    });
    let a2 = (match m.message_expiry_interval {
        Some(v) => seq![PropertyModel::MessageExpiryInterval(v)],
        None => Seq::<PropertyModel>::empty(),
    });
    let a3 = (match m.topic_alias {
        Some(v) => seq![PropertyModel::TopicAlias(v)],
        None => Seq::<PropertyModel>::empty(),
    });
    let a4 = (match m.response_topic {
        Some(s) => seq![PropertyModel::ResponseTopic(s)],
        None => Seq::<PropertyModel>::empty(),
    });
    let a5 = (match m.correlation_data {
        Some(b) => seq![PropertyModel::CorrelationData(b)],
        None => Seq::<PropertyModel>::empty(),
    });
    let a6 = user_prop_models(m.user_properties);
    let a7 = sub_id_models(m.subscription_identifiers);
    let o1 = a1.len() as int;
    let o2 = o1 + a2.len();
    let o3 = o2 + a3.len();
    let o4 = o3 + a4.len();
    let o5 = o4 + a5.len();
    let o6 = o5 + a6.len();
    let o7 = o6 + a7.len();

    assert forall|k: int| 0 <= k < ps.len() implies crate::property::prop_encode_ok(
        #[trigger] ps[k],
    ) && !crate::property::prop_is_default(ps[k]) && (crate::property::prop_id(ps[k]) == 1 ==> k
        < o1) && (crate::property::prop_id(ps[k]) == 2 ==> o1 <= k < o2) && (
    crate::property::prop_id(ps[k]) == 35 ==> o2 <= k < o3) && (crate::property::prop_id(ps[k])
        == 8 ==> o3 <= k < o4) && (crate::property::prop_id(ps[k]) == 9 ==> o4 <= k < o5) && (
    crate::property::prop_id(ps[k]) == 3 ==> k == o7) by {
        if o5 <= k < o6 {
            assert(ps[k] == a6[k - o5]);
            assert(a6[k - o5] == PropertyModel::UserProperty(
                m.user_properties[k - o5].0,
                m.user_properties[k - o5].1,
            ));
        } else if o6 <= k < o7 {
            assert(ps[k] == a7[k - o6]);
            assert(a7[k - o6] == PropertyModel::SubscriptionIdentifier(
                m.subscription_identifiers[k - o6],
            ));
        }
    }
}

/// The pure fold of a publish's own property list lands on exactly the
/// packet's fields.
#[verifier::rlimit(100)]
proof fn lemma_publish_fold(m: PublishModel)
    ensures
        spec_fold(m.props(), publish_init(), publish_step()) == Ok::<_, Error>(
            PublishAcc {
                payload_format_indicator: m.payload_format_indicator,
                message_expiry_interval: m.message_expiry_interval,
                topic_alias: m.topic_alias,
                response_topic: m.response_topic,
                correlation_data: m.correlation_data,
                user_properties: m.user_properties,
                subscription_identifiers: m.subscription_identifiers,
                content_type: m.content_type,
            },
        ),
{
    let step = publish_step();
    let init = publish_init();
    let a1 = (if m.payload_format_indicator != DEFAULT_PAYLOAD_FORMAT_INDICATOR {
        seq![PropertyModel::PayloadFormatIndicator(m.payload_format_indicator)]
    } else {
        Seq::<PropertyModel>::empty()
    });
    let a2 = (match m.message_expiry_interval {
        Some(v) => seq![PropertyModel::MessageExpiryInterval(v)],
        None => Seq::<PropertyModel>::empty(),
    });
    let a3 = (match m.topic_alias {
        Some(v) => seq![PropertyModel::TopicAlias(v)],
        None => Seq::<PropertyModel>::empty(),
    });
    let a4 = (match m.response_topic {
        Some(s) => seq![PropertyModel::ResponseTopic(s)],
        None => Seq::<PropertyModel>::empty(),
    });
    let a5 = (match m.correlation_data {
        Some(b) => seq![PropertyModel::CorrelationData(b)],
        None => Seq::<PropertyModel>::empty(),
    });
    let a6 = user_prop_models(m.user_properties);
    let a7 = sub_id_models(m.subscription_identifiers);
    let a8 = seq![PropertyModel::ContentType(m.content_type)];

    let c1 = PublishAcc { payload_format_indicator: m.payload_format_indicator, ..init };
    assert(spec_fold(a1, init, step) == Ok::<_, Error>(c1)) by {
        if m.payload_format_indicator != DEFAULT_PAYLOAD_FORMAT_INDICATOR {
            assert(step(init, a1[0]) == Ok::<_, Error>(c1));
            assert(a1.drop_first() =~= Seq::<PropertyModel>::empty());
            assert(spec_fold(a1.drop_first(), c1, step) == Ok::<_, Error>(c1));
        } else {
            assert(init == c1);
        }
    }
    let c2 = PublishAcc { message_expiry_interval: m.message_expiry_interval, ..c1 };
    assert(spec_fold(a2, c1, step) == Ok::<_, Error>(c2)) by {
        if m.message_expiry_interval is Some {
            assert(step(c1, a2[0]) == Ok::<_, Error>(c2));
            assert(a2.drop_first() =~= Seq::<PropertyModel>::empty());
            assert(spec_fold(a2.drop_first(), c2, step) == Ok::<_, Error>(c2));
        } else {
            assert(c1 == c2);
        }
    }
    let c3 = PublishAcc { topic_alias: m.topic_alias, ..c2 };
    assert(spec_fold(a3, c2, step) == Ok::<_, Error>(c3)) by {
        if m.topic_alias is Some {
            assert(step(c2, a3[0]) == Ok::<_, Error>(c3));
            assert(a3.drop_first() =~= Seq::<PropertyModel>::empty());
            assert(spec_fold(a3.drop_first(), c3, step) == Ok::<_, Error>(c3));
        } else {
            assert(c2 == c3);
        }
    }
    let c4 = PublishAcc { response_topic: m.response_topic, ..c3 };
    assert(spec_fold(a4, c3, step) == Ok::<_, Error>(c4)) by {
        if m.response_topic is Some {
            assert(a4[0] == PropertyModel::ResponseTopic(m.response_topic->0));
            assert(step(c3, a4[0]) == Ok::<_, Error>(c4));
            assert(a4.drop_first() =~= Seq::<PropertyModel>::empty());
            assert(spec_fold(a4.drop_first(), c4, step) == Ok::<_, Error>(c4));
        } else {
            assert(c3 == c4);
        }
    }
    let c5 = PublishAcc { correlation_data: m.correlation_data, ..c4 };
    assert(spec_fold(a5, c4, step) == Ok::<_, Error>(c5)) by {
        if m.correlation_data is Some {
            assert(a5[0] == PropertyModel::CorrelationData(m.correlation_data->0));
            assert(step(c4, a5[0]) == Ok::<_, Error>(c5));
            assert(a5.drop_first() =~= Seq::<PropertyModel>::empty());
            assert(spec_fold(a5.drop_first(), c5, step) == Ok::<_, Error>(c5));
        } else {
            assert(c4 == c5);
        }
    }
    let c6 = PublishAcc { user_properties: m.user_properties, ..c5 };
    assert(spec_fold(a6, c5, step) == Ok::<_, Error>(c6)) by {
        lemma_publish_fold_ups(m.user_properties, c5);
        assert(c5.user_properties + m.user_properties =~= m.user_properties);
    }
    let c7 = PublishAcc { subscription_identifiers: m.subscription_identifiers, ..c6 };
    assert(spec_fold(a7, c6, step) == Ok::<_, Error>(c7)) by {
        lemma_publish_fold_sids(m.subscription_identifiers, c6);
        assert(c6.subscription_identifiers + m.subscription_identifiers
            =~= m.subscription_identifiers);
    }
    let c8 = PublishAcc { content_type: m.content_type, ..c7 };
    assert(spec_fold(a8, c7, step) == Ok::<_, Error>(c8)) by {
        assert(a8[0] == PropertyModel::ContentType(m.content_type));
        assert(step(c7, a8[0]) == Ok::<_, Error>(c8));
        assert(a8.drop_first() =~= Seq::<PropertyModel>::empty());
        assert(spec_fold(a8.drop_first(), c8, step) == Ok::<_, Error>(c8));
    }

    lemma_spec_fold_append(a1, a2, init, step);
    lemma_spec_fold_append(a1 + a2, a3, init, step);
    lemma_spec_fold_append(a1 + a2 + a3, a4, init, step);
    lemma_spec_fold_append(a1 + a2 + a3 + a4, a5, init, step);
    lemma_spec_fold_append(a1 + a2 + a3 + a4 + a5, a6, init, step);
    lemma_spec_fold_append(a1 + a2 + a3 + a4 + a5 + a6, a7, init, step);
    lemma_spec_fold_append(a1 + a2 + a3 + a4 + a5 + a6 + a7, a8, init, step);
}

/// Folding user properties appends each pair, in order, to the state.
proof fn lemma_publish_fold_ups(ups: Seq<(Seq<char>, Seq<char>)>, acc: PublishAcc)
    ensures
        spec_fold(user_prop_models(ups), acc, publish_step()) == Ok::<_, Error>(
            PublishAcc { user_properties: acc.user_properties + ups, ..acc },
        ),
    decreases ups.len(),
{
    let pm = user_prop_models(ups);
    if ups.len() == 0 {
        assert(acc.user_properties + ups =~= acc.user_properties);
    } else {
        assert(pm[0] == PropertyModel::UserProperty(ups[0].0, ups[0].1));
        let acc1 = PublishAcc {
            user_properties: acc.user_properties.push((ups[0].0, ups[0].1)),
            ..acc
        };
        assert(pm.drop_first() =~= user_prop_models(ups.drop_first()));
        lemma_publish_fold_ups(ups.drop_first(), acc1);
        assert(acc1.user_properties + ups.drop_first() =~= acc.user_properties + ups);
    }
}

/// Folding subscription identifiers appends each value, in order, to the
/// state.
proof fn lemma_publish_fold_sids(ids: Seq<u32>, acc: PublishAcc)
    ensures
        spec_fold(sub_id_models(ids), acc, publish_step()) == Ok::<_, Error>(
            PublishAcc { subscription_identifiers: acc.subscription_identifiers + ids, ..acc },
        ),
    decreases ids.len(),
{
    let pm = sub_id_models(ids);
    if ids.len() == 0 {
        assert(acc.subscription_identifiers + ids =~= acc.subscription_identifiers);
    } else {
        assert(pm[0] == PropertyModel::SubscriptionIdentifier(ids[0]));
        let acc1 = PublishAcc {
            subscription_identifiers: acc.subscription_identifiers.push(ids[0]),
            ..acc
        };
        assert(pm.drop_first() =~= sub_id_models(ids.drop_first()));
        lemma_publish_fold_sids(ids.drop_first(), acc1);
        assert(acc1.subscription_identifiers + ids.drop_first() =~= acc.subscription_identifiers
            + ids);
    }
}

} // verus!
