use vstd::prelude::*;

verus! {

use crate::codec::{
    self, spec_binary, spec_bool, spec_parse_binary, spec_parse_bool, spec_parse_text,
    spec_parse_u16, spec_parse_u32, spec_parse_vli, spec_text, spec_u16, spec_u32, spec_vli,
    Reader, VARIABLE_BYTE_INTEGER_MAX,
};
use crate::error::Error;
use crate::quality_of_service::{spec_parse_qos, QoS};
use vstd::utf8::encode_utf8;

/// Value substituted for an absent payload-format-indicator property.
pub const DEFAULT_PAYLOAD_FORMAT_INDICATOR: bool = false;

/// Value substituted for an absent session-expiry-interval property.
pub const DEFAULT_SESSION_EXPIRY_INTERVAL: u32 = 0;

/// Value substituted for an absent request-problem-information property.
pub const DEFAULT_REQUEST_PROBLEM_INFORMATION: bool = true;

/// Value substituted for an absent will-delay-interval property.
pub const DEFAULT_WILL_DELAY_INTERVAL: u32 = 0;

/// Value substituted for an absent request-response-information property.
pub const DEFAULT_REQUEST_RESPONSE_INFORMATION: bool = false;

/// Value substituted for an absent receive-maximum property.
pub const DEFAULT_RECEIVE_MAXIMUM: u16 = 65535;

/// Value substituted for an absent topic-alias-maximum property.
pub const DEFAULT_TOPIC_ALIAS_MAXIMUM: u16 = 0;

/// Value substituted for an absent retain-available property.
pub const DEFAULT_RETAIN_AVAILABLE: bool = true;

/// Value substituted for an absent wildcard-subscription-available property.
pub const DEFAULT_WILCARD_SUBSCRIPTION_AVAILABLE: bool = true;

/// Value substituted for an absent shared-subscription-available property.
pub const DEFAULT_SHARED_SUBSCRIPTION_AVAILABLE: bool = true;

/// Level substituted for an absent maximum-quality-of-service property.
pub open spec fn default_maximum_qos() -> QoS {
    QoS::ExactlyOnce
}

/// An optional packet attribute, identified on the wire by a numeric
/// property id carried as a variable-length integer before its payload.
///
/// Encoding a property whose value equals its default writes nothing; a
/// decoded region that lacks the property means the default. Every kind but
/// [`Property::UserProperty`] may appear at most once in one region.
#[derive(Debug, PartialEq, Clone)]
pub enum Property {
    /// Whether the publish payload is UTF-8 text (`true`) or opaque bytes.
    PayloadFormatIndicator(bool),
    /// Lifetime of a publish message, in seconds.
    MessageExpiryInterval(u32),
    /// A description of the publish payload's content.
    ContentType(String),
    /// The topic name for a response message.
    ResponseTopic(String),
    /// Data the sender of a request uses to match a response.
    CorrelationData(Vec<u8>),
    /// The identifier of the subscription a publish matches; zero is invalid.
    SubscriptionIdentifier(u32),
    /// How long the session outlives the connection, in seconds.
    SessionExpiryInterval(u32),
    /// The client identifier the server assigned.
    AssignedClientIdentifier(String),
    /// The keep-alive time the server imposes, in seconds.
    ServerKeepAlive(u16),
    /// The name of the extended authentication method.
    AuthenticationMethod(String),
    /// Opaque data of the extended authentication exchange.
    AuthenticationData(Vec<u8>),
    /// Whether the server may send a reason string and user properties on failures.
    RequestProblemInformation(bool),
    /// Delay before the will message is published, in seconds.
    WillDelayInterval(u32),
    /// Whether the client asks for response information in the connection acknowledgment.
    RequestResponseInformation(bool),
    /// A base the client may build response topics from.
    ResponseInformation(String),
    /// Another server the client should use.
    ServerReference(String),
    /// A human-readable elaboration of a reason code.
    ReasonString(String),
    /// How many unacknowledged publishes the sender accepts concurrently; zero is a malformed value.
    ReceiveMaximum(u16),
    /// The highest topic alias the sender accepts.
    TopicAliasMaximum(u16),
    /// An integer standing in for the topic name on this connection.
    TopicAlias(u16),
    /// The highest quality of service the server supports.
    MaximumQoS(QoS),
    /// Whether the server supports retained messages.
    RetainAvailable(bool),
    /// A free-form name and value pair; the only repeatable property.
    UserProperty(String, String),
    /// The largest packet size the sender accepts.
    MaximumPacketSize(u32),
    /// Whether the server supports wildcard subscriptions.
    WildcardSubscriptionAvailable(bool),
    /// Whether the server supports subscription identifiers.
    SubscriptionIdentifierAvailable(bool),
    /// Whether the server supports shared subscriptions.
    SharedSubscriptionAvailable(bool),
}

/// The mathematical value of a [`Property`]: the same tagged union over
/// views of the payloads.
pub ghost enum PropertyModel {
    PayloadFormatIndicator(bool),
    MessageExpiryInterval(u32),
    ContentType(Seq<char>),
    ResponseTopic(Seq<char>),
    CorrelationData(Seq<u8>),
    SubscriptionIdentifier(u32),
    SessionExpiryInterval(u32),
    AssignedClientIdentifier(Seq<char>),
    ServerKeepAlive(u16),
    AuthenticationMethod(Seq<char>),
    AuthenticationData(Seq<u8>),
    RequestProblemInformation(bool),
    WillDelayInterval(u32),
    RequestResponseInformation(bool),
    ResponseInformation(Seq<char>),
    ServerReference(Seq<char>),
    ReasonString(Seq<char>),
    ReceiveMaximum(u16),
    TopicAliasMaximum(u16),
    TopicAlias(u16),
    MaximumQoS(QoS),
    RetainAvailable(bool),
    UserProperty(Seq<char>, Seq<char>),
    MaximumPacketSize(u32),
    WildcardSubscriptionAvailable(bool),
    SubscriptionIdentifierAvailable(bool),
    SharedSubscriptionAvailable(bool),
}

impl View for Property {
    type V = PropertyModel;

    open spec fn view(&self) -> PropertyModel {
        match self {
            Property::PayloadFormatIndicator(v) => PropertyModel::PayloadFormatIndicator(*v),
            Property::MessageExpiryInterval(v) => PropertyModel::MessageExpiryInterval(*v),
            Property::ContentType(v) => PropertyModel::ContentType(v@),
            Property::ResponseTopic(v) => PropertyModel::ResponseTopic(v@),
            Property::CorrelationData(v) => PropertyModel::CorrelationData(v@),
            Property::SubscriptionIdentifier(v) => PropertyModel::SubscriptionIdentifier(*v),
            Property::SessionExpiryInterval(v) => PropertyModel::SessionExpiryInterval(*v),
            Property::AssignedClientIdentifier(v) => PropertyModel::AssignedClientIdentifier(v@),
            Property::ServerKeepAlive(v) => PropertyModel::ServerKeepAlive(*v),
            Property::AuthenticationMethod(v) => PropertyModel::AuthenticationMethod(v@),
            Property::AuthenticationData(v) => PropertyModel::AuthenticationData(v@),
            Property::RequestProblemInformation(v) => PropertyModel::RequestProblemInformation(*v),
            Property::WillDelayInterval(v) => PropertyModel::WillDelayInterval(*v),
            Property::RequestResponseInformation(v) => PropertyModel::RequestResponseInformation(*v),
            Property::ResponseInformation(v) => PropertyModel::ResponseInformation(v@),
            Property::ServerReference(v) => PropertyModel::ServerReference(v@),
            Property::ReasonString(v) => PropertyModel::ReasonString(v@),
            Property::ReceiveMaximum(v) => PropertyModel::ReceiveMaximum(*v),
            Property::TopicAliasMaximum(v) => PropertyModel::TopicAliasMaximum(*v),
            Property::TopicAlias(v) => PropertyModel::TopicAlias(*v),
            Property::MaximumQoS(v) => PropertyModel::MaximumQoS(*v),
            Property::RetainAvailable(v) => PropertyModel::RetainAvailable(*v),
            Property::UserProperty(k, v) => PropertyModel::UserProperty(k@, v@),
            Property::MaximumPacketSize(v) => PropertyModel::MaximumPacketSize(*v),
            Property::WildcardSubscriptionAvailable(v) => PropertyModel::WildcardSubscriptionAvailable(*v),
            Property::SubscriptionIdentifierAvailable(v) => PropertyModel::SubscriptionIdentifierAvailable(*v),
            Property::SharedSubscriptionAvailable(v) => PropertyModel::SharedSubscriptionAvailable(*v),
        }
    }
}

/// The numeric property id that tags a property's payload on the wire.
pub open spec fn prop_id(p: PropertyModel) -> int {
    match p {
        PropertyModel::PayloadFormatIndicator(..) => 1,
        PropertyModel::MessageExpiryInterval(..) => 2,
        PropertyModel::ContentType(..) => 3,
        PropertyModel::ResponseTopic(..) => 8,
        PropertyModel::CorrelationData(..) => 9,
        PropertyModel::SubscriptionIdentifier(..) => 11,
        PropertyModel::SessionExpiryInterval(..) => 17,
        PropertyModel::AssignedClientIdentifier(..) => 18,
        PropertyModel::ServerKeepAlive(..) => 19,
        PropertyModel::AuthenticationMethod(..) => 21,
        PropertyModel::AuthenticationData(..) => 22,
        PropertyModel::RequestProblemInformation(..) => 23,
        PropertyModel::WillDelayInterval(..) => 24,
        PropertyModel::RequestResponseInformation(..) => 25,
        PropertyModel::ResponseInformation(..) => 26,
        PropertyModel::ServerReference(..) => 28,
        PropertyModel::ReasonString(..) => 31,
        PropertyModel::ReceiveMaximum(..) => 33,
        PropertyModel::TopicAliasMaximum(..) => 34,
        PropertyModel::TopicAlias(..) => 35,
        PropertyModel::MaximumQoS(..) => 36,
        PropertyModel::RetainAvailable(..) => 37,
        PropertyModel::UserProperty(..) => 38,
        PropertyModel::MaximumPacketSize(..) => 39,
        PropertyModel::WildcardSubscriptionAvailable(..) => 40,
        PropertyModel::SubscriptionIdentifierAvailable(..) => 41,
        PropertyModel::SharedSubscriptionAvailable(..) => 42,
    }
}

/// Whether the value equals the property's default, in which case encoding
/// elides it entirely.
pub open spec fn prop_is_default(p: PropertyModel) -> bool {
    match p {
        PropertyModel::PayloadFormatIndicator(v) => v == DEFAULT_PAYLOAD_FORMAT_INDICATOR,
        PropertyModel::MessageExpiryInterval(..) => false,
        PropertyModel::ContentType(..) => false,
        PropertyModel::ResponseTopic(..) => false,
        PropertyModel::CorrelationData(..) => false,
        PropertyModel::SubscriptionIdentifier(..) => false,
        PropertyModel::SessionExpiryInterval(v) => v == DEFAULT_SESSION_EXPIRY_INTERVAL,
        PropertyModel::AssignedClientIdentifier(..) => false,
        PropertyModel::ServerKeepAlive(..) => false,
        PropertyModel::AuthenticationMethod(..) => false,
        PropertyModel::AuthenticationData(..) => false,
        PropertyModel::RequestProblemInformation(v) => v == DEFAULT_REQUEST_PROBLEM_INFORMATION,
        PropertyModel::WillDelayInterval(v) => v == DEFAULT_WILL_DELAY_INTERVAL,
        PropertyModel::RequestResponseInformation(v) => v == DEFAULT_REQUEST_RESPONSE_INFORMATION,
        PropertyModel::ResponseInformation(..) => false,
        PropertyModel::ServerReference(..) => false,
        PropertyModel::ReasonString(..) => false,
        PropertyModel::ReceiveMaximum(v) => v == DEFAULT_RECEIVE_MAXIMUM,
        PropertyModel::TopicAliasMaximum(v) => v == DEFAULT_TOPIC_ALIAS_MAXIMUM,
        PropertyModel::TopicAlias(..) => false,
        PropertyModel::MaximumQoS(v) => v == default_maximum_qos(),
        PropertyModel::RetainAvailable(v) => v == DEFAULT_RETAIN_AVAILABLE,
        PropertyModel::UserProperty(..) => false,
        PropertyModel::MaximumPacketSize(..) => false,
        PropertyModel::WildcardSubscriptionAvailable(v) => v == DEFAULT_WILCARD_SUBSCRIPTION_AVAILABLE,
        PropertyModel::SubscriptionIdentifierAvailable(..) => false,
        PropertyModel::SharedSubscriptionAvailable(v) => v == DEFAULT_SHARED_SUBSCRIPTION_AVAILABLE,
    }
}

/// Whether the value can be represented on the wire: payloads must fit
/// their length prefixes, and the two values the protocol forbids outright
/// (a zero subscription identifier, a zero receive-maximum) are rejected.
pub open spec fn prop_encode_ok(p: PropertyModel) -> bool {
    match p {
        PropertyModel::PayloadFormatIndicator(..) => true,
        PropertyModel::MessageExpiryInterval(..) => true,
        PropertyModel::ContentType(v) => vstd::utf8::encode_utf8(v).len() <= 65535,
        PropertyModel::ResponseTopic(v) => vstd::utf8::encode_utf8(v).len() <= 65535,
        PropertyModel::CorrelationData(v) => v.len() <= 65535,
        PropertyModel::SubscriptionIdentifier(v) => v != 0 && v <= VARIABLE_BYTE_INTEGER_MAX,
        PropertyModel::SessionExpiryInterval(..) => true,
        PropertyModel::AssignedClientIdentifier(v) => vstd::utf8::encode_utf8(v).len() <= 65535,
        PropertyModel::ServerKeepAlive(..) => true,
        PropertyModel::AuthenticationMethod(v) => vstd::utf8::encode_utf8(v).len() <= 65535,
        PropertyModel::AuthenticationData(v) => v.len() <= 65535,
        PropertyModel::RequestProblemInformation(..) => true,
        PropertyModel::WillDelayInterval(..) => true,
        PropertyModel::RequestResponseInformation(..) => true,
        PropertyModel::ResponseInformation(v) => vstd::utf8::encode_utf8(v).len() <= 65535,
        PropertyModel::ServerReference(v) => vstd::utf8::encode_utf8(v).len() <= 65535,
        PropertyModel::ReasonString(v) => vstd::utf8::encode_utf8(v).len() <= 65535,
        PropertyModel::ReceiveMaximum(v) => v != 0,
        PropertyModel::TopicAliasMaximum(..) => true,
        PropertyModel::TopicAlias(..) => true,
        PropertyModel::MaximumQoS(..) => true,
        PropertyModel::RetainAvailable(..) => true,
        PropertyModel::UserProperty(k, v) => vstd::utf8::encode_utf8(k).len() <= 65535 && vstd::utf8::encode_utf8(v).len() <= 65535,
        PropertyModel::MaximumPacketSize(..) => true,
        PropertyModel::WildcardSubscriptionAvailable(..) => true,
        PropertyModel::SubscriptionIdentifierAvailable(..) => true,
        PropertyModel::SharedSubscriptionAvailable(..) => true,
    }
}

/// The failure encoding an unrepresentable value reports: a zero
/// receive-maximum is the distinguished malformed value, everything else is
/// a protocol violation.
pub open spec fn spec_prop_encode_err(p: PropertyModel) -> Error {
    match p {
        PropertyModel::ReceiveMaximum(..) => Error::MalformedPacket,
        _ => Error::ProtocolError,
    }
}

/// The wire form of a property's payload, without the id.
pub open spec fn prop_value_bytes(p: PropertyModel) -> Seq<u8> {
    match p {
        PropertyModel::PayloadFormatIndicator(v) => spec_bool(v),
        PropertyModel::MessageExpiryInterval(v) => spec_u32(v),
        PropertyModel::ContentType(v) => spec_text(v),
        PropertyModel::ResponseTopic(v) => spec_text(v),
        PropertyModel::CorrelationData(v) => spec_binary(v),
        PropertyModel::SubscriptionIdentifier(v) => spec_vli(v as int),
        PropertyModel::SessionExpiryInterval(v) => spec_u32(v),
        PropertyModel::AssignedClientIdentifier(v) => spec_text(v),
        PropertyModel::ServerKeepAlive(v) => spec_u16(v),
        PropertyModel::AuthenticationMethod(v) => spec_text(v),
        PropertyModel::AuthenticationData(v) => spec_binary(v),
        PropertyModel::RequestProblemInformation(v) => spec_bool(v),
        PropertyModel::WillDelayInterval(v) => spec_u32(v),
        PropertyModel::RequestResponseInformation(v) => spec_bool(v),
        PropertyModel::ResponseInformation(v) => spec_text(v),
        PropertyModel::ServerReference(v) => spec_text(v),
        PropertyModel::ReasonString(v) => spec_text(v),
        PropertyModel::ReceiveMaximum(v) => spec_u16(v),
        PropertyModel::TopicAliasMaximum(v) => spec_u16(v),
        PropertyModel::TopicAlias(v) => spec_u16(v),
        PropertyModel::MaximumQoS(v) => seq![v.code()],
        PropertyModel::RetainAvailable(v) => spec_bool(v),
        PropertyModel::UserProperty(k, v) => spec_text(k) + spec_text(v),
        PropertyModel::MaximumPacketSize(v) => spec_u32(v),
        PropertyModel::WildcardSubscriptionAvailable(v) => spec_bool(v),
        PropertyModel::SubscriptionIdentifierAvailable(v) => spec_bool(v),
        PropertyModel::SharedSubscriptionAvailable(v) => spec_bool(v),
    }
}

/// The full wire form of a property: nothing when the value is the default,
/// else the id as a variable-length integer followed by the payload.
pub open spec fn prop_bytes(p: PropertyModel) -> Seq<u8> {
    if prop_is_default(p) {
        Seq::empty()
    } else {
        spec_vli(prop_id(p)) + prop_value_bytes(p)
    }
}

/// What decoding the payload of the property tagged `id` yields, or a
/// protocol violation for an id outside the table.
pub open spec fn spec_parse_prop_value(id: int, bytes: Seq<u8>) -> Result<
    (PropertyModel, int),
    Error,
> {
    if id == 1 {
        match spec_parse_bool(bytes) {
            Ok(p) => Ok((PropertyModel::PayloadFormatIndicator(p.0), p.1)),
            Err(e) => Err(e),
        }
    } else if id == 2 {
        match spec_parse_u32(bytes) {
            Ok(p) => Ok((PropertyModel::MessageExpiryInterval(p.0), p.1)),
            Err(e) => Err(e),
        }
    } else if id == 3 {
        match spec_parse_text(bytes) {
            Ok(p) => Ok((PropertyModel::ContentType(p.0), p.1)),
            Err(e) => Err(e),
        }
    } else if id == 8 {
        match spec_parse_text(bytes) {
            Ok(p) => Ok((PropertyModel::ResponseTopic(p.0), p.1)),
            Err(e) => Err(e),
        }
    } else if id == 9 {
        match spec_parse_binary(bytes) {
            Ok(p) => Ok((PropertyModel::CorrelationData(p.0), p.1)),
            Err(e) => Err(e),
        }
    } else if id == 11 {
        match spec_parse_vli(bytes) {
            Ok(p) => if p.0 == 0 {
                Err(Error::ProtocolError)
            } else {
                Ok((PropertyModel::SubscriptionIdentifier(p.0 as u32), p.1))
            },
            Err(e) => Err(e),
        }
    } else if id == 17 {
        match spec_parse_u32(bytes) {
            Ok(p) => Ok((PropertyModel::SessionExpiryInterval(p.0), p.1)),
            Err(e) => Err(e),
        }
    } else if id == 18 {
        match spec_parse_text(bytes) {
            Ok(p) => Ok((PropertyModel::AssignedClientIdentifier(p.0), p.1)),
            Err(e) => Err(e),
        }
    } else if id == 19 {
        match spec_parse_u16(bytes) {
            Ok(p) => Ok((PropertyModel::ServerKeepAlive(p.0), p.1)),
            Err(e) => Err(e),
        }
    } else if id == 21 {
        match spec_parse_text(bytes) {
            Ok(p) => Ok((PropertyModel::AuthenticationMethod(p.0), p.1)),
            Err(e) => Err(e),
        }
    } else if id == 22 {
        match spec_parse_binary(bytes) {
            Ok(p) => Ok((PropertyModel::AuthenticationData(p.0), p.1)),
            Err(e) => Err(e),
        }
    } else if id == 23 {
        match spec_parse_bool(bytes) {
            Ok(p) => Ok((PropertyModel::RequestProblemInformation(p.0), p.1)),
            Err(e) => Err(e),
        }
    } else if id == 24 {
        match spec_parse_u32(bytes) {
            Ok(p) => Ok((PropertyModel::WillDelayInterval(p.0), p.1)),
            Err(e) => Err(e),
        }
    } else if id == 25 {
        match spec_parse_bool(bytes) {
            Ok(p) => Ok((PropertyModel::RequestResponseInformation(p.0), p.1)),
            Err(e) => Err(e),
        }
    } else if id == 26 {
        match spec_parse_text(bytes) {
            Ok(p) => Ok((PropertyModel::ResponseInformation(p.0), p.1)),
            Err(e) => Err(e),
        }
    } else if id == 28 {
        match spec_parse_text(bytes) {
            Ok(p) => Ok((PropertyModel::ServerReference(p.0), p.1)),
            Err(e) => Err(e),
        }
    } else if id == 31 {
        match spec_parse_text(bytes) {
            Ok(p) => Ok((PropertyModel::ReasonString(p.0), p.1)),
            Err(e) => Err(e),
        }
    } else if id == 33 {
        match spec_parse_u16(bytes) {
            Ok(p) => if p.0 == 0 {
                Err(Error::MalformedPacket)
            } else {
                Ok((PropertyModel::ReceiveMaximum(p.0), p.1))
            },
            Err(e) => Err(e),
        }
    } else if id == 34 {
        match spec_parse_u16(bytes) {
            Ok(p) => Ok((PropertyModel::TopicAliasMaximum(p.0), p.1)),
            Err(e) => Err(e),
        }
    } else if id == 35 {
        match spec_parse_u16(bytes) {
            Ok(p) => Ok((PropertyModel::TopicAlias(p.0), p.1)),
            Err(e) => Err(e),
        }
    } else if id == 36 {
        match spec_parse_qos(bytes) {
            Ok(p) => Ok((PropertyModel::MaximumQoS(p.0), p.1)),
            Err(e) => Err(e),
        }
    } else if id == 37 {
        match spec_parse_bool(bytes) {
            Ok(p) => Ok((PropertyModel::RetainAvailable(p.0), p.1)),
            Err(e) => Err(e),
        }
    } else if id == 38 {
        match spec_parse_text(bytes) {
            Ok(k) => match spec_parse_text(bytes.skip(k.1)) {
                Ok(v) => Ok((PropertyModel::UserProperty(k.0, v.0), k.1 + v.1)),
                Err(e) => Err(e),
            },
            Err(e) => Err(e),
        }
    } else if id == 39 {
        match spec_parse_u32(bytes) {
            Ok(p) => Ok((PropertyModel::MaximumPacketSize(p.0), p.1)),
            Err(e) => Err(e),
        }
    } else if id == 40 {
        match spec_parse_bool(bytes) {
            Ok(p) => Ok((PropertyModel::WildcardSubscriptionAvailable(p.0), p.1)),
            Err(e) => Err(e),
        }
    } else if id == 41 {
        match spec_parse_bool(bytes) {
            Ok(p) => Ok((PropertyModel::SubscriptionIdentifierAvailable(p.0), p.1)),
            Err(e) => Err(e),
        }
    } else if id == 42 {
        match spec_parse_bool(bytes) {
            Ok(p) => Ok((PropertyModel::SharedSubscriptionAvailable(p.0), p.1)),
            Err(e) => Err(e),
        }
    } else {
        Err(Error::ProtocolError)
    }
}

/// Whether a property id may occur more than once in a region: only the
/// user property and the subscription identifier are repeatable.
pub open spec fn prop_repeatable(id: int) -> bool {
    id == 38 || id == 11
}

/// What reading one property from the front of a region yields: its id, the
/// duplicate check against the ids already seen, then its payload. The
/// result carries the property, the bytes consumed, and the updated set of
/// seen ids.
pub open spec fn spec_read_prop(bytes: Seq<u8>, seen: Set<int>) -> Result<
    (PropertyModel, int, Set<int>),
    Error,
> {
    match spec_parse_vli(bytes) {
        Ok(h) => {
            let id = h.0;
            if !prop_repeatable(id) && seen.contains(id) {
                Err(Error::ProtocolError)
            } else {
                match spec_parse_prop_value(id, bytes.skip(h.1)) {
                    Ok(p) => Ok(
                        (p.0, h.1 + p.1, if prop_repeatable(id) {
                            seen
                        } else {
                            seen.insert(id)
                        }),
                    ),
                    Err(e) => Err(e),
                }
            }
        },
        Err(e) => Err(e),
    }
}

/// What decoding a whole region yields when each property, as soon as it is
/// read, is folded into an accumulator by `step`: the packet framings each
/// instantiate `step` with their own allowed property set. Reading stops at
/// the first failure, whether of the bytes or of `step`.
pub open spec fn spec_parse_fold<A>(
    bytes: Seq<u8>,
    seen: Set<int>,
    acc: A,
    step: spec_fn(A, PropertyModel) -> Result<A, Error>,
) -> Result<A, Error>
    decreases bytes.len(),
{
    if bytes.len() == 0 {
        Ok(acc)
    } else {
        match spec_read_prop(bytes, seen) {
            Ok(t) => match step(acc, t.0) {
                Ok(a2) => if 1 <= t.1 <= bytes.len() {
                    spec_parse_fold(bytes.skip(t.1), t.2, a2, step)
                } else {
                    Err(Error::ProtocolError)
                },
                Err(e) => Err(e),
            },
            Err(e) => Err(e),
        }
    }
}

/// Folding a sequence of already-decoded properties into an accumulator,
/// stopping at the first failure: the pure counterpart of
/// [`spec_parse_fold`], with the bytes out of the picture.
pub open spec fn spec_fold<A>(
    ps: Seq<PropertyModel>,
    acc: A,
    step: spec_fn(A, PropertyModel) -> Result<A, Error>,
) -> Result<A, Error>
    decreases ps.len(),
{
    if ps.len() == 0 {
        Ok(acc)
    } else {
        match step(acc, ps[0]) {
            Ok(a2) => spec_fold(ps.drop_first(), a2, step),
            Err(e) => Err(e),
        }
    }
}

/// The concatenated wire forms of a sequence of properties.
pub open spec fn props_bytes(ps: Seq<PropertyModel>) -> Seq<u8>
    decreases ps.len(),
{
    if ps.len() == 0 {
        Seq::empty()
    } else {
        prop_bytes(ps[0]) + props_bytes(ps.drop_first())
    }
}

impl Property {
    /// Write the property's id and payload into `out` and return the byte
    /// count, or nothing and `0` when the value equals the property's
    /// default; a value the wire cannot carry fails instead.
    pub fn encode(self, out: &mut Vec<u8>) -> (r: Result<usize, Error>)
        ensures
            r is Ok <==> prop_encode_ok(self@),
            match r {
                Ok(n) => {
                    &&& final(out)@ == old(out)@ + prop_bytes(self@)
                    &&& n == prop_bytes(self@).len()
                },
                Err(e) => e == spec_prop_encode_err(self@),
            },
    {
        let ghost p = self@;
        let ghost out0 = old(out)@;
        match self {
            Property::PayloadFormatIndicator(v) => {
                if v != DEFAULT_PAYLOAD_FORMAT_INDICATOR {
                    let n1 = codec::write_variable_byte_integer(1, out)?;
                    let n2 = codec::write_bool(v, out);
                    proof {
                        assert(out@ =~= out0 + prop_bytes(p));
                    }
                    Ok(n1 + n2)
                } else {
                    proof {
                        assert(out@ =~= out0 + prop_bytes(p));
                    }
                    Ok(0)
                }
            },
            Property::MessageExpiryInterval(v) => {
                let n1 = codec::write_variable_byte_integer(2, out)?;
                let n2 = codec::write_four_byte_integer(v, out);
                proof {
                    assert(out@ =~= out0 + prop_bytes(p));
                }
                Ok(n1 + n2)
            },
            Property::ContentType(v) => {
                let n1 = codec::write_variable_byte_integer(3, out)?;
                let n2 = codec::write_utf8_string(v.as_str(), out)?;
                proof {
                    assert(out@ =~= out0 + prop_bytes(p));
                }
                Ok(n1 + n2)
            },
            Property::ResponseTopic(v) => {
                let n1 = codec::write_variable_byte_integer(8, out)?;
                let n2 = codec::write_utf8_string(v.as_str(), out)?;
                proof {
                    assert(out@ =~= out0 + prop_bytes(p));
                }
                Ok(n1 + n2)
            },
            Property::CorrelationData(v) => {
                let n1 = codec::write_variable_byte_integer(9, out)?;
                let n2 = codec::write_binary_data(&v, out)?;
                proof {
                    assert(out@ =~= out0 + prop_bytes(p));
                }
                Ok(n1 + n2)
            },
            Property::SubscriptionIdentifier(v) => {
                if v == 0 {
                    Err(Error::ProtocolError)
                } else {
                    let n1 = codec::write_variable_byte_integer(11, out)?;
                    let n2 = codec::write_variable_byte_integer(v, out)?;
                    proof {
                        assert(out@ =~= out0 + prop_bytes(p));
                    }
                    Ok(n1 + n2)
                }
            },
            Property::SessionExpiryInterval(v) => {
                if v != DEFAULT_SESSION_EXPIRY_INTERVAL {
                    let n1 = codec::write_variable_byte_integer(17, out)?;
                    let n2 = codec::write_four_byte_integer(v, out);
                    proof {
                        assert(out@ =~= out0 + prop_bytes(p));
                    }
                    Ok(n1 + n2)
                } else {
                    proof {
                        assert(out@ =~= out0 + prop_bytes(p));
                    }
                    Ok(0)
                }
            },
            Property::AssignedClientIdentifier(v) => {
                let n1 = codec::write_variable_byte_integer(18, out)?;
                let n2 = codec::write_utf8_string(v.as_str(), out)?;
                proof {
                    assert(out@ =~= out0 + prop_bytes(p));
                }
                Ok(n1 + n2)
            },
            Property::ServerKeepAlive(v) => {
                let n1 = codec::write_variable_byte_integer(19, out)?;
                let n2 = codec::write_two_byte_integer(v, out);
                proof {
                    assert(out@ =~= out0 + prop_bytes(p));
                }
                Ok(n1 + n2)
            },
            Property::AuthenticationMethod(v) => {
                let n1 = codec::write_variable_byte_integer(21, out)?;
                let n2 = codec::write_utf8_string(v.as_str(), out)?;
                proof {
                    assert(out@ =~= out0 + prop_bytes(p));
                }
                Ok(n1 + n2)
            },
            Property::AuthenticationData(v) => {
                let n1 = codec::write_variable_byte_integer(22, out)?;
                let n2 = codec::write_binary_data(&v, out)?;
                proof {
                    assert(out@ =~= out0 + prop_bytes(p));
                }
                Ok(n1 + n2)
            },
            Property::RequestProblemInformation(v) => {
                if v != DEFAULT_REQUEST_PROBLEM_INFORMATION {
                    let n1 = codec::write_variable_byte_integer(23, out)?;
                    let n2 = codec::write_bool(v, out);
                    proof {
                        assert(out@ =~= out0 + prop_bytes(p));
                    }
                    Ok(n1 + n2)
                } else {
                    proof {
                        assert(out@ =~= out0 + prop_bytes(p));
                    }
                    Ok(0)
                }
            },
            Property::WillDelayInterval(v) => {
                if v != DEFAULT_WILL_DELAY_INTERVAL {
                    let n1 = codec::write_variable_byte_integer(24, out)?;
                    let n2 = codec::write_four_byte_integer(v, out);
                    proof {
                        assert(out@ =~= out0 + prop_bytes(p));
                    }
                    Ok(n1 + n2)
                } else {
                    proof {
                        assert(out@ =~= out0 + prop_bytes(p));
                    }
                    Ok(0)
                }
            },
            Property::RequestResponseInformation(v) => {
                if v != DEFAULT_REQUEST_RESPONSE_INFORMATION {
                    let n1 = codec::write_variable_byte_integer(25, out)?;
                    let n2 = codec::write_bool(v, out);
                    proof {
                        assert(out@ =~= out0 + prop_bytes(p));
                    }
                    Ok(n1 + n2)
                } else {
                    proof {
                        assert(out@ =~= out0 + prop_bytes(p));
                    }
                    Ok(0)
                }
            },
            Property::ResponseInformation(v) => {
                let n1 = codec::write_variable_byte_integer(26, out)?;
                let n2 = codec::write_utf8_string(v.as_str(), out)?;
                proof {
                    assert(out@ =~= out0 + prop_bytes(p));
                }
                Ok(n1 + n2)
            },
            Property::ServerReference(v) => {
                let n1 = codec::write_variable_byte_integer(28, out)?;
                let n2 = codec::write_utf8_string(v.as_str(), out)?;
                proof {
                    assert(out@ =~= out0 + prop_bytes(p));
                }
                Ok(n1 + n2)
            },
            Property::ReasonString(v) => {
                let n1 = codec::write_variable_byte_integer(31, out)?;
                let n2 = codec::write_utf8_string(v.as_str(), out)?;
                proof {
                    assert(out@ =~= out0 + prop_bytes(p));
                }
                Ok(n1 + n2)
            },
            Property::ReceiveMaximum(v) => {
                if v == 0 {
                    Err(Error::MalformedPacket)
                } else if v != DEFAULT_RECEIVE_MAXIMUM {
                    let n1 = codec::write_variable_byte_integer(33, out)?;
                    let n2 = codec::write_two_byte_integer(v, out);
                    proof {
                        assert(out@ =~= out0 + prop_bytes(p));
                    }
                    Ok(n1 + n2)
                } else {
                    proof {
                        assert(out@ =~= out0 + prop_bytes(p));
                    }
                    Ok(0)
                }
            },
            Property::TopicAliasMaximum(v) => {
                if v != DEFAULT_TOPIC_ALIAS_MAXIMUM {
                    let n1 = codec::write_variable_byte_integer(34, out)?;
                    let n2 = codec::write_two_byte_integer(v, out);
                    proof {
                        assert(out@ =~= out0 + prop_bytes(p));
                    }
                    Ok(n1 + n2)
                } else {
                    proof {
                        assert(out@ =~= out0 + prop_bytes(p));
                    }
                    Ok(0)
                }
            },
            Property::TopicAlias(v) => {
                let n1 = codec::write_variable_byte_integer(35, out)?;
                let n2 = codec::write_two_byte_integer(v, out);
                proof {
                    assert(out@ =~= out0 + prop_bytes(p));
                }
                Ok(n1 + n2)
            },
            Property::MaximumQoS(v) => {
                if v != default_maximum_qos_exec() {
                    let n1 = codec::write_variable_byte_integer(36, out)?;
                    let n2 = v.encode(out);
                    proof {
                        assert(out@ =~= out0 + prop_bytes(p));
                    }
                    Ok(n1 + n2)
                } else {
                    proof {
                        assert(out@ =~= out0 + prop_bytes(p));
                    }
                    Ok(0)
                }
            },
            Property::RetainAvailable(v) => {
                if v != DEFAULT_RETAIN_AVAILABLE {
                    let n1 = codec::write_variable_byte_integer(37, out)?;
                    let n2 = codec::write_bool(v, out);
                    proof {
                        assert(out@ =~= out0 + prop_bytes(p));
                    }
                    Ok(n1 + n2)
                } else {
                    proof {
                        assert(out@ =~= out0 + prop_bytes(p));
                    }
                    Ok(0)
                }
            },
            Property::UserProperty(k, v) => {
                let n1 = codec::write_variable_byte_integer(38, out)?;
                let n2 = codec::write_utf8_string(k.as_str(), out)?;
                let n3 = codec::write_utf8_string(v.as_str(), out)?;
                proof {
                    assert(out@ =~= out0 + prop_bytes(p));
                }
                Ok(n1 + n2 + n3)
            },
            Property::MaximumPacketSize(v) => {
                let n1 = codec::write_variable_byte_integer(39, out)?;
                let n2 = codec::write_four_byte_integer(v, out);
                proof {
                    assert(out@ =~= out0 + prop_bytes(p));
                }
                Ok(n1 + n2)
            },
            Property::WildcardSubscriptionAvailable(v) => {
                if v != DEFAULT_WILCARD_SUBSCRIPTION_AVAILABLE {
                    let n1 = codec::write_variable_byte_integer(40, out)?;
                    let n2 = codec::write_bool(v, out);
                    proof {
                        assert(out@ =~= out0 + prop_bytes(p));
                    }
                    Ok(n1 + n2)
                } else {
                    proof {
                        assert(out@ =~= out0 + prop_bytes(p));
                    }
                    Ok(0)
                }
            },
            Property::SubscriptionIdentifierAvailable(v) => {
                let n1 = codec::write_variable_byte_integer(41, out)?;
                let n2 = codec::write_bool(v, out);
                proof {
                    assert(out@ =~= out0 + prop_bytes(p));
                }
                Ok(n1 + n2)
            },
            Property::SharedSubscriptionAvailable(v) => {
                if v != DEFAULT_SHARED_SUBSCRIPTION_AVAILABLE {
                    let n1 = codec::write_variable_byte_integer(42, out)?;
                    let n2 = codec::write_bool(v, out);
                    proof {
                        assert(out@ =~= out0 + prop_bytes(p));
                    }
                    Ok(n1 + n2)
                } else {
                    proof {
                        assert(out@ =~= out0 + prop_bytes(p));
                    }
                    Ok(0)
                }
            },
        }
    }
}

/// The maximum-quality-of-service default as an executable value.
fn default_maximum_qos_exec() -> (q: QoS)
    ensures
        q == default_maximum_qos(),
{
    QoS::ExactlyOnce
}



/// The set of property ids a 64-bit mask records: bit `i` stands for id `i`.
pub open spec fn mask_set(m: u64) -> Set<int> {
    Set::new(|i: int| 0 <= i < 64 && (m >> (i as u64)) & 1u64 == 1u64)
}

/// Setting one bit adds exactly that id to the recorded set.
proof fn lemma_mask_insert(m: u64, id: u64)
    requires
        id < 64,
    ensures
        mask_set(m | (1u64 << id)) == mask_set(m).insert(id as int),
{
    let m2 = m | (1u64 << id);
    assert forall|i: int| #[trigger] mask_set(m2).contains(i) == mask_set(m).insert(
        id as int,
    ).contains(i) by {
        if 0 <= i < 64 {
            let iu = i as u64;
            assert((m2 >> iu) & 1u64 == (if iu == id {
                1u64
            } else {
                (m >> iu) & 1u64
            })) by (bit_vector)
                requires
                    iu < 64 && id < 64 && m2 == m | (1u64 << id),
            ;
        }
    }
    assert(mask_set(m2) =~= mask_set(m).insert(id as int));
}

/// What taking a properties region off the front of a packet body yields:
/// the region's byte length as a variable-length integer, then that many
/// bytes. The result carries the region's bytes and the total consumed.
pub open spec fn spec_take_region(bytes: Seq<u8>) -> Result<(Seq<u8>, int), Error> {
    match spec_parse_vli(bytes) {
        Ok(h) => if bytes.len() < h.1 + h.0 {
            Err(Error::UnexpectedEndOfStream)
        } else {
            Ok((bytes.subrange(h.1, h.1 + h.0), h.1 + h.0))
        },
        Err(e) => Err(e),
    }
}

/// A bounded cursor over one properties region.
///
/// `take` reads the region's declared byte length and scopes the cursor to
/// exactly that many bytes; `read` then hands out one property at a time,
/// rejecting a non-repeatable property id that appears twice.
pub struct PropertiesDecoder {
    region: Reader,
    seen: u64,
}

impl PropertiesDecoder {
    pub closed spec fn wf(self) -> bool {
        self.region.wf()
    }

    /// The bytes of the region not yet decoded.
    pub closed spec fn remaining(self) -> Seq<u8> {
        self.region.remaining()
    }

    /// The non-repeatable property ids already seen.
    pub closed spec fn seen_set(self) -> Set<int> {
        mask_set(self.seen)
    }

    /// Read a region's length prefix from `reader` and scope a fresh cursor
    /// to the region's bytes.
    pub fn take(reader: &mut Reader) -> (r: Result<PropertiesDecoder, Error>)
        requires
            old(reader).wf(),
        ensures
            match r {
                Ok(d) => {
                    &&& spec_take_region(old(reader).remaining()) matches Ok(t) && d.remaining()
                        == t.0 && codec::consumed(*old(reader), *final(reader), t.1)
                    &&& d.wf()
                    &&& d.seen_set() == Set::<int>::empty()
                },
                Err(e) => {
                    &&& spec_take_region(old(reader).remaining()) == Err::<(Seq<u8>, int), _>(e)
                    &&& codec::failed(*old(reader), *final(reader))
                },
            },
    {
        let ghost rem = old(reader).remaining();
        let len = codec::read_variable_byte_integer(reader)?;
        let chunk = match codec::read_chunk(reader, len as usize) {
            Ok(v) => v,
            Err(e) => {
                return Err(e);
            },
        };
        let ghost h = spec_parse_vli(rem)->Ok_0;
        proof {
            assert(rem.skip(h.1).take(h.0) =~= rem.subrange(h.1, h.1 + h.0));
            assert(rem.skip(h.1).skip(h.0) =~= rem.skip(h.1 + h.0));
            assert(mask_set(0) =~= Set::<int>::empty()) by {
                assert forall|i: int| !(#[trigger] mask_set(0u64).contains(i)) by {
                    if 0 <= i < 64 {
                        let iu = i as u64;
                        assert((0u64 >> iu) & 1u64 == 0u64) by (bit_vector);
                    }
                }
            }
        }
        Ok(PropertiesDecoder { region: Reader::new(chunk), seen: 0 })
    }

    /// Whether unread bytes remain in the region.
    pub fn has_properties(&self) -> (b: bool)
        requires
            self.wf(),
        ensures
            b == (self.remaining().len() > 0),
    {
        self.region.remaining_len() > 0
    }

    /// Read the next property: its id, the duplicate check for a
    /// non-repeatable id already seen, then its payload.
    pub fn read(&mut self) -> (r: Result<Property, Error>)
        requires
            old(self).wf(),
        ensures
            match r {
                Ok(p) => {
                    &&& spec_read_prop(old(self).remaining(), old(self).seen_set()) matches Ok(t)
                        && t.0 == p@ && 1 <= t.1 <= old(self).remaining().len() && final(self).remaining() == old(self).remaining().skip(t.1) && final(self).seen_set()
                        == t.2
                    &&& final(self).wf()
                },
                Err(e) => {
                    &&& spec_read_prop(old(self).remaining(), old(self).seen_set())
                        == Err::<(PropertyModel, int, Set<int>), _>(e)
                    &&& final(self).wf()
                },
            },
    {
        let id = codec::read_variable_byte_integer(&mut self.region)?;
        if id != 38 && id != 11 && id < 64 {
            if (self.seen >> (id as u64)) & 1 == 1 {
                proof {
                    assert(old(self).seen_set().contains(id as int));
                }
                return Err(Error::ProtocolError);
            }
            proof {
                assert(!old(self).seen_set().contains(id as int));
                lemma_mask_insert(old(self).seen, id as u64);
            }
            self.seen = self.seen | (1u64 << (id as u64));
        } else {
            proof {
                if id != 38 && id != 11 {
                    assert(!old(self).seen_set().contains(id as int));
                }
            }
        }
        self.read_property_value(id)
    }


    /// Decode the payload of the property tagged `id`.
    #[verifier::rlimit(30)]
    fn read_property_value(&mut self, id: u32) -> (r: Result<Property, Error>)
        requires
            old(self).wf(),
        ensures
            match r {
                Ok(p) => {
                    &&& spec_parse_prop_value(id as int, old(self).remaining()) matches Ok(t)
                        && t.0 == p@ && 1 <= t.1 <= old(self).remaining().len() && final(self).remaining() == old(self).remaining().skip(t.1)
                    &&& final(self).wf()
                    &&& final(self).seen_set() == old(self).seen_set()
                },
                Err(e) => {
                    &&& spec_parse_prop_value(id as int, old(self).remaining()) == Err::<
                        (PropertyModel, int),
                        _,
                    >(e)
                    &&& final(self).wf()
                    &&& final(self).seen_set() == old(self).seen_set()
                },
            },
    {
        match id {
            1 => {
                let v = codec::read_bool(&mut self.region)?;
                Ok(Property::PayloadFormatIndicator(v))
            },
            2 => {
                let v = codec::read_four_byte_integer(&mut self.region)?;
                Ok(Property::MessageExpiryInterval(v))
            },
            3 => {
                let v = codec::read_utf8_string(&mut self.region)?;
                Ok(Property::ContentType(v))
            },
            8 => {
                let v = codec::read_utf8_string(&mut self.region)?;
                Ok(Property::ResponseTopic(v))
            },
            9 => {
                let v = codec::read_binary_data(&mut self.region)?;
                Ok(Property::CorrelationData(v))
            },
            11 => {
                let v = codec::read_variable_byte_integer(&mut self.region)?;
                if v == 0 {
                    Err(Error::ProtocolError)
                } else {
                    Ok(Property::SubscriptionIdentifier(v))
                }
            },
            17 => {
                let v = codec::read_four_byte_integer(&mut self.region)?;
                Ok(Property::SessionExpiryInterval(v))
            },
            18 => {
                let v = codec::read_utf8_string(&mut self.region)?;
                Ok(Property::AssignedClientIdentifier(v))
            },
            19 => {
                let v = codec::read_two_byte_integer(&mut self.region)?;
                Ok(Property::ServerKeepAlive(v))
            },
            21 => {
                let v = codec::read_utf8_string(&mut self.region)?;
                Ok(Property::AuthenticationMethod(v))
            },
            22 => {
                let v = codec::read_binary_data(&mut self.region)?;
                Ok(Property::AuthenticationData(v))
            },
            23 => {
                let v = codec::read_bool(&mut self.region)?;
                Ok(Property::RequestProblemInformation(v))
            },
            24 => {
                let v = codec::read_four_byte_integer(&mut self.region)?;
                Ok(Property::WillDelayInterval(v))
            },
            25 => {
                let v = codec::read_bool(&mut self.region)?;
                Ok(Property::RequestResponseInformation(v))
            },
            26 => {
                let v = codec::read_utf8_string(&mut self.region)?;
                Ok(Property::ResponseInformation(v))
            },
            28 => {
                let v = codec::read_utf8_string(&mut self.region)?;
                Ok(Property::ServerReference(v))
            },
            31 => {
                let v = codec::read_utf8_string(&mut self.region)?;
                Ok(Property::ReasonString(v))
            },
            33 => {
                let v = codec::read_two_byte_integer(&mut self.region)?;
                if v == 0 {
                    Err(Error::MalformedPacket)
                } else {
                    Ok(Property::ReceiveMaximum(v))
                }
            },
            34 => {
                let v = codec::read_two_byte_integer(&mut self.region)?;
                Ok(Property::TopicAliasMaximum(v))
            },
            35 => {
                let v = codec::read_two_byte_integer(&mut self.region)?;
                Ok(Property::TopicAlias(v))
            },
            36 => {
                let v = QoS::decode(&mut self.region)?;
                Ok(Property::MaximumQoS(v))
            },
            37 => {
                let v = codec::read_bool(&mut self.region)?;
                Ok(Property::RetainAvailable(v))
            },
            38 => {
                let ghost rem = old(self).remaining();
                let k = codec::read_utf8_string(&mut self.region)?;
                let ghost kl = spec_parse_text(rem)->Ok_0.1;
                let v = codec::read_utf8_string(&mut self.region)?;
                proof {
                    let vl = spec_parse_text(rem.skip(kl))->Ok_0.1;
                    assert(rem.skip(kl).skip(vl) =~= rem.skip(kl + vl));
                }
                Ok(Property::UserProperty(k, v))
            },
            39 => {
                let v = codec::read_four_byte_integer(&mut self.region)?;
                Ok(Property::MaximumPacketSize(v))
            },
            40 => {
                let v = codec::read_bool(&mut self.region)?;
                Ok(Property::WildcardSubscriptionAvailable(v))
            },
            41 => {
                let v = codec::read_bool(&mut self.region)?;
                Ok(Property::SubscriptionIdentifierAvailable(v))
            },
            42 => {
                let v = codec::read_bool(&mut self.region)?;
                Ok(Property::SharedSubscriptionAvailable(v))
            },
            _ => Err(Error::ProtocolError),
        }
    }
}



/// Encoding elides a property at its default exactly: the default produces
/// no bytes, and any other value produces at least an id byte and a payload
/// byte.
pub proof fn lemma_default_elision(p: PropertyModel)
    ensures
        prop_is_default(p) <==> prop_bytes(p).len() == 0,
{
    if !prop_is_default(p) {
        codec::lemma_vli_len(prop_id(p));
        match p {
            PropertyModel::UserProperty(k, v) => {
                assert(prop_value_bytes(p).len() >= 1);
            },
            _ => {
                assert(prop_value_bytes(p).len() >= 1);
            },
        }
    }
}

/// Reading the front of a region that starts with a property's wire form
/// yields that property back, consumes exactly its wire form, and records
/// its id among the seen ids.
/// Decoding a property payload's wire form, with any suffix behind it,
/// yields the property back and consumes exactly the payload.
#[verifier::rlimit(100)]
proof fn lemma_parse_prop_value_round_trip(p: PropertyModel, rest: Seq<u8>)
    requires
        prop_encode_ok(p),
        !prop_is_default(p),
    ensures
        spec_parse_prop_value(prop_id(p), prop_value_bytes(p) + rest) == Ok::<_, Error>(
            (p, prop_value_bytes(p).len() as int),
        ),
        prop_value_bytes(p).len() >= 1,
{
    let vbytes = prop_value_bytes(p);
    match p {
        PropertyModel::PayloadFormatIndicator(v) => {
            codec::lemma_parse_bool_round_trip(v, rest);
        },
        PropertyModel::MessageExpiryInterval(v) => {
            codec::lemma_parse_u32_round_trip(v, rest);
        },
        PropertyModel::ContentType(v) => {
            codec::lemma_parse_text_round_trip(v, rest);
        },
        PropertyModel::ResponseTopic(v) => {
            codec::lemma_parse_text_round_trip(v, rest);
        },
        PropertyModel::CorrelationData(v) => {
            codec::lemma_parse_binary_round_trip(v, rest);
        },
        PropertyModel::SubscriptionIdentifier(v) => {
            codec::lemma_parse_vli_round_trip(v as int, rest);
        },
        PropertyModel::SessionExpiryInterval(v) => {
            codec::lemma_parse_u32_round_trip(v, rest);
        },
        PropertyModel::AssignedClientIdentifier(v) => {
            codec::lemma_parse_text_round_trip(v, rest);
        },
        PropertyModel::ServerKeepAlive(v) => {
            codec::lemma_parse_u16_round_trip(v, rest);
        },
        PropertyModel::AuthenticationMethod(v) => {
            codec::lemma_parse_text_round_trip(v, rest);
        },
        PropertyModel::AuthenticationData(v) => {
            codec::lemma_parse_binary_round_trip(v, rest);
        },
        PropertyModel::RequestProblemInformation(v) => {
            codec::lemma_parse_bool_round_trip(v, rest);
        },
        PropertyModel::WillDelayInterval(v) => {
            codec::lemma_parse_u32_round_trip(v, rest);
        },
        PropertyModel::RequestResponseInformation(v) => {
            codec::lemma_parse_bool_round_trip(v, rest);
        },
        PropertyModel::ResponseInformation(v) => {
            codec::lemma_parse_text_round_trip(v, rest);
        },
        PropertyModel::ServerReference(v) => {
            codec::lemma_parse_text_round_trip(v, rest);
        },
        PropertyModel::ReasonString(v) => {
            codec::lemma_parse_text_round_trip(v, rest);
        },
        PropertyModel::ReceiveMaximum(v) => {
            codec::lemma_parse_u16_round_trip(v, rest);
        },
        PropertyModel::TopicAliasMaximum(v) => {
            codec::lemma_parse_u16_round_trip(v, rest);
        },
        PropertyModel::TopicAlias(v) => {
            codec::lemma_parse_u16_round_trip(v, rest);
        },
        PropertyModel::MaximumQoS(v) => {
            crate::quality_of_service::lemma_parse_qos_round_trip(v, rest);
        },
        PropertyModel::RetainAvailable(v) => {
            codec::lemma_parse_bool_round_trip(v, rest);
        },
        PropertyModel::UserProperty(k, v) => {
            assert((spec_text(k) + spec_text(v)) + rest =~= spec_text(k) + (spec_text(v) + rest));
            codec::lemma_parse_text_round_trip(k, spec_text(v) + rest);
            assert((vbytes + rest).skip(spec_text(k).len() as int) =~= spec_text(v) + rest);
            codec::lemma_parse_text_round_trip(v, rest);
        },
        PropertyModel::MaximumPacketSize(v) => {
            codec::lemma_parse_u32_round_trip(v, rest);
        },
        PropertyModel::WildcardSubscriptionAvailable(v) => {
            codec::lemma_parse_bool_round_trip(v, rest);
        },
        PropertyModel::SubscriptionIdentifierAvailable(v) => {
            codec::lemma_parse_bool_round_trip(v, rest);
        },
        PropertyModel::SharedSubscriptionAvailable(v) => {
            codec::lemma_parse_bool_round_trip(v, rest);
        },
    }
}

/// Reading the front of a region that starts with a property's wire form
/// yields that property back, consumes exactly its wire form, and records
/// its id among the seen ids when the id is not repeatable.
pub proof fn lemma_read_prop_round_trip(p: PropertyModel, seen: Set<int>, rest: Seq<u8>)
    requires
        prop_encode_ok(p),
        !prop_is_default(p),
        !prop_repeatable(prop_id(p)) ==> !seen.contains(prop_id(p)),
    ensures
        spec_read_prop(prop_bytes(p) + rest, seen) == Ok::<_, Error>(
            (
                p,
                prop_bytes(p).len() as int,
                if prop_repeatable(prop_id(p)) {
                    seen
                } else {
                    seen.insert(prop_id(p))
                },
            ),
        ),
        prop_bytes(p).len() >= 2,
{
    let id = prop_id(p);
    let vbytes = prop_value_bytes(p);
    assert((spec_vli(id) + vbytes) + rest =~= spec_vli(id) + (vbytes + rest));
    codec::lemma_parse_vli_round_trip(id, vbytes + rest);
    codec::lemma_vli_len(id);
    assert((prop_bytes(p) + rest).skip(spec_vli(id).len() as int) =~= vbytes + rest);
    lemma_parse_prop_value_round_trip(p, rest);
}

/// The wire form of a concatenation of property lists is the concatenation
/// of their wire forms.
pub proof fn lemma_props_bytes_append(s1: Seq<PropertyModel>, s2: Seq<PropertyModel>)
    ensures
        props_bytes(s1 + s2) == props_bytes(s1) + props_bytes(s2),
    decreases s1.len(),
{
    if s1.len() == 0 {
        assert(s1 + s2 =~= s2);
        assert(props_bytes(s1) + props_bytes(s2) =~= props_bytes(s2));
    } else {
        assert((s1 + s2).drop_first() =~= s1.drop_first() + s2);
        lemma_props_bytes_append(s1.drop_first(), s2);
        assert(prop_bytes((s1 + s2)[0]) + (props_bytes(s1.drop_first()) + props_bytes(s2)) =~= (
        prop_bytes(s1[0]) + props_bytes(s1.drop_first())) + props_bytes(s2));
    }
}

/// Decoding a region that is the wire form of a property list, folding each
/// property as it is read, is the pure fold of the list: what the bytes say
/// is exactly what was encoded, duplicate checks included, provided the
/// non-repeatable ids in the list are distinct and not yet seen.
pub proof fn lemma_parse_fold_round_trip<A>(
    ps: Seq<PropertyModel>,
    seen: Set<int>,
    acc: A,
    step: spec_fn(A, PropertyModel) -> Result<A, Error>,
)
    requires
        forall|i: int|
            0 <= i < ps.len() ==> prop_encode_ok(#[trigger] ps[i]) && !prop_is_default(ps[i]),
        forall|i: int|
            0 <= i < ps.len() && !prop_repeatable(prop_id(#[trigger] ps[i])) ==> !seen.contains(
                prop_id(ps[i]),
            ),
        forall|i: int, j: int|
            0 <= i < j < ps.len() && !prop_repeatable(prop_id(#[trigger] ps[i])) ==> prop_id(
                ps[i],
            ) != prop_id(#[trigger] ps[j]),
    ensures
        spec_parse_fold(props_bytes(ps), seen, acc, step) == spec_fold(ps, acc, step),
    decreases ps.len(),
{
    if ps.len() > 0 {
        let p0 = ps[0];
        let tail = ps.drop_first();
        lemma_read_prop_round_trip(p0, seen, props_bytes(tail));
        let n0 = prop_bytes(p0).len() as int;
        assert(props_bytes(ps).skip(n0) =~= props_bytes(tail));
        let seen2 = if prop_repeatable(prop_id(p0)) {
            seen
        } else {
            seen.insert(prop_id(p0))
        };
        match step(acc, p0) {
            Ok(a2) => {
                assert forall|i: int| 0 <= i < tail.len() implies prop_encode_ok(
                    #[trigger] tail[i],
                ) && !prop_is_default(tail[i]) by {
                    assert(tail[i] == ps[i + 1]);
                }
                assert forall|i: int|
                    0 <= i < tail.len() && !prop_repeatable(prop_id(#[trigger] tail[i]))
                    implies !seen2.contains(prop_id(tail[i])) by {
                    assert(tail[i] == ps[i + 1]);
                    if !prop_repeatable(prop_id(p0)) {
                        assert(prop_id(ps[0]) != prop_id(ps[i + 1]) || prop_repeatable(
                            prop_id(ps[0]),
                        ));
                    }
                }
                assert forall|i: int, j: int|
                    0 <= i < j < tail.len() && !prop_repeatable(prop_id(#[trigger] tail[i]))
                    implies prop_id(tail[i]) != prop_id(#[trigger] tail[j]) by {
                    assert(tail[i] == ps[i + 1]);
                    assert(tail[j] == ps[j + 1]);
                }
                lemma_parse_fold_round_trip(tail, seen2, a2, step);
            },
            Err(_) => {},
        }
    }
}



/// Folding a concatenation folds the first part, then the second from where
/// the first left off.
pub proof fn lemma_spec_fold_append<A>(
    s1: Seq<PropertyModel>,
    s2: Seq<PropertyModel>,
    acc: A,
    step: spec_fn(A, PropertyModel) -> Result<A, Error>,
)
    ensures
        spec_fold(s1 + s2, acc, step) == match spec_fold(s1, acc, step) {
            Ok(a) => spec_fold(s2, a, step),
            Err(e) => Err(e),
        },
    decreases s1.len(),
{
    if s1.len() == 0 {
        assert(s1 + s2 =~= s2);
    } else {
        assert((s1 + s2)[0] == s1[0]);
        assert((s1 + s2).drop_first() =~= s1.drop_first() + s2);
        match step(acc, s1[0]) {
            Ok(a2) => {
                lemma_spec_fold_append(s1.drop_first(), s2, a2, step);
            },
            Err(_) => {},
        }
    }
}


/// The wire form of a one-property list is that property's wire form.
pub proof fn lemma_props_bytes_singleton(p: PropertyModel)
    ensures
        props_bytes(seq![p]) == prop_bytes(p),
{
    assert(seq![p].drop_first() =~= Seq::<PropertyModel>::empty());
    assert(props_bytes(seq![p].drop_first()) + Seq::<u8>::empty() =~= props_bytes(
        seq![p].drop_first(),
    ));
    assert(props_bytes(seq![p]) =~= prop_bytes(p) + props_bytes(seq![p].drop_first()));
    assert(prop_bytes(p) + Seq::<u8>::empty() =~= prop_bytes(p));
}


/// The user-property models for a sequence of name and value pairs.
pub open spec fn user_prop_models(ups: Seq<(Seq<char>, Seq<char>)>) -> Seq<PropertyModel> {
    ups.map_values(|kv: (Seq<char>, Seq<char>)| PropertyModel::UserProperty(kv.0, kv.1))
}

/// Whether every pair's payloads fit their length prefixes.
pub open spec fn user_props_encodable(ups: Seq<(Seq<char>, Seq<char>)>) -> bool {
    forall|i: int|
        0 <= i < ups.len() ==> encode_utf8((#[trigger] ups[i]).0).len() <= 65535 && encode_utf8(
            ups[i].1,
        ).len() <= 65535
}

/// Write each user property in order into a properties buffer.
pub(crate) fn write_user_properties(
    ups: Vec<(String, String)>,
    Ghost(prefix): Ghost<Seq<PropertyModel>>,
    out: &mut Vec<u8>,
) -> (r: Result<usize, Error>)
    requires
        old(out)@ == props_bytes(prefix),
    ensures
        r is Ok <==> user_props_encodable(ups.deep_view()),
        match r {
            Ok(n) => {
                &&& final(out)@ == props_bytes(prefix + user_prop_models(ups.deep_view()))
                &&& final(out)@.len() == old(out)@.len() + n
            },
            Err(e) => e == Error::ProtocolError,
        },
{
    let ghost upsm = user_prop_models(ups.deep_view());
    let mut i: usize = 0;
    let mut n: usize = 0;
    proof {
        assert(prefix + upsm.take(0) =~= prefix);
    }
    while i < ups.len()
        invariant
            i <= ups.len(),
            upsm == user_prop_models(ups.deep_view()),
            out@ == props_bytes(prefix + upsm.take(i as int)),
            out@.len() == props_bytes(prefix).len() + n,
            n <= out@.len(),
            forall|j: int|
                0 <= j < i ==> encode_utf8((#[trigger] ups.deep_view()[j]).0).len() <= 65535
                    && encode_utf8(ups.deep_view()[j].1).len() <= 65535,
        decreases ups.len() - i,
    {
        let k = ups[i].0.clone();
        let v = ups[i].1.clone();
        let ghost pm = upsm[i as int];
        proof {
            assert(pm == PropertyModel::UserProperty(ups.deep_view()[i as int].0, ups.deep_view()[i as int].1));
        }
        let c = match Property::UserProperty(k, v).encode(out) {
            Ok(c) => c,
            Err(_) => {
                proof {
                    assert(!user_props_encodable(ups.deep_view()));
                }
                return Err(Error::ProtocolError);
            },
        };
        proof {
            lemma_props_bytes_append(prefix + upsm.take(i as int), seq![pm]);
            lemma_props_bytes_singleton(pm);
            assert((prefix + upsm.take(i as int)) + seq![pm] =~= prefix + upsm.take(i + 1));
        }
        // an executable length is what bounds the growing count below
        let _total: usize = out.len();
        n = n + c;
        i = i + 1;
    }
    proof {
        assert(upsm.take(ups.deep_view().len() as int) =~= upsm);
    }
    Ok(n)
}



/// Reading the front of a region that starts with a non-repeatable property
/// whose id was already seen fails as a protocol violation, whatever the
/// payload holds.
proof fn lemma_read_prop_dup(p: PropertyModel, seen: Set<int>, rest: Seq<u8>)
    requires
        prop_encode_ok(p),
        !prop_is_default(p),
        !prop_repeatable(prop_id(p)),
        seen.contains(prop_id(p)),
    ensures
        spec_read_prop(prop_bytes(p) + rest, seen) == Err::<(PropertyModel, int, Set<int>), _>(
            Error::ProtocolError,
        ),
{
    let id = prop_id(p);
    let vbytes = prop_value_bytes(p);
    assert((spec_vli(id) + vbytes) + rest =~= spec_vli(id) + (vbytes + rest));
    codec::lemma_parse_vli_round_trip(id, vbytes + rest);
    codec::lemma_vli_len(id);
}

/// A region that carries the same non-repeatable property id twice fails to
/// decode as a protocol violation, in any packet whose own property folding
/// accepts every property: the duplicate check itself is what rejects the
/// bytes.
pub proof fn lemma_duplicate_property_rejected<A>(
    ps: Seq<PropertyModel>,
    acc: A,
    step: spec_fn(A, PropertyModel) -> Result<A, Error>,
    i: int,
    j: int,
)
    requires
        forall|k: int|
            0 <= k < ps.len() ==> prop_encode_ok(#[trigger] ps[k]) && !prop_is_default(ps[k]),
        forall|a: A, p: PropertyModel| (#[trigger] step(a, p)) is Ok,
        0 <= i < j < ps.len(),
        !prop_repeatable(prop_id(ps[i])),
        prop_id(ps[i]) == prop_id(ps[j]),
    ensures
        spec_parse_fold(props_bytes(ps), Set::empty(), acc, step) == Err::<A, Error>(
            Error::ProtocolError,
        ),
{
    lemma_dup_rejected_at(ps, Set::empty(), acc, step);
}

/// The generalized duplicate rejection: the region fails when its list
/// holds a duplicated non-repeatable id, or an id already among the seen
/// ones.
proof fn lemma_dup_rejected_at<A>(
    ps: Seq<PropertyModel>,
    seen: Set<int>,
    acc: A,
    step: spec_fn(A, PropertyModel) -> Result<A, Error>,
)
    requires
        forall|k: int|
            0 <= k < ps.len() ==> prop_encode_ok(#[trigger] ps[k]) && !prop_is_default(ps[k]),
        forall|a: A, p: PropertyModel| (#[trigger] step(a, p)) is Ok,
        (exists|i: int, j: int|
            0 <= i < j < ps.len() && !prop_repeatable(prop_id(#[trigger] ps[i])) && prop_id(
                ps[i],
            ) == prop_id(#[trigger] ps[j])) || (exists|i: int|
            0 <= i < ps.len() && !prop_repeatable(prop_id(#[trigger] ps[i])) && seen.contains(
                prop_id(ps[i]),
            )),
    ensures
        spec_parse_fold(props_bytes(ps), seen, acc, step) == Err::<A, Error>(
            Error::ProtocolError,
        ),
    decreases ps.len(),
{
    let p0 = ps[0];
    let tail = ps.drop_first();
    assert forall|k: int| 0 <= k < tail.len() implies prop_encode_ok(#[trigger] tail[k])
        && !prop_is_default(tail[k]) by {
        assert(tail[k] == ps[k + 1]);
    }
    if !prop_repeatable(prop_id(p0)) && seen.contains(prop_id(p0)) {
        lemma_read_prop_dup(p0, seen, props_bytes(tail));
    } else {
        lemma_read_prop_round_trip(p0, seen, props_bytes(tail));
        let n0 = prop_bytes(p0).len() as int;
        assert(props_bytes(ps).skip(n0) =~= props_bytes(tail));
        let seen2 = if prop_repeatable(prop_id(p0)) {
            seen
        } else {
            seen.insert(prop_id(p0))
        };
        let a2 = step(acc, p0)->Ok_0;
        if exists|i: int, j: int|
            0 <= i < j < ps.len() && !prop_repeatable(prop_id(#[trigger] ps[i])) && prop_id(
                ps[i],
            ) == prop_id(#[trigger] ps[j]) {
            let (i, j) = choose|i: int, j: int|
                0 <= i < j < ps.len() && !prop_repeatable(prop_id(#[trigger] ps[i])) && prop_id(
                    ps[i],
                ) == prop_id(#[trigger] ps[j]);
            if i == 0 {
                assert(tail[j - 1] == ps[j]);
                assert(!prop_repeatable(prop_id(tail[j - 1])) && seen2.contains(
                    prop_id(tail[j - 1]),
                ));
            } else {
                assert(tail[i - 1] == ps[i]);
                assert(tail[j - 1] == ps[j]);
                assert(0 <= i - 1 < j - 1 < tail.len() && !prop_repeatable(
                    prop_id(tail[i - 1]),
                ) && prop_id(tail[i - 1]) == prop_id(tail[j - 1]));
            }
        } else {
            let i = choose|i: int|
                0 <= i < ps.len() && !prop_repeatable(prop_id(#[trigger] ps[i])) && seen.contains(
                    prop_id(ps[i]),
                );
            assert(i != 0);
            assert(tail[i - 1] == ps[i]);
            assert(!prop_repeatable(prop_id(tail[i - 1])) && seen2.contains(prop_id(tail[i - 1])));
        }
        lemma_dup_rejected_at(tail, seen2, a2, step);
    }
}

} // verus!
