use vstd::prelude::*;

verus! {

use crate::codec::{self, Reader};
use crate::error::Error;

/// The kind of control packet a byte sequence belongs to.
///
/// A reason code is only meaningful inside a packet, and which codes are
/// legal depends on the packet kind, so the kind is the context every
/// reason-code parse takes.
#[allow(non_camel_case_types)]
#[derive(Debug, Clone, Copy, PartialEq, Eq, Structural)]
pub enum ControlPacketType {
    RESERVED,
    CONNECT,
    CONNACK,
    PUBLISH,
    PUBACK,
    PUBREC,
    PUBREL,
    PUBCOMP,
    SUBSCRIBE,
    SUBACK,
    UNSUBSCRIBE,
    UNSUBACK,
    PINGREQ,
    PINGRESP,
    DISCONNECT,
    AUTH,
}

/// An enumerated outcome code with a single-byte wire form.
///
/// Which codes are legal where is the per-packet-kind table [`ReasonCode::valid_in`];
/// parsing a byte that is not a legal code for its packet kind is a protocol
/// violation.
#[derive(Debug, Clone, Copy, PartialEq, Eq, Structural)]
pub enum ReasonCode {
    /// The operation succeeded; in a subscribe acknowledgment it grants at-most-once delivery, in a disconnect it is a normal disconnection.
    Success,
    /// The subscription is accepted with at-least-once delivery.
    GrantedQoS1,
    /// The subscription is accepted with exactly-once delivery.
    GrantedQoS2,
    /// The client disconnects but wants its will message published.
    DisconnectWithWillMessage,
    /// The message was accepted but no subscription matched it.
    NoMatchingSubscribers,
    /// No subscription existed for the topic filter.
    NoSubscriptionExisted,
    /// Continue the authentication with another step.
    ContinueAuthentication,
    /// The client asks to start a new authentication (client only).
    ReAuthenticate,
    /// The operation failed and no more specific code applies.
    UnspecifiedError,
    /// A packet could not be parsed.
    MalformedPacket,
    /// A packet broke a protocol rule.
    ProtocolError,
    /// The packet is valid but the receiver will not process it.
    ImplementationSpecificError,
    /// The requested protocol version is not supported.
    UnsupportedProtocolVersion,
    /// The client identifier is not allowed by the server.
    ClientIdentifierNotValid,
    /// The user name or password is not accepted.
    BadUserNameOrPassword,
    /// The requester is not authorized for the operation.
    NotAuthorized,
    /// The server is not available.
    ServerUnavailable,
    /// The server is busy; try again later.
    ServerBusy,
    /// The client has been banned by an administrator.
    Banned,
    /// The server is shutting down.
    ServerShuttingDown,
    /// The authentication method is not supported or does not match.
    BadAuthenticationMethod,
    /// No packet arrived within one and a half keep-alive periods.
    KeepAliveTimeout,
    /// Another connection took over the session.
    SessionTakenOver,
    /// The topic filter is well formed but not accepted.
    TopicFilterInvalid,
    /// The topic name is well formed but not accepted.
    TopicNameInvalid,
    /// The packet identifier is already in use.
    PacketIdentifierInUse,
    /// The packet identifier is not known.
    PacketIdentifierNotFound,
    /// More unacknowledged publishes arrived than receive-maximum allows.
    ReceiveMaximumExceeded,
    /// A topic alias is zero or above the declared maximum.
    TopicAliasInvalid,
    /// A packet exceeded the declared maximum packet size.
    PacketTooLarge,
    /// The message rate is too high.
    MessageRateTooHigh,
    /// An imposed quota has been exceeded.
    QuotaExceeded,
    /// The connection is closed by an administrative action.
    AdministrativeAction,
    /// The payload does not match its declared format indicator.
    PayloadFormatInvalid,
    /// The server does not support retained messages.
    RetainNotSupported,
    /// The requested quality of service is above the supported maximum.
    QoSNotSupported,
    /// The client should temporarily use another server.
    UseAnotherServer,
    /// The client should permanently use another server.
    ServerMoved,
    /// The server does not support shared subscriptions.
    SharedSubscriptionsNotSupported,
    /// The connection rate limit has been exceeded.
    ConnectionRateExceeded,
    /// The maximum connection time authorized for this connection has elapsed.
    MaximumConnectTime,
    /// The server does not support subscription identifiers.
    SubscriptionIdentifiersNotSupported,
    /// The server does not support wildcard subscriptions.
    WildcardSubscriptionsNotSupported,
}

impl DeepView for ReasonCode {
    type V = ReasonCode;

    open spec fn deep_view(&self) -> ReasonCode {
        *self
    }
}

impl ReasonCode {
    /// The single-byte wire form of the code.
    pub open spec fn code(self) -> u8 {
        match self {
            ReasonCode::Success => 0x00,
            ReasonCode::GrantedQoS1 => 0x01,
            ReasonCode::GrantedQoS2 => 0x02,
            ReasonCode::DisconnectWithWillMessage => 0x04,
            ReasonCode::NoMatchingSubscribers => 0x10,
            ReasonCode::NoSubscriptionExisted => 0x11,
            ReasonCode::ContinueAuthentication => 0x18,
            ReasonCode::ReAuthenticate => 0x19,
            ReasonCode::UnspecifiedError => 0x80,
            ReasonCode::MalformedPacket => 0x81,
            ReasonCode::ProtocolError => 0x82,
            ReasonCode::ImplementationSpecificError => 0x83,
            ReasonCode::UnsupportedProtocolVersion => 0x84,
            ReasonCode::ClientIdentifierNotValid => 0x85,
            ReasonCode::BadUserNameOrPassword => 0x86,
            ReasonCode::NotAuthorized => 0x87,
            ReasonCode::ServerUnavailable => 0x88,
            ReasonCode::ServerBusy => 0x89,
            ReasonCode::Banned => 0x8A,
            ReasonCode::ServerShuttingDown => 0x8B,
            ReasonCode::BadAuthenticationMethod => 0x8C,
            ReasonCode::KeepAliveTimeout => 0x8D,
            ReasonCode::SessionTakenOver => 0x8E,
            ReasonCode::TopicFilterInvalid => 0x8F,
            ReasonCode::TopicNameInvalid => 0x90,
            ReasonCode::PacketIdentifierInUse => 0x91,
            ReasonCode::PacketIdentifierNotFound => 0x92,
            ReasonCode::ReceiveMaximumExceeded => 0x93,
            ReasonCode::TopicAliasInvalid => 0x94,
            ReasonCode::PacketTooLarge => 0x95,
            ReasonCode::MessageRateTooHigh => 0x96,
            ReasonCode::QuotaExceeded => 0x97,
            ReasonCode::AdministrativeAction => 0x98,
            ReasonCode::PayloadFormatInvalid => 0x99,
            ReasonCode::RetainNotSupported => 0x9A,
            ReasonCode::QoSNotSupported => 0x9B,
            ReasonCode::UseAnotherServer => 0x9C,
            ReasonCode::ServerMoved => 0x9D,
            ReasonCode::SharedSubscriptionsNotSupported => 0x9E,
            ReasonCode::ConnectionRateExceeded => 0x9F,
            ReasonCode::MaximumConnectTime => 0xA0,
            ReasonCode::SubscriptionIdentifiersNotSupported => 0xA1,
            ReasonCode::WildcardSubscriptionsNotSupported => 0xA2,
        }
    }

    /// The per-packet-kind legality table: whether this code may appear in a
    /// packet of the given kind.
    pub open spec fn valid_in(self, t: ControlPacketType) -> bool {
        match self {
            ReasonCode::Success => t == ControlPacketType::CONNACK || t == ControlPacketType::PUBACK || t == ControlPacketType::PUBREC || t == ControlPacketType::PUBREL || t == ControlPacketType::PUBCOMP || t == ControlPacketType::SUBACK || t == ControlPacketType::UNSUBACK || t == ControlPacketType::AUTH || t == ControlPacketType::DISCONNECT,
            ReasonCode::GrantedQoS1 => t == ControlPacketType::SUBACK,
            ReasonCode::GrantedQoS2 => t == ControlPacketType::SUBACK,
            ReasonCode::DisconnectWithWillMessage => t == ControlPacketType::DISCONNECT,
            ReasonCode::NoMatchingSubscribers => t == ControlPacketType::PUBACK || t == ControlPacketType::PUBREC,
            ReasonCode::NoSubscriptionExisted => t == ControlPacketType::UNSUBACK,
            ReasonCode::ContinueAuthentication => t == ControlPacketType::AUTH,
            ReasonCode::ReAuthenticate => t == ControlPacketType::AUTH,
            ReasonCode::UnspecifiedError => t == ControlPacketType::CONNACK || t == ControlPacketType::PUBACK || t == ControlPacketType::PUBREC || t == ControlPacketType::SUBACK || t == ControlPacketType::UNSUBACK || t == ControlPacketType::DISCONNECT,
            ReasonCode::MalformedPacket => t == ControlPacketType::CONNACK || t == ControlPacketType::DISCONNECT,
            ReasonCode::ProtocolError => t == ControlPacketType::CONNACK || t == ControlPacketType::DISCONNECT,
            ReasonCode::ImplementationSpecificError => t == ControlPacketType::CONNACK || t == ControlPacketType::PUBACK || t == ControlPacketType::PUBREC || t == ControlPacketType::SUBACK || t == ControlPacketType::UNSUBACK || t == ControlPacketType::DISCONNECT,
            ReasonCode::UnsupportedProtocolVersion => t == ControlPacketType::CONNACK,
            ReasonCode::ClientIdentifierNotValid => t == ControlPacketType::CONNACK,
            ReasonCode::BadUserNameOrPassword => t == ControlPacketType::CONNACK,
            ReasonCode::NotAuthorized => t == ControlPacketType::CONNACK || t == ControlPacketType::PUBACK || t == ControlPacketType::PUBREC || t == ControlPacketType::SUBACK || t == ControlPacketType::UNSUBACK || t == ControlPacketType::DISCONNECT,
            ReasonCode::ServerUnavailable => t == ControlPacketType::CONNACK,
            ReasonCode::ServerBusy => t == ControlPacketType::CONNACK || t == ControlPacketType::DISCONNECT,
            ReasonCode::Banned => t == ControlPacketType::CONNACK,
            ReasonCode::ServerShuttingDown => t == ControlPacketType::DISCONNECT,
            ReasonCode::BadAuthenticationMethod => t == ControlPacketType::CONNACK || t == ControlPacketType::DISCONNECT,
            ReasonCode::KeepAliveTimeout => t == ControlPacketType::DISCONNECT,
            ReasonCode::SessionTakenOver => t == ControlPacketType::DISCONNECT,
            ReasonCode::TopicFilterInvalid => t == ControlPacketType::SUBACK || t == ControlPacketType::UNSUBACK || t == ControlPacketType::DISCONNECT,
            ReasonCode::TopicNameInvalid => t == ControlPacketType::CONNACK || t == ControlPacketType::PUBACK || t == ControlPacketType::PUBREC || t == ControlPacketType::DISCONNECT,
            ReasonCode::PacketIdentifierInUse => t == ControlPacketType::PUBACK || t == ControlPacketType::PUBREC || t == ControlPacketType::SUBACK || t == ControlPacketType::UNSUBACK,
            ReasonCode::PacketIdentifierNotFound => t == ControlPacketType::PUBREL || t == ControlPacketType::PUBCOMP,
            ReasonCode::ReceiveMaximumExceeded => t == ControlPacketType::DISCONNECT,
            ReasonCode::TopicAliasInvalid => t == ControlPacketType::DISCONNECT,
            ReasonCode::PacketTooLarge => t == ControlPacketType::CONNACK || t == ControlPacketType::DISCONNECT,
            ReasonCode::MessageRateTooHigh => t == ControlPacketType::DISCONNECT,
            ReasonCode::QuotaExceeded => t == ControlPacketType::CONNACK || t == ControlPacketType::PUBACK || t == ControlPacketType::PUBREC || t == ControlPacketType::SUBACK || t == ControlPacketType::DISCONNECT,
            ReasonCode::AdministrativeAction => t == ControlPacketType::DISCONNECT,
            ReasonCode::PayloadFormatInvalid => t == ControlPacketType::CONNACK || t == ControlPacketType::PUBACK || t == ControlPacketType::PUBREC || t == ControlPacketType::DISCONNECT,
            ReasonCode::RetainNotSupported => t == ControlPacketType::CONNACK || t == ControlPacketType::DISCONNECT,
            ReasonCode::QoSNotSupported => t == ControlPacketType::CONNACK || t == ControlPacketType::DISCONNECT,
            ReasonCode::UseAnotherServer => t == ControlPacketType::CONNACK || t == ControlPacketType::DISCONNECT,
            ReasonCode::ServerMoved => t == ControlPacketType::CONNACK || t == ControlPacketType::DISCONNECT,
            ReasonCode::SharedSubscriptionsNotSupported => t == ControlPacketType::SUBACK || t == ControlPacketType::DISCONNECT,
            ReasonCode::ConnectionRateExceeded => t == ControlPacketType::CONNACK || t == ControlPacketType::DISCONNECT,
            ReasonCode::MaximumConnectTime => t == ControlPacketType::DISCONNECT,
            ReasonCode::SubscriptionIdentifiersNotSupported => t == ControlPacketType::SUBACK || t == ControlPacketType::DISCONNECT,
            ReasonCode::WildcardSubscriptionsNotSupported => t == ControlPacketType::SUBACK || t == ControlPacketType::DISCONNECT,
        }
    }

    /// Whether this code may appear in a packet of the given kind.
    pub fn valid_for(self, t: ControlPacketType) -> (b: bool)
        ensures
            b == self.valid_in(t),
    {
        match self {
            ReasonCode::Success => t == ControlPacketType::CONNACK || t == ControlPacketType::PUBACK || t == ControlPacketType::PUBREC || t == ControlPacketType::PUBREL || t == ControlPacketType::PUBCOMP || t == ControlPacketType::SUBACK || t == ControlPacketType::UNSUBACK || t == ControlPacketType::AUTH || t == ControlPacketType::DISCONNECT,
            ReasonCode::GrantedQoS1 => t == ControlPacketType::SUBACK,
            ReasonCode::GrantedQoS2 => t == ControlPacketType::SUBACK,
            ReasonCode::DisconnectWithWillMessage => t == ControlPacketType::DISCONNECT,
            ReasonCode::NoMatchingSubscribers => t == ControlPacketType::PUBACK || t == ControlPacketType::PUBREC,
            ReasonCode::NoSubscriptionExisted => t == ControlPacketType::UNSUBACK,
            ReasonCode::ContinueAuthentication => t == ControlPacketType::AUTH,
            ReasonCode::ReAuthenticate => t == ControlPacketType::AUTH,
            ReasonCode::UnspecifiedError => t == ControlPacketType::CONNACK || t == ControlPacketType::PUBACK || t == ControlPacketType::PUBREC || t == ControlPacketType::SUBACK || t == ControlPacketType::UNSUBACK || t == ControlPacketType::DISCONNECT,
            ReasonCode::MalformedPacket => t == ControlPacketType::CONNACK || t == ControlPacketType::DISCONNECT,
            ReasonCode::ProtocolError => t == ControlPacketType::CONNACK || t == ControlPacketType::DISCONNECT,
            ReasonCode::ImplementationSpecificError => t == ControlPacketType::CONNACK || t == ControlPacketType::PUBACK || t == ControlPacketType::PUBREC || t == ControlPacketType::SUBACK || t == ControlPacketType::UNSUBACK || t == ControlPacketType::DISCONNECT,
            ReasonCode::UnsupportedProtocolVersion => t == ControlPacketType::CONNACK,
            ReasonCode::ClientIdentifierNotValid => t == ControlPacketType::CONNACK,
            ReasonCode::BadUserNameOrPassword => t == ControlPacketType::CONNACK,
            ReasonCode::NotAuthorized => t == ControlPacketType::CONNACK || t == ControlPacketType::PUBACK || t == ControlPacketType::PUBREC || t == ControlPacketType::SUBACK || t == ControlPacketType::UNSUBACK || t == ControlPacketType::DISCONNECT,
            ReasonCode::ServerUnavailable => t == ControlPacketType::CONNACK,
            ReasonCode::ServerBusy => t == ControlPacketType::CONNACK || t == ControlPacketType::DISCONNECT,
            ReasonCode::Banned => t == ControlPacketType::CONNACK,
            ReasonCode::ServerShuttingDown => t == ControlPacketType::DISCONNECT,
            ReasonCode::BadAuthenticationMethod => t == ControlPacketType::CONNACK || t == ControlPacketType::DISCONNECT,
            ReasonCode::KeepAliveTimeout => t == ControlPacketType::DISCONNECT,
            ReasonCode::SessionTakenOver => t == ControlPacketType::DISCONNECT,
            ReasonCode::TopicFilterInvalid => t == ControlPacketType::SUBACK || t == ControlPacketType::UNSUBACK || t == ControlPacketType::DISCONNECT,
            ReasonCode::TopicNameInvalid => t == ControlPacketType::CONNACK || t == ControlPacketType::PUBACK || t == ControlPacketType::PUBREC || t == ControlPacketType::DISCONNECT,
            ReasonCode::PacketIdentifierInUse => t == ControlPacketType::PUBACK || t == ControlPacketType::PUBREC || t == ControlPacketType::SUBACK || t == ControlPacketType::UNSUBACK,
            ReasonCode::PacketIdentifierNotFound => t == ControlPacketType::PUBREL || t == ControlPacketType::PUBCOMP,
            ReasonCode::ReceiveMaximumExceeded => t == ControlPacketType::DISCONNECT,
            ReasonCode::TopicAliasInvalid => t == ControlPacketType::DISCONNECT,
            ReasonCode::PacketTooLarge => t == ControlPacketType::CONNACK || t == ControlPacketType::DISCONNECT,
            ReasonCode::MessageRateTooHigh => t == ControlPacketType::DISCONNECT,
            ReasonCode::QuotaExceeded => t == ControlPacketType::CONNACK || t == ControlPacketType::PUBACK || t == ControlPacketType::PUBREC || t == ControlPacketType::SUBACK || t == ControlPacketType::DISCONNECT,
            ReasonCode::AdministrativeAction => t == ControlPacketType::DISCONNECT,
            ReasonCode::PayloadFormatInvalid => t == ControlPacketType::CONNACK || t == ControlPacketType::PUBACK || t == ControlPacketType::PUBREC || t == ControlPacketType::DISCONNECT,
            ReasonCode::RetainNotSupported => t == ControlPacketType::CONNACK || t == ControlPacketType::DISCONNECT,
            ReasonCode::QoSNotSupported => t == ControlPacketType::CONNACK || t == ControlPacketType::DISCONNECT,
            ReasonCode::UseAnotherServer => t == ControlPacketType::CONNACK || t == ControlPacketType::DISCONNECT,
            ReasonCode::ServerMoved => t == ControlPacketType::CONNACK || t == ControlPacketType::DISCONNECT,
            ReasonCode::SharedSubscriptionsNotSupported => t == ControlPacketType::SUBACK || t == ControlPacketType::DISCONNECT,
            ReasonCode::ConnectionRateExceeded => t == ControlPacketType::CONNACK || t == ControlPacketType::DISCONNECT,
            ReasonCode::MaximumConnectTime => t == ControlPacketType::DISCONNECT,
            ReasonCode::SubscriptionIdentifiersNotSupported => t == ControlPacketType::SUBACK || t == ControlPacketType::DISCONNECT,
            ReasonCode::WildcardSubscriptionsNotSupported => t == ControlPacketType::SUBACK || t == ControlPacketType::DISCONNECT,
        }
    }

    /// The validated code for a raw byte in the context of the given packet
    /// kind, or a protocol violation if the byte is not a legal code there.
    pub fn try_parse(code: u8, t: ControlPacketType) -> (r: Result<ReasonCode, Error>)
        ensures
            r == spec_try_parse(code, t),
    {
        let rc = match code {
            0x00 => ReasonCode::Success,
            0x01 => ReasonCode::GrantedQoS1,
            0x02 => ReasonCode::GrantedQoS2,
            0x04 => ReasonCode::DisconnectWithWillMessage,
            0x10 => ReasonCode::NoMatchingSubscribers,
            0x11 => ReasonCode::NoSubscriptionExisted,
            0x18 => ReasonCode::ContinueAuthentication,
            0x19 => ReasonCode::ReAuthenticate,
            0x80 => ReasonCode::UnspecifiedError,
            0x81 => ReasonCode::MalformedPacket,
            0x82 => ReasonCode::ProtocolError,
            0x83 => ReasonCode::ImplementationSpecificError,
            0x84 => ReasonCode::UnsupportedProtocolVersion,
            0x85 => ReasonCode::ClientIdentifierNotValid,
            0x86 => ReasonCode::BadUserNameOrPassword,
            0x87 => ReasonCode::NotAuthorized,
            0x88 => ReasonCode::ServerUnavailable,
            0x89 => ReasonCode::ServerBusy,
            0x8A => ReasonCode::Banned,
            0x8B => ReasonCode::ServerShuttingDown,
            0x8C => ReasonCode::BadAuthenticationMethod,
            0x8D => ReasonCode::KeepAliveTimeout,
            0x8E => ReasonCode::SessionTakenOver,
            0x8F => ReasonCode::TopicFilterInvalid,
            0x90 => ReasonCode::TopicNameInvalid,
            0x91 => ReasonCode::PacketIdentifierInUse,
            0x92 => ReasonCode::PacketIdentifierNotFound,
            0x93 => ReasonCode::ReceiveMaximumExceeded,
            0x94 => ReasonCode::TopicAliasInvalid,
            0x95 => ReasonCode::PacketTooLarge,
            0x96 => ReasonCode::MessageRateTooHigh,
            0x97 => ReasonCode::QuotaExceeded,
            0x98 => ReasonCode::AdministrativeAction,
            0x99 => ReasonCode::PayloadFormatInvalid,
            0x9A => ReasonCode::RetainNotSupported,
            0x9B => ReasonCode::QoSNotSupported,
            0x9C => ReasonCode::UseAnotherServer,
            0x9D => ReasonCode::ServerMoved,
            0x9E => ReasonCode::SharedSubscriptionsNotSupported,
            0x9F => ReasonCode::ConnectionRateExceeded,
            0xA0 => ReasonCode::MaximumConnectTime,
            0xA1 => ReasonCode::SubscriptionIdentifiersNotSupported,
            0xA2 => ReasonCode::WildcardSubscriptionsNotSupported,
            _ => {
                return Err(Error::ProtocolError);
            },
        };
        if rc.valid_for(t) {
            Ok(rc)
        } else {
            Err(Error::ProtocolError)
        }
    }

    /// Write the code into `out` as one byte. Returns `1`.
    pub fn write_byte(self, out: &mut Vec<u8>) -> (n: usize)
        ensures
            final(out)@ == old(out)@.push(self.code()),
            n == 1,
    {
        let b: u8 = match self {
            ReasonCode::Success => 0x00,
            ReasonCode::GrantedQoS1 => 0x01,
            ReasonCode::GrantedQoS2 => 0x02,
            ReasonCode::DisconnectWithWillMessage => 0x04,
            ReasonCode::NoMatchingSubscribers => 0x10,
            ReasonCode::NoSubscriptionExisted => 0x11,
            ReasonCode::ContinueAuthentication => 0x18,
            ReasonCode::ReAuthenticate => 0x19,
            ReasonCode::UnspecifiedError => 0x80,
            ReasonCode::MalformedPacket => 0x81,
            ReasonCode::ProtocolError => 0x82,
            ReasonCode::ImplementationSpecificError => 0x83,
            ReasonCode::UnsupportedProtocolVersion => 0x84,
            ReasonCode::ClientIdentifierNotValid => 0x85,
            ReasonCode::BadUserNameOrPassword => 0x86,
            ReasonCode::NotAuthorized => 0x87,
            ReasonCode::ServerUnavailable => 0x88,
            ReasonCode::ServerBusy => 0x89,
            ReasonCode::Banned => 0x8A,
            ReasonCode::ServerShuttingDown => 0x8B,
            ReasonCode::BadAuthenticationMethod => 0x8C,
            ReasonCode::KeepAliveTimeout => 0x8D,
            ReasonCode::SessionTakenOver => 0x8E,
            ReasonCode::TopicFilterInvalid => 0x8F,
            ReasonCode::TopicNameInvalid => 0x90,
            ReasonCode::PacketIdentifierInUse => 0x91,
            ReasonCode::PacketIdentifierNotFound => 0x92,
            ReasonCode::ReceiveMaximumExceeded => 0x93,
            ReasonCode::TopicAliasInvalid => 0x94,
            ReasonCode::PacketTooLarge => 0x95,
            ReasonCode::MessageRateTooHigh => 0x96,
            ReasonCode::QuotaExceeded => 0x97,
            ReasonCode::AdministrativeAction => 0x98,
            ReasonCode::PayloadFormatInvalid => 0x99,
            ReasonCode::RetainNotSupported => 0x9A,
            ReasonCode::QoSNotSupported => 0x9B,
            ReasonCode::UseAnotherServer => 0x9C,
            ReasonCode::ServerMoved => 0x9D,
            ReasonCode::SharedSubscriptionsNotSupported => 0x9E,
            ReasonCode::ConnectionRateExceeded => 0x9F,
            ReasonCode::MaximumConnectTime => 0xA0,
            ReasonCode::SubscriptionIdentifiersNotSupported => 0xA1,
            ReasonCode::WildcardSubscriptionsNotSupported => 0xA2,
        };
        out.push(b);
        1
    }
}

/// The code a raw byte stands for, before any per-packet legality check.
pub open spec fn spec_reason_code(code: u8) -> Option<ReasonCode> {
    match code {
        0x00 => Some(ReasonCode::Success),
        0x01 => Some(ReasonCode::GrantedQoS1),
        0x02 => Some(ReasonCode::GrantedQoS2),
        0x04 => Some(ReasonCode::DisconnectWithWillMessage),
        0x10 => Some(ReasonCode::NoMatchingSubscribers),
        0x11 => Some(ReasonCode::NoSubscriptionExisted),
        0x18 => Some(ReasonCode::ContinueAuthentication),
        0x19 => Some(ReasonCode::ReAuthenticate),
        0x80 => Some(ReasonCode::UnspecifiedError),
        0x81 => Some(ReasonCode::MalformedPacket),
        0x82 => Some(ReasonCode::ProtocolError),
        0x83 => Some(ReasonCode::ImplementationSpecificError),
        0x84 => Some(ReasonCode::UnsupportedProtocolVersion),
        0x85 => Some(ReasonCode::ClientIdentifierNotValid),
        0x86 => Some(ReasonCode::BadUserNameOrPassword),
        0x87 => Some(ReasonCode::NotAuthorized),
        0x88 => Some(ReasonCode::ServerUnavailable),
        0x89 => Some(ReasonCode::ServerBusy),
        0x8A => Some(ReasonCode::Banned),
        0x8B => Some(ReasonCode::ServerShuttingDown),
        0x8C => Some(ReasonCode::BadAuthenticationMethod),
        0x8D => Some(ReasonCode::KeepAliveTimeout),
        0x8E => Some(ReasonCode::SessionTakenOver),
        0x8F => Some(ReasonCode::TopicFilterInvalid),
        0x90 => Some(ReasonCode::TopicNameInvalid),
        0x91 => Some(ReasonCode::PacketIdentifierInUse),
        0x92 => Some(ReasonCode::PacketIdentifierNotFound),
        0x93 => Some(ReasonCode::ReceiveMaximumExceeded),
        0x94 => Some(ReasonCode::TopicAliasInvalid),
        0x95 => Some(ReasonCode::PacketTooLarge),
        0x96 => Some(ReasonCode::MessageRateTooHigh),
        0x97 => Some(ReasonCode::QuotaExceeded),
        0x98 => Some(ReasonCode::AdministrativeAction),
        0x99 => Some(ReasonCode::PayloadFormatInvalid),
        0x9A => Some(ReasonCode::RetainNotSupported),
        0x9B => Some(ReasonCode::QoSNotSupported),
        0x9C => Some(ReasonCode::UseAnotherServer),
        0x9D => Some(ReasonCode::ServerMoved),
        0x9E => Some(ReasonCode::SharedSubscriptionsNotSupported),
        0x9F => Some(ReasonCode::ConnectionRateExceeded),
        0xA0 => Some(ReasonCode::MaximumConnectTime),
        0xA1 => Some(ReasonCode::SubscriptionIdentifiersNotSupported),
        0xA2 => Some(ReasonCode::WildcardSubscriptionsNotSupported),
        _ => None,
    }
}

/// What validating a raw byte in the context of the given packet kind
/// yields.
pub open spec fn spec_try_parse(code: u8, t: ControlPacketType) -> Result<ReasonCode, Error> {
    match spec_reason_code(code) {
        Some(rc) => if rc.valid_in(t) {
            Ok(rc)
        } else {
            Err(Error::ProtocolError)
        },
        None => Err(Error::ProtocolError),
    }
}

/// What decoding a reason-code byte in the context of the given packet kind
/// yields.
pub open spec fn spec_parse_reason_code(bytes: Seq<u8>, t: ControlPacketType) -> Result<
    (ReasonCode, int),
    Error,
> {
    if bytes.len() < 1 {
        Err(Error::UnexpectedEndOfStream)
    } else {
        match spec_try_parse(bytes[0], t) {
            Ok(rc) => Ok((rc, 1)),
            Err(e) => Err(e),
        }
    }
}

/// Read a reason-code byte from `reader` and validate it for the given
/// packet kind.
pub fn read_reason_code(reader: &mut Reader, t: ControlPacketType) -> (r: Result<ReasonCode, Error>)
    requires
        old(reader).wf(),
    ensures
        match r {
            Ok(rc) => {
                &&& spec_parse_reason_code(old(reader).remaining(), t) == Ok::<_, Error>((rc, 1int))
                &&& codec::consumed(*old(reader), *final(reader), 1)
            },
            Err(e) => {
                &&& spec_parse_reason_code(old(reader).remaining(), t) == Err::<(ReasonCode, int), _>(e)
                &&& codec::failed(*old(reader), *final(reader))
            },
        },
{
    let b = codec::read_byte(reader)?;
    ReasonCode::try_parse(b, t)
}

/// The wire form of a code is the one byte the legality table pairs it with,
/// and decoding it in a packet kind where the code is legal, with any suffix
/// behind it, yields the code back.
pub proof fn lemma_parse_reason_code_round_trip(rc: ReasonCode, t: ControlPacketType, rest: Seq<u8>)
    requires
        rc.valid_in(t),
    ensures
        spec_parse_reason_code(seq![rc.code()] + rest, t) == Ok::<_, Error>((rc, 1int)),
{
    let b = seq![rc.code()] + rest;
    assert(b[0] == rc.code());
    assert(spec_reason_code(rc.code()) == Some(rc));
}

} // verus!
