use vstd::prelude::*;

verus! {

use crate::codec::{self, spec_vli, Reader, VARIABLE_BYTE_INTEGER_MAX};
use crate::error::Error;
use crate::property::{
    lemma_parse_fold_round_trip, lemma_props_bytes_append, lemma_props_bytes_singleton,
    lemma_spec_fold_append, props_bytes, spec_fold, spec_parse_fold, spec_take_region,
    user_prop_models, user_props_encodable, write_user_properties, PropertiesDecoder, Property,
    PropertyModel,
};
use crate::reason_code::{
    lemma_parse_reason_code_round_trip, spec_parse_reason_code, ControlPacketType, ReasonCode,
};
use vstd::utf8::encode_utf8;

/// The authentication method and, optionally, data of an enhanced
/// authentication exchange. The codec carries both opaquely.
#[derive(Debug, PartialEq, Clone)]
pub struct Authentication {
    /// The name of the authentication method.
    pub method: String,
    /// Authentication data; empty means none, and empty data is elided from
    /// the wire.
    pub data: Vec<u8>,
}

/// The mathematical value of an [`Authentication`].
pub ghost struct AuthenticationModel {
    pub method: Seq<char>,
    pub data: Seq<u8>,
}

impl View for Authentication {
    type V = AuthenticationModel;

    open spec fn view(&self) -> AuthenticationModel {
        AuthenticationModel { method: self.method@, data: self.data@ }
    }
}

impl AuthenticationModel {
    /// The properties an authentication value contributes to its packet's
    /// region: the method always, the data only when not empty.
    pub open spec fn props(self) -> Seq<PropertyModel> {
        seq![PropertyModel::AuthenticationMethod(self.method)] + if self.data.len() > 0 {
            seq![PropertyModel::AuthenticationData(self.data)]
        } else {
            Seq::empty()
        }
    }

    /// Whether both payloads fit their length prefixes.
    pub open spec fn encodable(self) -> bool {
        encode_utf8(self.method).len() <= 65535 && self.data.len() <= 65535
    }
}

impl Default for Authentication {
    /// An empty method name and no data.
    fn default() -> (d: Authentication)
        ensures
            d@.method == Seq::<char>::empty(),
            d@.data == Seq::<u8>::empty(),
    {
        Authentication { method: String::new(), data: Vec::new() }
    }
}

impl Authentication {
    /// Write the authentication properties into a properties buffer and
    /// return the byte count.
    pub fn encode(self, out: &mut Vec<u8>) -> (r: Result<usize, Error>)
        ensures
            r is Ok <==> self@.encodable(),
            match r {
                Ok(n) => {
                    &&& final(out)@ == old(out)@ + props_bytes(self@.props())
                    &&& n == props_bytes(self@.props()).len()
                },
                Err(e) => e == Error::ProtocolError,
            },
    {
        let ghost m = self@;
        let ghost out0 = old(out)@;
        let has_data = self.data.len() > 0;
        let n1 = Property::AuthenticationMethod(self.method).encode(out)?;
        proof {
            assert(m.props()[0] == PropertyModel::AuthenticationMethod(m.method));
        }
        if has_data {
            let n2 = Property::AuthenticationData(self.data).encode(out)?;
            proof {
                let mm = seq![PropertyModel::AuthenticationMethod(m.method)];
                let dd = seq![PropertyModel::AuthenticationData(m.data)];
                lemma_props_bytes_append(mm, dd);
                lemma_props_bytes_singleton(mm[0]);
                lemma_props_bytes_singleton(dd[0]);
                assert(out@ =~= out0 + props_bytes(m.props()));
            }
            Ok(n1 + n2)
        } else {
            proof {
                let mm = seq![PropertyModel::AuthenticationMethod(m.method)];
                assert(m.props() =~= mm);
                lemma_props_bytes_singleton(mm[0]);
                assert(out@ =~= out0 + props_bytes(m.props()));
            }
            Ok(n1)
        }
    }
}

/// An authentication-exchange packet body. Client and server exchange these
/// packets while an enhanced authentication is in progress.
#[derive(Debug, PartialEq, Clone)]
pub struct Auth {
    /// The outcome or continuation the packet announces. The codes legal
    /// here are success, continue-authentication and re-authenticate.
    pub reason_code: ReasonCode,
    /// The authentication method, which every exchange packet must carry,
    /// and its data.
    pub authentication: Authentication,
    /// An optional human-readable elaboration.
    pub reason_string: Option<String>,
    /// Free-form name and value pairs, kept in order.
    pub user_properties: Vec<(String, String)>,
}

/// The mathematical value of an [`Auth`] packet.
pub ghost struct AuthModel {
    pub reason_code: ReasonCode,
    pub authentication: AuthenticationModel,
    pub reason_string: Option<Seq<char>>,
    pub user_properties: Seq<(Seq<char>, Seq<char>)>,
}

impl View for Auth {
    type V = AuthModel;

    open spec fn view(&self) -> AuthModel {
        AuthModel {
            reason_code: self.reason_code,
            authentication: self.authentication@,
            reason_string: self.reason_string.deep_view(),
            user_properties: self.user_properties.deep_view(),
        }
    }
}

impl AuthModel {
    /// The properties of the packet's region, in encoding order: the
    /// authentication method and data, the reason string if present, then
    /// the user properties.
    pub open spec fn props(self) -> Seq<PropertyModel> {
        self.authentication.props() + (match self.reason_string {
            Some(s) => seq![PropertyModel::ReasonString(s)],
            None => Seq::empty(),
        }) + user_prop_models(self.user_properties)
    }

    /// The bytes of the packet's properties region.
    pub open spec fn region(self) -> Seq<u8> {
        props_bytes(self.props())
    }

    /// Whether the packet can be represented on the wire: every payload
    /// fits its length prefix and the region length fits its
    /// variable-length-integer prefix.
    pub open spec fn encodable(self) -> bool {
        &&& self.authentication.encodable()
        &&& match self.reason_string {
            Some(s) => encode_utf8(s).len() <= 65535,
            None => true,
        }
        &&& user_props_encodable(self.user_properties)
        &&& self.region().len() <= VARIABLE_BYTE_INTEGER_MAX
    }

    /// A packet that can be represented and whose reason code is legal in
    /// an authentication exchange.
    pub open spec fn wf(self) -> bool {
        self.encodable() && self.reason_code.valid_in(ControlPacketType::AUTH)
    }

    /// The packet body's full wire form: the reason code, the region's
    /// length, the region.
    pub open spec fn spec_bytes(self) -> Seq<u8> {
        seq![self.reason_code.code()] + spec_vli(self.region().len() as int) + self.region()
    }
}

/// The state an authentication-exchange decode accumulates while reading
/// its properties region.
pub ghost struct AuthAcc {
    pub method: Option<Seq<char>>,
    pub data: Seq<u8>,
    pub reason_string: Option<Seq<char>>,
    pub user_properties: Seq<(Seq<char>, Seq<char>)>,
}

/// The state before any property has been read: no method, empty data, no
/// reason string, no user properties.
pub open spec fn auth_init() -> AuthAcc {
    AuthAcc {
        method: None,
        data: Seq::empty(),
        reason_string: None,
        user_properties: Seq::empty(),
    }
}

/// How an authentication exchange folds one decoded property into its
/// state; any property kind outside its allowed set is a protocol
/// violation.
pub open spec fn auth_step() -> spec_fn(AuthAcc, PropertyModel) -> Result<AuthAcc, Error> {
    |acc: AuthAcc, p: PropertyModel|
        match p {
            PropertyModel::ReasonString(v) => Ok(AuthAcc { reason_string: Some(v), ..acc }),
            PropertyModel::UserProperty(k, v) => Ok(
                AuthAcc { user_properties: acc.user_properties.push((k, v)), ..acc },
            ),
            PropertyModel::AuthenticationMethod(v) => Ok(AuthAcc { method: Some(v), ..acc }),
            PropertyModel::AuthenticationData(v) => Ok(AuthAcc { data: v, ..acc }),
            _ => Err(Error::ProtocolError),
        }
}

/// What decoding an authentication-exchange packet body yields: a reason
/// code legal for the exchange, then a properties region whose properties
/// are folded by [`auth_step`]; a region without an authentication method
/// is a protocol violation. The result carries the model and the bytes
/// consumed.
pub open spec fn spec_parse_auth(bytes: Seq<u8>) -> Result<(AuthModel, int), Error> {
    match spec_parse_reason_code(bytes, ControlPacketType::AUTH) {
        Ok(rc) => match spec_take_region(bytes.skip(1)) {
            Ok(t) => match spec_parse_fold(t.0, Set::empty(), auth_init(), auth_step()) {
                Ok(acc) => match acc.method {
                    Some(m) => Ok(
                        (
                            AuthModel {
                                reason_code: rc.0,
                                authentication: AuthenticationModel { method: m, data: acc.data },
                                reason_string: acc.reason_string,
                                user_properties: acc.user_properties,
                            },
                            1 + t.1,
                        ),
                    ),
                    None => Err(Error::ProtocolError),
                },
                Err(e) => Err(e),
            },
            Err(e) => Err(e),
        },
        Err(e) => Err(e),
    }
}

impl Default for Auth {
    /// A successful exchange with no method, no data and no optional
    /// fields.
    fn default() -> (d: Auth)
        ensures
            d@.reason_code == ReasonCode::Success,
            d@.authentication.method == Seq::<char>::empty(),
            d@.authentication.data == Seq::<u8>::empty(),
            d@.reason_string is None,
            d@.user_properties == Seq::<(Seq<char>, Seq<char>)>::empty(),
    {
        Auth {
            reason_code: ReasonCode::Success,
            authentication: Authentication { method: String::new(), data: Vec::new() },
            reason_string: None,
            user_properties: Vec::new(),
        }
    }
}

impl Auth {
    /// Write the packet body into `writer` and return the byte count; a
    /// payload that does not fit its length prefix fails.
    pub fn write(self, writer: &mut Vec<u8>) -> (r: Result<usize, Error>)
        ensures
            r is Ok <==> self@.encodable(),
            match r {
                Ok(n) => {
                    &&& final(writer)@ == old(writer)@ + self@.spec_bytes()
                    &&& n == self@.spec_bytes().len()
                },
                Err(e) => e == Error::ProtocolError,
            },
    {
        let ghost m = self@;
        self.reason_code.write_byte(writer);
        let mut properties: Vec<u8> = Vec::new();

        let ghost prefix = m.authentication.props() + (match m.reason_string {
            Some(s) => seq![PropertyModel::ReasonString(s)],
            None => Seq::<PropertyModel>::empty(),
        });
        self.authentication.encode(&mut properties)?;
        if let Some(v) = self.reason_string {
            match Property::ReasonString(v).encode(&mut properties) {
                Ok(_) => {},
                Err(e) => {
                    return Err(e);
                },
            }
            proof {
                lemma_props_bytes_append(
                    m.authentication.props(),
                    seq![PropertyModel::ReasonString(m.reason_string->0)],
                );
                lemma_props_bytes_singleton(PropertyModel::ReasonString(m.reason_string->0));
            }
        } else {
            proof {
                assert(prefix =~= m.authentication.props());
            }
        }
        proof {
            assert(properties@ == props_bytes(prefix));
        }
        write_user_properties(self.user_properties, Ghost(prefix), &mut properties)?;
        proof {
            assert(prefix + user_prop_models(m.user_properties) =~= m.props());
        }

        if properties.len() > 268435455 {
            return Err(Error::ProtocolError);
        }
        let vn = match codec::write_variable_byte_integer(properties.len() as u32, writer) {
            Ok(k) => k,
            Err(_) => {
                return Err(Error::ProtocolError);
            },
        };
        let n = 1 + vn + properties.len();
        writer.append(&mut properties);
        proof {
            assert(writer@ =~= old(writer)@ + m.spec_bytes());
        }
        Ok(n)
    }

    /// Read a packet body from `reader`.
    pub fn read(reader: &mut Reader) -> (r: Result<Auth, Error>)
        requires
            old(reader).wf(),
        ensures
            match r {
                Ok(a) => spec_parse_auth(old(reader).remaining()) matches Ok(t) && t.0 == a@
                    && codec::consumed(*old(reader), *final(reader), t.1),
                Err(e) => {
                    &&& spec_parse_auth(old(reader).remaining()) == Err::<(AuthModel, int), _>(e)
                    &&& codec::failed(*old(reader), *final(reader))
                },
            },
    {
        let ghost rem = old(reader).remaining();
        let rc_byte = codec::read_byte(reader)?;
        let reason_code = match ReasonCode::try_parse(rc_byte, ControlPacketType::AUTH) {
            Ok(rc) => rc,
            Err(e) => {
                return Err(e);
            },
        };

        let mut properties = PropertiesDecoder::take(reader)?;
        let acc = match read_auth_properties(&mut properties) {
            Ok(t) => t,
            Err(e) => {
                return Err(e);
            },
        };
        let (authentication_method, authentication_data, reason_string, user_properties) = acc;

        if let Some(method) = authentication_method {
            let a = Auth {
                reason_code,
                reason_string,
                authentication: Authentication { method, data: authentication_data },
                user_properties,
            };
            proof {
                let t = spec_parse_auth(rem)->Ok_0;
                assert(rem.skip(1).skip(spec_take_region(rem.skip(1))->Ok_0.1) =~= rem.skip(t.1));
            }
            Ok(a)
        } else {
            Err(Error::ProtocolError)
        }
    }
}

/// Read every property of an authentication exchange's region: the method,
/// the data, the reason string and the user properties, folded in wire
/// order.
#[verifier::loop_isolation(false)]
#[verifier::rlimit(100)]
fn read_auth_properties(properties: &mut PropertiesDecoder) -> (r: Result<
    (Option<String>, Vec<u8>, Option<String>, Vec<(String, String)>),
    Error,
>)
    requires
        old(properties).wf(),
    ensures
        match r {
            Ok(t) => spec_parse_fold(
                old(properties).remaining(),
                old(properties).seen_set(),
                auth_init(),
                auth_step(),
            ) == Ok::<AuthAcc, Error>(
                AuthAcc {
                    method: t.0.deep_view(),
                    data: t.1@,
                    reason_string: t.2.deep_view(),
                    user_properties: t.3.deep_view(),
                },
            ),
            Err(e) => spec_parse_fold(
                old(properties).remaining(),
                old(properties).seen_set(),
                auth_init(),
                auth_step(),
            ) == Err::<AuthAcc, Error>(e),
        },
{
    let ghost region0 = old(properties).remaining();
    let ghost seen0 = old(properties).seen_set();

    let mut user_properties: Vec<(String, String)> = Vec::new();
    let mut reason_string: Option<String> = None;
    let mut authentication_method: Option<String> = None;
    let mut authentication_data: Vec<u8> = Vec::new();

    proof {
        assert(user_properties.deep_view() =~= Seq::<(Seq<char>, Seq<char>)>::empty());
        assert(AuthAcc {
            method: authentication_method.deep_view(),
            data: authentication_data@,
            reason_string: reason_string.deep_view(),
            user_properties: user_properties.deep_view(),
        } == auth_init());
    }
    while properties.has_properties()
        invariant
            properties.wf(),
            spec_parse_fold(region0, seen0, auth_init(), auth_step()) == spec_parse_fold(
                properties.remaining(),
                properties.seen_set(),
                AuthAcc {
                    method: authentication_method.deep_view(),
                    data: authentication_data@,
                    reason_string: reason_string.deep_view(),
                    user_properties: user_properties.deep_view(),
                },
                auth_step(),
            ),
        decreases properties.remaining().len(),
    {
        let ghost acc0 = AuthAcc {
            method: authentication_method.deep_view(),
            data: authentication_data@,
            reason_string: reason_string.deep_view(),
            user_properties: user_properties.deep_view(),
        };
        let ghost d0_rem = properties.remaining();
        let ghost d0_seen = properties.seen_set();
        let p = match properties.read() {
            Ok(p) => p,
            Err(e) => {
                proof {
                    assert(spec_parse_fold(d0_rem, d0_seen, acc0, auth_step())
                        == Err::<AuthAcc, Error>(e));
                }
                return Err(e);
            },
        };
        proof {
            let t = crate::property::spec_read_prop(d0_rem, d0_seen)->Ok_0;
            assert(spec_parse_fold(d0_rem, d0_seen, acc0, auth_step()) == match auth_step()(
                acc0,
                t.0,
            ) {
                Ok(a2) => spec_parse_fold(d0_rem.skip(t.1), t.2, a2, auth_step()),
                Err(e) => Err(e),
            });
        }
        match p {
            Property::ReasonString(v) => reason_string = Some(v),
            Property::UserProperty(k, v) => {
                let ghost ups0 = user_properties.deep_view();
                let ghost kv = (k@, v@);
                user_properties.push((k, v));
                proof {
                    assert(user_properties.deep_view() =~= ups0.push(kv));
                }
            },
            Property::AuthenticationMethod(v) => authentication_method = Some(v),
            Property::AuthenticationData(v) => authentication_data = v,
            _ => {
                return Err(Error::ProtocolError);
            },
        }
    }
    Ok((authentication_method, authentication_data, reason_string, user_properties))
}

/// Decoding the wire form of a representable authentication-exchange packet
/// whose reason code is legal for the exchange yields the packet back and
/// consumes its whole wire form.
#[verifier::rlimit(100)]
pub proof fn lemma_auth_round_trip(m: AuthModel)
    requires
        m.wf(),
    ensures
        spec_parse_auth(m.spec_bytes()) == Ok::<_, Error>((m, m.spec_bytes().len() as int)),
{
    let region = m.region();
    let rlen = region.len() as int;
    let bytes = m.spec_bytes();
    let tail = spec_vli(rlen) + region;

    assert(bytes =~= seq![m.reason_code.code()] + tail);
    lemma_parse_reason_code_round_trip(m.reason_code, ControlPacketType::AUTH, tail);
    assert(bytes.skip(1) =~= tail);

    codec::lemma_parse_vli_round_trip(rlen, region);
    let vlen = spec_vli(rlen).len() as int;
    assert(tail.subrange(vlen, vlen + rlen) =~= region);

    let ps = m.props();
    assert forall|i: int| 0 <= i < ps.len() implies crate::property::prop_encode_ok(
        #[trigger] ps[i],
    ) && !crate::property::prop_is_default(ps[i]) by {
        lemma_auth_props_shape(m, i);
    }
    assert forall|i: int, j: int|
        0 <= i < j < ps.len() && !crate::property::prop_repeatable(
            crate::property::prop_id(#[trigger] ps[i]),
        ) implies crate::property::prop_id(ps[i]) != crate::property::prop_id(
        #[trigger] ps[j]) by {
        lemma_auth_props_shape(m, i);
        lemma_auth_props_shape(m, j);
    }
    lemma_parse_fold_round_trip(ps, Set::empty(), auth_init(), auth_step());
    lemma_auth_fold(m);
}

/// Which property stands at each index of an authentication exchange's
/// property list, and that each is representable and not elided.
proof fn lemma_auth_props_shape(m: AuthModel, i: int)
    requires
        m.encodable(),
        0 <= i < m.props().len(),
    ensures
        crate::property::prop_encode_ok(m.props()[i]),
        !crate::property::prop_is_default(m.props()[i]),
        crate::property::prop_id(m.props()[i]) == 21 || crate::property::prop_id(m.props()[i])
            == 22 || crate::property::prop_id(m.props()[i]) == 31 || crate::property::prop_id(
            m.props()[i],
        ) == 38,
        crate::property::prop_id(m.props()[i]) != 38 ==> forall|j: int|
            i < j < m.props().len() ==> crate::property::prop_id(m.props()[i])
                != crate::property::prop_id(#[trigger] m.props()[j]),
{
    let a = m.authentication.props();
    let rs = match m.reason_string {
        Some(s) => seq![PropertyModel::ReasonString(s)],
        None => Seq::<PropertyModel>::empty(),
    };
    let ups = user_prop_models(m.user_properties);
    assert(m.props() =~= (a + rs) + ups);
    assert forall|j: int| 0 <= j < ups.len() implies crate::property::prop_id(
        #[trigger] ups[j],
    ) == 38 && crate::property::prop_encode_ok(ups[j]) && !crate::property::prop_is_default(
        ups[j],
    ) by {
        assert(ups[j] == PropertyModel::UserProperty(
            m.user_properties[j].0,
            m.user_properties[j].1,
        ));
    }
}

/// The pure fold of an authentication exchange's own property list lands on
/// exactly the packet's fields.
proof fn lemma_auth_fold(m: AuthModel)
    ensures
        spec_fold(m.props(), auth_init(), auth_step()) == Ok::<_, Error>(
            AuthAcc {
                method: Some(m.authentication.method),
                data: m.authentication.data,
                reason_string: m.reason_string,
                user_properties: m.user_properties,
            },
        ),
{
    let a = m.authentication.props();
    let rs = match m.reason_string {
        Some(s) => seq![PropertyModel::ReasonString(s)],
        None => Seq::<PropertyModel>::empty(),
    };
    let ups = user_prop_models(m.user_properties);
    let step = auth_step();
    let init = auth_init();

    let accm = AuthAcc { method: Some(m.authentication.method), ..init };
    assert(step(init, PropertyModel::AuthenticationMethod(m.authentication.method))
        == Ok::<_, Error>(accm));
    let acc1 = AuthAcc { data: m.authentication.data, ..accm };
    assert(spec_fold(a, init, step) == Ok::<_, Error>(acc1)) by {
        assert(a[0] == PropertyModel::AuthenticationMethod(m.authentication.method));
        if m.authentication.data.len() > 0 {
            let d = seq![PropertyModel::AuthenticationData(m.authentication.data)];
            assert(a.drop_first() =~= d);
            assert(step(accm, d[0]) == Ok::<_, Error>(acc1));
            assert(d.drop_first() =~= Seq::<PropertyModel>::empty());
            assert(spec_fold(d.drop_first(), acc1, step) == Ok::<_, Error>(acc1));
            assert(spec_fold(d, accm, step) == Ok::<_, Error>(acc1));
        } else {
            assert(a.drop_first() =~= Seq::<PropertyModel>::empty());
            assert(spec_fold(a.drop_first(), accm, step) == Ok::<_, Error>(accm));
            assert(accm.data =~= m.authentication.data);
            assert(accm == acc1);
        }
    }

    let acc2 = AuthAcc { reason_string: m.reason_string, ..acc1 };
    assert(spec_fold(rs, acc1, step) == Ok::<_, Error>(acc2)) by {
        match m.reason_string {
            Some(s) => {
                assert(rs[0] == PropertyModel::ReasonString(s));
                assert(step(acc1, rs[0]) == Ok::<_, Error>(acc2));
                assert(rs.drop_first() =~= Seq::<PropertyModel>::empty());
                assert(spec_fold(rs.drop_first(), acc2, step) == Ok::<_, Error>(acc2));
            },
            None => {
                assert(acc1 == acc2);
            },
        }
    }

    lemma_spec_fold_append(a, rs, init, step);
    assert(spec_fold(a + rs, init, step) == Ok::<_, Error>(acc2));
    lemma_spec_fold_append(a + rs, ups, init, step);
    lemma_auth_fold_ups(m.user_properties, acc2);
    assert(acc2.user_properties + m.user_properties =~= m.user_properties);
    assert(m.props() =~= (a + rs) + ups);
}

/// Folding user properties appends each pair, in order, to the state.
proof fn lemma_auth_fold_ups(ups: Seq<(Seq<char>, Seq<char>)>, acc: AuthAcc)
    ensures
        spec_fold(user_prop_models(ups), acc, auth_step()) == Ok::<_, Error>(
            AuthAcc { user_properties: acc.user_properties + ups, ..acc },
        ),
    decreases ups.len(),
{
    let pm = user_prop_models(ups);
    if ups.len() == 0 {
        assert(acc.user_properties + ups =~= acc.user_properties);
    } else {
        assert(pm[0] == PropertyModel::UserProperty(ups[0].0, ups[0].1));
        let acc1 = AuthAcc { user_properties: acc.user_properties.push((ups[0].0, ups[0].1)), ..acc };
        assert(pm.drop_first() =~= user_prop_models(ups.drop_first()));
        lemma_auth_fold_ups(ups.drop_first(), acc1);
        assert(acc1.user_properties + ups.drop_first() =~= acc.user_properties + ups);
    }
}

} // verus!
