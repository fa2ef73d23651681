//! The typed action contract and the generic dispatcher.
//!
//! An action is a type implementing [`AnkiRequest`]: it binds the action
//! name, the protocol version, the parameter encoding and the result
//! decoding. One dispatcher serves every action: it builds the request
//! envelope, serializes it, performs the transport call, parses the
//! response envelope and resolves the three-way outcome — an error string
//! wins over any payload, a payload decodes into the result shape, and no
//! payload at all yields the shape's default value.
use vstd::prelude::*;
use crate::envelope::{
    env_wf, envelope_of_json, opt_view, spec_envelope_json, spec_envelope_of, spec_lookup,
    lemma_envelope_roundtrip, ResponseEnvelopeV,
};
use crate::json::{
    json_chars, json_wf, spec_json, string_from_chars, JsonMemberV, JsonVal, JsonValue,
};
use crate::parse::parse_json_text;
use crate::{AnkiError, DecodeError};

verus! {

/// The key `"action"`.
pub open spec fn key_action() -> Seq<char> {
    seq!['a', 'c', 't', 'i', 'o', 'n']
}

/// The key `"version"`.
pub open spec fn key_version() -> Seq<char> {
    seq!['v', 'e', 'r', 's', 'i', 'o', 'n']
}

/// The key `"params"`.
pub open spec fn key_params() -> Seq<char> {
    seq!['p', 'a', 'r', 'a', 'm', 's']
}

/// The protocol version every current action speaks.
pub const PROTOCOL_VERSION: u64 = 6;

/// One remote action: its wire name, how its parameters encode into JSON,
/// and how its result decodes from the response payload.
pub trait AnkiRequest: Sized {
    /// The statically typed result shape of this action.
    type Response;

    /// The action's wire name.
    spec fn spec_action() -> Seq<char>;

    /// The JSON encoding of this parameter value; `None` for an action
    /// that takes no parameters.
    spec fn spec_params(&self) -> Option<JsonVal>;

    /// The exact decode relation: `v` is a response payload for result `r`.
    spec fn decodes(v: JsonVal, r: Self::Response) -> bool;

    /// The result the action yields when the response carries no payload.
    spec fn is_default(r: Self::Response) -> bool;

    /// The action's wire name, as executable code.
    fn action() -> (s: &'static str)
        ensures
            s@ == Self::spec_action(),
    ;

    /// The protocol version this action speaks. Every current action
    /// speaks the same fixed version.
    fn version() -> (v: u64)
        ensures
            v == PROTOCOL_VERSION,
    {
        6
    }

    /// The JSON encoding of this parameter value, as executable code.
    fn params(&self) -> (p: Option<JsonValue>)
        ensures
            opt_view(p) == self.spec_params(),
    ;

    /// Decodes a response payload into the result shape; `None` exactly
    /// when no result decodes from it.
    fn decode_response(v: &JsonValue) -> (r: Option<Self::Response>)
        ensures
            r matches Some(t) ==> Self::decodes(v@, t),
            r is None ==> forall|t: Self::Response| !Self::decodes(v@, t),
    ;

    /// The default result, for responses that carry no payload.
    fn default_response() -> (r: Self::Response)
        ensures
            Self::is_default(r),
    ;
}

/// The request envelope for one call: the action name, the protocol
/// version, and the parameters only when the action has any — an action
/// without parameters gets an envelope without the key, not a null one.
pub open spec fn spec_request_json(
    action: Seq<char>,
    version: int,
    params: Option<JsonVal>,
) -> JsonVal {
    JsonVal::Obj(
        match params {
            Some(p) => seq![
                JsonMemberV { key: key_action(), val: JsonVal::Str(action) },
                JsonMemberV { key: key_version(), val: JsonVal::Num(version) },
                JsonMemberV { key: key_params(), val: p },
            ],
            None => seq![
                JsonMemberV { key: key_action(), val: JsonVal::Str(action) },
                JsonMemberV { key: key_version(), val: JsonVal::Num(version) },
            ],
        },
    )
}

/// An action without parameters produces an envelope in which no member at
/// all is keyed `"params"` — not one with an empty or null value.
pub proof fn lemma_request_omits_params(action: Seq<char>, version: int)
    ensures
        spec_request_json(action, version, None)->Obj_0.len() == 2,
        forall|i: int| 0 <= i < 2 ==> (#[trigger] spec_request_json(
            action,
            version,
            None,
        )->Obj_0[i]).key != key_params(),
        spec_lookup(spec_request_json(action, version, None)->Obj_0, key_params()) is None,
{
    let pairs = spec_request_json(action, version, None)->Obj_0;
    assert(key_action().len() == 6 && key_params().len() == 6 && key_version().len() == 7);
    assert(key_action()[0] == 'a' && key_params()[0] == 'p');
    assert(pairs[0].key != key_params());
    assert(pairs[1].key != key_params());
    assert(pairs.drop_first()[0] == pairs[1]);
    assert(pairs.drop_first().drop_first().len() == 0);
    assert(spec_lookup(pairs.drop_first().drop_first(), key_params()) is None);
    assert(spec_lookup(pairs.drop_first(), key_params()) is None);
}

/// Builds the request envelope for one call of `q`.
pub fn build_request<Q: AnkiRequest>(q: &Q) -> (v: JsonValue)
    ensures
        v@ == spec_request_json(Q::spec_action(), PROTOCOL_VERSION as int, q.spec_params()),
{
    let action = Q::action();
    let mut pairs: Vec<(String, JsonValue)> = Vec::new();
    pairs.push(
        (string_from_chars(&vec!['a', 'c', 't', 'i', 'o', 'n']), JsonValue::Str(
            String::from_str(action),
        )),
    );
    let version = Q::version();
    pairs.push(
        (string_from_chars(&vec!['v', 'e', 'r', 's', 'i', 'o', 'n']), JsonValue::Num(
            version as i128,
        )),
    );
    let p = q.params();
    match p {
        Some(pv) => {
            pairs.push((string_from_chars(&vec!['p', 'a', 'r', 'a', 'm', 's']), pv));
        },
        None => {},
    }
    let out = JsonValue::Obj(pairs);
    proof {
        crate::json::lemma_obj_view(out);
        assert(crate::json::members_view(out->Obj_0@) =~= spec_request_json(
            Q::spec_action(),
            PROTOCOL_VERSION as int,
            q.spec_params(),
        )->Obj_0);
    }
    out
}

/// The canonical wire text of one request.
pub fn request_body<Q: AnkiRequest>(q: &Q) -> (s: String)
    ensures
        s@ == spec_json(
            spec_request_json(Q::spec_action(), PROTOCOL_VERSION as int, q.spec_params()),
        ),
{
    let v = build_request(q);
    let cs = json_chars(&v);
    string_from_chars(&cs)
}

/// The three-way outcome resolution, as a relation between a decoded
/// envelope and the dispatched result: a non-null error string becomes an
/// application error carrying exactly that string, whether or not a payload
/// is also present; otherwise a payload must decode into the result shape;
/// otherwise the result is the shape's default value.
pub open spec fn resolves<Q: AnkiRequest>(
    env: ResponseEnvelopeV,
    r: Result<Q::Response, AnkiError>,
) -> bool {
    match env.error {
        Some(m) => r matches Err(e) && e matches AnkiError::Anki(ms) && ms@ == m,
        None => match env.result {
            Some(rv) => match r {
                Ok(t) => Q::decodes(rv, t),
                Err(e) => (e matches AnkiError::Decode(d) && d == DecodeError::WrongShape) && (
                forall|t: Q::Response| !Q::decodes(rv, t)),
            },
            None => r matches Ok(t) && Q::is_default(t),
        },
    }
}

/// A non-null error resolves to an application error carrying exactly the
/// remote's message, even when a result payload is present too.
pub proof fn lemma_error_takes_priority<Q: AnkiRequest>(
    env: ResponseEnvelopeV,
    r: Result<Q::Response, AnkiError>,
)
    requires
        resolves::<Q>(env, r),
        env.error is Some,
    ensures
        r matches Err(e) && e matches AnkiError::Anki(ms) && ms@ == env.error->0,
{
}

/// A response with neither payload nor error resolves to the result
/// shape's default value, not to a failure.
pub proof fn lemma_empty_response_defaults<Q: AnkiRequest>(
    env: ResponseEnvelopeV,
    r: Result<Q::Response, AnkiError>,
)
    requires
        resolves::<Q>(env, r),
        env.error is None,
        env.result is None,
    ensures
        r matches Ok(t) && Q::is_default(t),
{
}

/// The canonical envelope of a well-formed payload is itself well-formed.
proof fn lemma_env_json_wf(env: ResponseEnvelopeV)
    requires
        env_wf(env),
    ensures
        json_wf(spec_envelope_json(env)),
{
    let pairs = spec_envelope_json(env)->Obj_0;
    assert(json_wf(pairs[0].val));
    assert(json_wf(pairs[1].val));
    assert(forall|i: int| 0 <= i < pairs.len() ==> json_wf(#[trigger] pairs[i].val)) by {
        assert(pairs.len() == 2);
    }
}

/// Interprets one response body for the action `Q`: parse, decode the
/// envelope, resolve the outcome. On the canonical envelope text of any
/// well-formed envelope the result is exactly what [`resolves`] prescribes;
/// any successful result whatsoever decodes from some payload or is the
/// shape's default.
pub fn interpret_response<Q: AnkiRequest>(body: &str) -> (r: Result<Q::Response, AnkiError>)
    ensures
        forall|env: ResponseEnvelopeV| env_wf(env) && body@ == spec_json(spec_envelope_json(env))
            ==> resolves::<Q>(env, r),
        r matches Ok(t) ==> ((exists|rv: JsonVal| Q::decodes(rv, t)) || Q::is_default(t)),
{
    let parsed = parse_json_text(body);
    match parsed {
        None => {
            proof {
                assert forall|env: ResponseEnvelopeV|
                    env_wf(env) && body@ == spec_json(spec_envelope_json(env)) implies false by {
                    lemma_env_json_wf(env);
                }
            }
            Err(AnkiError::Decode(DecodeError::NotJson))
        },
        Some(jv) => {
            let ghost jvv = jv@;
            let enve = envelope_of_json(jv);
            proof {
                assert forall|env: ResponseEnvelopeV|
                    env_wf(env) && body@ == spec_json(spec_envelope_json(env)) implies (jvv
                    == spec_envelope_json(env) && spec_envelope_of(jvv) == Some(env)) by {
                    lemma_env_json_wf(env);
                    lemma_envelope_roundtrip(env);
                }
            }
            match enve {
                None => Err(AnkiError::Decode(DecodeError::WrongShape)),
                Some(envelope) => {
                    match envelope.error {
                        Some(m) => Err(AnkiError::Anki(m)),
                        None => match envelope.result {
                            Some(rv) => match Q::decode_response(&rv) {
                                Some(t) => Ok(t),
                                None => Err(AnkiError::Decode(DecodeError::WrongShape)),
                            },
                            None => Ok(Q::default_response()),
                        },
                    }
                },
            }
        },
    }
}

/// Resolves a transport outcome for the action `Q`: a transport failure is
/// handed back untouched, without ever touching a response envelope; a
/// transport success is interpreted as a response body.
pub fn dispatch_outcome<Q: AnkiRequest>(outcome: Result<String, AnkiError>) -> (r: Result<
    Q::Response,
    AnkiError,
>)
    ensures
        outcome matches Err(e) ==> r == Err::<Q::Response, AnkiError>(e),
        forall|env: ResponseEnvelopeV|
            (outcome matches Ok(b) && env_wf(env) && b@ == spec_json(spec_envelope_json(env)))
                ==> resolves::<Q>(env, r),
        r matches Ok(t) ==> ((exists|rv: JsonVal| Q::decodes(rv, t)) || Q::is_default(t)),
{
    match outcome {
        Err(e) => Err(e),
        Ok(body) => interpret_response::<Q>(body.as_str()),
    }
}

/// Executes one request/response cycle for the action `q`: builds the
/// envelope, serializes it, posts it to the fixed local endpoint, and
/// resolves the outcome. Every contract of the pieces applies: the request
/// text is the canonical envelope of `q`, a transport failure surfaces
/// untouched, and whatever body comes back is resolved as
/// [`dispatch_outcome`] promises.
pub fn dispatch<Q: AnkiRequest>(q: &Q) -> (r: Result<Q::Response, AnkiError>)
    ensures
        r matches Ok(t) ==> ((exists|rv: JsonVal| Q::decodes(rv, t)) || Q::is_default(t)),
{
    let body = request_body(q);
    let outcome = crate::client::http_post_json(crate::client::ANKI_CONNECT_URL, body.as_str());
    dispatch_outcome::<Q>(outcome)
}

} // verus!
