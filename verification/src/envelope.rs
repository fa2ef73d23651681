//! The response envelope `{ "result": ..., "error": ... }`: its canonical
//! wire form, its decoding from a JSON value, and the proof that decoding
//! inverts the canonical form.
use vstd::prelude::*;
use crate::json::{JsonMemberV, JsonVal, JsonValue, json_wf, members_view};

verus! {

/// The key `"result"`.
pub open spec fn key_result() -> Seq<char> {
    seq!['r', 'e', 's', 'u', 'l', 't']
}

/// The key `"error"`.
pub open spec fn key_error() -> Seq<char> {
    seq!['e', 'r', 'r', 'o', 'r']
}

/// The decoded response envelope. `result` is the payload when one is
/// present and not null; `error` is the application error string when one
/// is present and not null.
pub struct ResponseEnvelope {
    pub result: Option<JsonValue>,
    pub error: Option<String>,
}

/// The mathematical shape of a [`ResponseEnvelope`].
pub struct ResponseEnvelopeV {
    pub result: Option<JsonVal>,
    pub error: Option<Seq<char>>,
}

impl View for ResponseEnvelope {
    type V = ResponseEnvelopeV;

    open spec fn view(&self) -> ResponseEnvelopeV {
        ResponseEnvelopeV {
            result: match self.result {
                Some(v) => Some(v@),
                None => None,
            },
            error: match self.error {
                Some(ref m) => Some(m@),
                None => None,
            },
        }
    }
}

/// A well-formed envelope: its payload, if any, fits the value model.
pub open spec fn env_wf(env: ResponseEnvelopeV) -> bool {
    match env.result {
        Some(v) => json_wf(v) && !(v is Null),
        None => true,
    }
}

/// The canonical JSON object a correctly-behaving remote sends for `env`:
/// both keys always present, absent payloads written as null.
pub open spec fn spec_envelope_json(env: ResponseEnvelopeV) -> JsonVal {
    JsonVal::Obj(
        seq![
            JsonMemberV {
                key: key_result(),
                val: match env.result {
                    Some(v) => v,
                    None => JsonVal::Null,
                },
            },
            JsonMemberV {
                key: key_error(),
                val: match env.error {
                    Some(m) => JsonVal::Str(m),
                    None => JsonVal::Null,
                },
            },
        ],
    )
}

/// First value bound to `key`, scanning members left to right.
pub open spec fn spec_lookup(pairs: Seq<JsonMemberV>, key: Seq<char>) -> Option<JsonVal>
    decreases pairs.len(),
{
    if pairs.len() == 0 {
        None
    } else if pairs[0].key == key {
        Some(pairs[0].val)
    } else {
        spec_lookup(pairs.drop_first(), key)
    }
}

/// How a JSON value decodes into a response envelope: the value must be an
/// object; a missing or null `result` key means no payload; `error` must be
/// missing, null or a string, else the shape is wrong. Other keys are
/// ignored, and of repeated keys the first counts.
pub open spec fn spec_envelope_of(v: JsonVal) -> Option<ResponseEnvelopeV> {
    match v {
        JsonVal::Obj(pairs) => {
            let rv = spec_lookup(pairs, key_result());
            let ev = spec_lookup(pairs, key_error());
            if ev matches Some(x) && !(x is Str || x is Null) {
                None
            } else {
                Some(
                    ResponseEnvelopeV {
                        result: match rv {
                            Some(JsonVal::Null) => None,
                            Some(x) => Some(x),
                            None => None,
                        },
                        error: match ev {
                            Some(JsonVal::Str(m)) => Some(m),
                            _ => None,
                        },
                    },
                )
            }
        },
        _ => None,
    }
}

/// Decoding the canonical envelope of a well-formed `env` gives back
/// exactly `env`.
pub proof fn lemma_envelope_roundtrip(env: ResponseEnvelopeV)
    requires
        env_wf(env),
    ensures
        spec_envelope_of(spec_envelope_json(env)) == Some(env),
{
    let pairs = spec_envelope_json(env)->Obj_0;
    assert(pairs.len() == 2);
    assert(pairs[0].key == key_result());
    assert(key_result().len() == 6);
    assert(key_error().len() == 5);
    assert(pairs[1].key == key_error());
    assert(pairs.drop_first()[0] == pairs[1]);
    assert(pairs.drop_first().drop_first().len() == 0);
    assert(spec_lookup(pairs.drop_first().drop_first(), key_result()) is None);
    assert(spec_lookup(pairs.drop_first(), key_result()) is None);
    assert(spec_lookup(pairs, key_result()) == Some(pairs[0].val));
    assert(spec_lookup(pairs.drop_first(), key_error()) == Some(pairs[1].val));
    assert(spec_lookup(pairs, key_error()) == Some(pairs[1].val));
    match env.result {
        Some(v) => {
            assert(!(v is Null));
            assert(spec_envelope_of(spec_envelope_json(env))->0.result == Some(v));
        },
        None => {},
    }
}

/// Appending one member changes a lookup only where the key was absent.
pub proof fn lemma_lookup_push(s: Seq<JsonMemberV>, x: JsonMemberV, key: Seq<char>)
    ensures
        spec_lookup(s.push(x), key) == if spec_lookup(s, key) is Some {
            spec_lookup(s, key)
        } else if x.key == key {
            Some(x.val)
        } else {
            None
        },
    decreases s.len(),
{
    let sp = s.push(x);
    if s.len() == 0 {
        assert(sp[0] == x);
        assert(sp.drop_first() =~= Seq::<JsonMemberV>::empty());
        assert(spec_lookup(Seq::<JsonMemberV>::empty(), key) is None);
        assert(sp.len() == 1);
    } else {
        assert(sp[0] == s[0]);
        assert(sp.drop_first() =~= s.drop_first().push(x));
        lemma_lookup_push(s.drop_first(), x, key);
    }
}

/// The view of an optional JSON value.
pub open spec fn opt_view(p: Option<JsonValue>) -> Option<JsonVal> {
    match p {
        Some(v) => Some(v@),
        None => None,
    }
}

/// A lookup result, preferring a hit on the left.
pub open spec fn or_else(a: Option<JsonVal>, b: Option<JsonVal>) -> Option<JsonVal> {
    if a is Some {
        a
    } else {
        b
    }
}

/// Decodes a JSON value into the response envelope, exactly as
/// [`spec_envelope_of`] describes.
pub fn envelope_of_json(v: JsonValue) -> (r: Option<ResponseEnvelope>)
    ensures
        match r {
            Some(env) => spec_envelope_of(v@) == Some(env@),
            None => spec_envelope_of(v@) is None,
        },
{
    let ghost vv = v@;
    match v {
        JsonValue::Obj(pairs) => {
            proof {
                crate::json::lemma_obj_view(JsonValue::Obj(pairs));
            }
            let ghost orig = members_view(pairs@);
            let key_r = crate::json::string_from_chars(&vec!['r', 'e', 's', 'u', 'l', 't']);
            let key_e = crate::json::string_from_chars(&vec!['e', 'r', 'r', 'o', 'r']);
            proof {
                assert(key_r@ =~= key_result());
                assert(key_e@ =~= key_error());
            }
            let mut rest = pairs;
            let mut rv: Option<JsonValue> = None;
            let mut ev: Option<JsonValue> = None;
            proof {
                assert(members_view(rest@) =~= orig.take(rest@.len() as int));
            }
            loop
                invariant_except_break
                    rest@.len() <= pairs@.len(),
                    orig == members_view(pairs@),
                    key_r@ == key_result(),
                    key_e@ == key_error(),
                    members_view(rest@) =~= orig.take(rest@.len() as int),
                    spec_lookup(orig, key_result()) == or_else(
                        spec_lookup(orig.take(rest@.len() as int), key_result()),
                        opt_view(rv),
                    ),
                    spec_lookup(orig, key_error()) == or_else(
                        spec_lookup(orig.take(rest@.len() as int), key_error()),
                        opt_view(ev),
                    ),
                ensures
                    opt_view(rv) == spec_lookup(orig, key_result()),
                    opt_view(ev) == spec_lookup(orig, key_error()),
                decreases rest@.len(),
            {
                let ghost prev = rest@;
                let popped = rest.pop();
                match popped {
                    None => {
                        proof {
                            assert(rest@.len() == 0);
                            assert(orig.take(0).len() == 0);
                        }
                        break ;
                    },
                    Some(p) => {
                        let ghost i = rest@.len() as int;
                        proof {
                            assert(prev.len() == i + 1);
                            assert(rest@ =~= prev.drop_last());
                            assert(members_view(prev)[i] == JsonMemberV {
                                key: prev[i].0@,
                                val: prev[i].1@,
                            });
                            assert(members_view(prev)[i] == orig.take(i + 1)[i]);
                            assert(orig.take(i + 1)[i] == orig[i]);
                            assert(prev[i] == p);
                            assert(orig[i] == JsonMemberV { key: p.0@, val: p.1@ });
                            assert(orig.take(i + 1) =~= orig.take(i).push(orig[i]));
                            lemma_lookup_push(orig.take(i), orig[i], key_result());
                            lemma_lookup_push(orig.take(i), orig[i], key_error());
                            assert(members_view(rest@) =~= orig.take(i));
                        }
                        if p.0 == key_r {
                            rv = Some(p.1);
                        } else if p.0 == key_e {
                            ev = Some(p.1);
                        }
                    },
                }
            }
            let result: Option<JsonValue> = match rv {
                None => None,
                Some(x) => match x {
                    JsonValue::Null => None,
                    other => Some(other),
                },
            };
            let error: Option<String> = match ev {
                None => None,
                Some(x) => match x {
                    JsonValue::Null => None,
                    JsonValue::Str(m) => Some(m),
                    _ => {
                        return None;
                    },
                },
            };
            Some(ResponseEnvelope { result, error })
        },
        _ => None,
    }
}

} // verus!
