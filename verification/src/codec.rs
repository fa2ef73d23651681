//! Shared encoders and decoders between the protocol's JSON values and the
//! plain shapes the actions exchange: integers, booleans, strings, vectors
//! of them, and object fields looked up by key.
use vstd::prelude::*;
use crate::json::{
    JsonMemberV, JsonVal, JsonValue, lemma_arr_view, lemma_members_view_push,
    lemma_obj_view, members_view, seq_view,
};
use crate::envelope::spec_lookup;

verus! {

/// The JSON array of the given unsigned numbers.
pub open spec fn usize_seq_json(s: Seq<usize>) -> JsonVal {
    JsonVal::Arr(
        Seq::new(
            s.len(),
            |i: int|
                if 0 <= i < s.len() {
                    JsonVal::Num(s[i] as int)
                } else {
                    JsonVal::Null
                },
        ),
    )
}

/// The JSON array of the given unsigned numbers.
pub open spec fn u64_seq_json(s: Seq<u64>) -> JsonVal {
    JsonVal::Arr(
        Seq::new(
            s.len(),
            |i: int|
                if 0 <= i < s.len() {
                    JsonVal::Num(s[i] as int)
                } else {
                    JsonVal::Null
                },
        ),
    )
}

/// The JSON array of the given strings.
pub open spec fn string_seq_json(s: Seq<String>) -> JsonVal {
    JsonVal::Arr(
        Seq::new(
            s.len(),
            |i: int|
                if 0 <= i < s.len() {
                    JsonVal::Str(s[i]@)
                } else {
                    JsonVal::Null
                },
        ),
    )
}

/// Encodes a vector of unsigned numbers as a JSON array.
pub fn json_usize_vec(v: &Vec<usize>) -> (r: JsonValue)
    ensures
        r@ == usize_seq_json(v@),
{
    let n = v.len();
    let mut items: Vec<JsonValue> = Vec::new();
    let mut i: usize = 0;
    while i < n
        invariant
            i <= n,
            n == v@.len(),
            items@.len() == i,
            forall|j: int| 0 <= j < i ==> (#[trigger] items@[j])@ == JsonVal::Num(v@[j] as int),
        decreases n - i,
    {
        items.push(JsonValue::Num(v[i] as i128));
        i += 1;
    }
    let out = JsonValue::Arr(items);
    proof {
        lemma_arr_view(out);
        assert(seq_view(out->Arr_0@) =~= usize_seq_json(v@)->Arr_0);
    }
    out
}

/// Encodes a vector of unsigned numbers as a JSON array.
pub fn json_u64_vec(v: &Vec<u64>) -> (r: JsonValue)
    ensures
        r@ == u64_seq_json(v@),
{
    let n = v.len();
    let mut items: Vec<JsonValue> = Vec::new();
    let mut i: usize = 0;
    while i < n
        invariant
            i <= n,
            n == v@.len(),
            items@.len() == i,
            forall|j: int| 0 <= j < i ==> (#[trigger] items@[j])@ == JsonVal::Num(v@[j] as int),
        decreases n - i,
    {
        items.push(JsonValue::Num(v[i] as i128));
        i += 1;
    }
    let out = JsonValue::Arr(items);
    proof {
        lemma_arr_view(out);
        assert(seq_view(out->Arr_0@) =~= u64_seq_json(v@)->Arr_0);
    }
    out
}

/// Encodes a vector of strings as a JSON array.
pub fn json_string_vec(v: &Vec<String>) -> (r: JsonValue)
    ensures
        r@ == string_seq_json(v@),
{
    let n = v.len();
    let mut items: Vec<JsonValue> = Vec::new();
    let mut i: usize = 0;
    while i < n
        invariant
            i <= n,
            n == v@.len(),
            items@.len() == i,
            forall|j: int| 0 <= j < i ==> (#[trigger] items@[j])@ == JsonVal::Str(v@[j]@),
        decreases n - i,
    {
        items.push(JsonValue::Str(v[i].clone()));
        i += 1;
    }
    let out = JsonValue::Arr(items);
    proof {
        lemma_arr_view(out);
        assert(seq_view(out->Arr_0@) =~= string_seq_json(v@)->Arr_0);
    }
    out
}

/// Appends one member to an object under construction.
pub fn push_member(pairs: &mut Vec<(String, JsonValue)>, key: &'static str, val: JsonValue)
    ensures
        members_view(final(pairs)@) == members_view(old(pairs)@).push(
            JsonMemberV { key: key@, val: val@ },
        ),
{
    let ghost valv = val@;
    let p = (String::from_str(key), val);
    let ghost pg = p;
    pairs.push(p);
    proof {
        lemma_members_view_push(old(pairs)@, pg);
        assert(members_view(pairs@) =~= members_view(old(pairs)@).push(
            JsonMemberV { key: key@, val: valv },
        ));
    }
}

/// Decodes an unsigned number.
pub fn decode_usize(v: &JsonValue) -> (r: Option<usize>)
    ensures
        r matches Some(x) ==> v@ == JsonVal::Num(x as int),
        r is None ==> forall|x: usize| v@ != JsonVal::Num(x as int),
{
    match v {
        JsonValue::Num(n) => {
            if 0 <= *n && *n <= usize::MAX as i128 {
                Some(*n as usize)
            } else {
                None
            }
        },
        _ => None,
    }
}

/// Decodes an unsigned 64-bit number.
pub fn decode_u64(v: &JsonValue) -> (r: Option<u64>)
    ensures
        r matches Some(x) ==> v@ == JsonVal::Num(x as int),
        r is None ==> forall|x: u64| v@ != JsonVal::Num(x as int),
{
    match v {
        JsonValue::Num(n) => {
            if 0 <= *n && *n <= u64::MAX as i128 {
                Some(*n as u64)
            } else {
                None
            }
        },
        _ => None,
    }
}

/// Decodes a signed 64-bit number.
pub fn decode_i64(v: &JsonValue) -> (r: Option<i64>)
    ensures
        r matches Some(x) ==> v@ == JsonVal::Num(x as int),
        r is None ==> forall|x: i64| v@ != JsonVal::Num(x as int),
{
    match v {
        JsonValue::Num(n) => {
            if i64::MIN as i128 <= *n && *n <= i64::MAX as i128 {
                Some(*n as i64)
            } else {
                None
            }
        },
        _ => None,
    }
}

/// Decodes a signed number.
pub fn decode_isize(v: &JsonValue) -> (r: Option<isize>)
    ensures
        r matches Some(x) ==> v@ == JsonVal::Num(x as int),
        r is None ==> forall|x: isize| v@ != JsonVal::Num(x as int),
{
    match v {
        JsonValue::Num(n) => {
            if isize::MIN as i128 <= *n && *n <= isize::MAX as i128 {
                Some(*n as isize)
            } else {
                None
            }
        },
        _ => None,
    }
}

/// Decodes a boolean.
pub fn decode_bool(v: &JsonValue) -> (r: Option<bool>)
    ensures
        r matches Some(b) ==> v@ == JsonVal::Bool(b),
        r is None ==> forall|b: bool| v@ != JsonVal::Bool(b),
{
    match v {
        JsonValue::Bool(b) => Some(*b),
        _ => None,
    }
}

/// Decodes a string.
pub fn decode_string(v: &JsonValue) -> (r: Option<String>)
    ensures
        r matches Some(s) ==> v@ == JsonVal::Str(s@),
        r is None ==> forall|t: Seq<char>| v@ != JsonVal::Str(t),
{
    match v {
        JsonValue::Str(m) => Some(m.clone()),
        _ => None,
    }
}

/// A JSON array of exactly the given unsigned numbers.
pub open spec fn usize_vec_rel(v: JsonVal, s: Seq<usize>) -> bool {
    &&& v is Arr
    &&& v->Arr_0.len() == s.len()
    &&& forall|i: int| 0 <= i < s.len() ==> #[trigger] v->Arr_0[i] == JsonVal::Num(s[i] as int)
}

/// A JSON array of exactly the given booleans.
pub open spec fn bool_vec_rel(v: JsonVal, s: Seq<bool>) -> bool {
    &&& v is Arr
    &&& v->Arr_0.len() == s.len()
    &&& forall|i: int| 0 <= i < s.len() ==> #[trigger] v->Arr_0[i] == JsonVal::Bool(s[i])
}

/// A JSON array of exactly the given signed numbers.
pub open spec fn isize_vec_rel(v: JsonVal, s: Seq<isize>) -> bool {
    &&& v is Arr
    &&& v->Arr_0.len() == s.len()
    &&& forall|i: int| 0 <= i < s.len() ==> #[trigger] v->Arr_0[i] == JsonVal::Num(s[i] as int)
}

/// A JSON array of arrays of exactly the given signed numbers.
pub open spec fn isize_vec_vec_rel(v: JsonVal, s: Seq<Vec<isize>>) -> bool {
    &&& v is Arr
    &&& v->Arr_0.len() == s.len()
    &&& forall|i: int| 0 <= i < s.len() ==> isize_vec_rel(#[trigger] v->Arr_0[i], s[i]@)
}

/// A JSON array of exactly the given strings.
pub open spec fn string_vec_rel(v: JsonVal, s: Seq<String>) -> bool {
    &&& v is Arr
    &&& v->Arr_0.len() == s.len()
    &&& forall|i: int| 0 <= i < s.len() ==> #[trigger] v->Arr_0[i] == JsonVal::Str(s[i]@)
}

/// Decodes an array of unsigned numbers.
pub fn decode_usize_vec(v: &JsonValue) -> (r: Option<Vec<usize>>)
    ensures
        r matches Some(xs) ==> usize_vec_rel(v@, xs@),
        r is None ==> forall|s: Seq<usize>| !usize_vec_rel(v@, s),
{
    match v {
        JsonValue::Arr(items) => {
            proof {
                lemma_arr_view(JsonValue::Arr(*items));
            }
            let ghost iv = v@->Arr_0;
            let n = items.len();
            let mut out: Vec<usize> = Vec::new();
            let mut i: usize = 0;
            while i < n
                invariant
                    i <= n,
                    n == items@.len(),
                    iv.len() == n,
                    forall|j: int| 0 <= j < n ==> iv[j] == (#[trigger] items@[j])@,
                    v@ == JsonVal::Arr(iv),
                    out@.len() == i,
                    forall|j: int| 0 <= j < i ==> iv[j] == JsonVal::Num((#[trigger] out@[j]) as int),
                decreases n - i,
            {
                match decode_usize(&items[i]) {
                    Some(x) => {
                        out.push(x);
                    },
                    None => {
                        proof {
                            assert forall|s: Seq<usize>| !usize_vec_rel(v@, s) by {
                                if usize_vec_rel(v@, s) {
                                    assert(iv[i as int] == JsonVal::Num(s[i as int] as int));
                                }
                            }
                        }
                        return None;
                    },
                }
                i += 1;
            }
            Some(out)
        },
        _ => None,
    }
}

/// Decodes an array of booleans.
pub fn decode_bool_vec(v: &JsonValue) -> (r: Option<Vec<bool>>)
    ensures
        r matches Some(xs) ==> bool_vec_rel(v@, xs@),
        r is None ==> forall|s: Seq<bool>| !bool_vec_rel(v@, s),
{
    match v {
        JsonValue::Arr(items) => {
            proof {
                lemma_arr_view(JsonValue::Arr(*items));
            }
            let ghost iv = v@->Arr_0;
            let n = items.len();
            let mut out: Vec<bool> = Vec::new();
            let mut i: usize = 0;
            while i < n
                invariant
                    i <= n,
                    n == items@.len(),
                    iv.len() == n,
                    forall|j: int| 0 <= j < n ==> iv[j] == (#[trigger] items@[j])@,
                    v@ == JsonVal::Arr(iv),
                    out@.len() == i,
                    forall|j: int| 0 <= j < i ==> iv[j] == JsonVal::Bool(#[trigger] out@[j]),
                decreases n - i,
            {
                match decode_bool(&items[i]) {
                    Some(x) => {
                        out.push(x);
                    },
                    None => {
                        proof {
                            assert forall|s: Seq<bool>| !bool_vec_rel(v@, s) by {
                                if bool_vec_rel(v@, s) {
                                    assert(iv[i as int] == JsonVal::Bool(s[i as int]));
                                }
                            }
                        }
                        return None;
                    },
                }
                i += 1;
            }
            Some(out)
        },
        _ => None,
    }
}

/// Decodes an array of signed numbers.
pub fn decode_isize_vec(v: &JsonValue) -> (r: Option<Vec<isize>>)
    ensures
        r matches Some(xs) ==> isize_vec_rel(v@, xs@),
        r is None ==> forall|s: Seq<isize>| !isize_vec_rel(v@, s),
{
    match v {
        JsonValue::Arr(items) => {
            proof {
                lemma_arr_view(JsonValue::Arr(*items));
            }
            let ghost iv = v@->Arr_0;
            let n = items.len();
            let mut out: Vec<isize> = Vec::new();
            let mut i: usize = 0;
            while i < n
                invariant
                    i <= n,
                    n == items@.len(),
                    iv.len() == n,
                    forall|j: int| 0 <= j < n ==> iv[j] == (#[trigger] items@[j])@,
                    v@ == JsonVal::Arr(iv),
                    out@.len() == i,
                    forall|j: int| 0 <= j < i ==> iv[j] == JsonVal::Num((#[trigger] out@[j]) as int),
                decreases n - i,
            {
                match decode_isize(&items[i]) {
                    Some(x) => {
                        out.push(x);
                    },
                    None => {
                        proof {
                            assert forall|s: Seq<isize>| !isize_vec_rel(v@, s) by {
                                if isize_vec_rel(v@, s) {
                                    assert(iv[i as int] == JsonVal::Num(s[i as int] as int));
                                }
                            }
                        }
                        return None;
                    },
                }
                i += 1;
            }
            Some(out)
        },
        _ => None,
    }
}

/// Decodes an array of arrays of signed numbers.
pub fn decode_isize_vec_vec(v: &JsonValue) -> (r: Option<Vec<Vec<isize>>>)
    ensures
        r matches Some(xs) ==> isize_vec_vec_rel(v@, xs@),
        r is None ==> forall|s: Seq<Vec<isize>>| !isize_vec_vec_rel(v@, s),
{
    match v {
        JsonValue::Arr(items) => {
            proof {
                lemma_arr_view(JsonValue::Arr(*items));
            }
            let ghost iv = v@->Arr_0;
            let n = items.len();
            let mut out: Vec<Vec<isize>> = Vec::new();
            let mut i: usize = 0;
            while i < n
                invariant
                    i <= n,
                    n == items@.len(),
                    iv.len() == n,
                    forall|j: int| 0 <= j < n ==> iv[j] == (#[trigger] items@[j])@,
                    v@ == JsonVal::Arr(iv),
                    out@.len() == i,
                    forall|j: int| 0 <= j < i ==> isize_vec_rel(iv[j], (#[trigger] out@[j])@),
                decreases n - i,
            {
                match decode_isize_vec(&items[i]) {
                    Some(x) => {
                        out.push(x);
                    },
                    None => {
                        proof {
                            assert forall|s: Seq<Vec<isize>>| !isize_vec_vec_rel(v@, s) by {
                                if isize_vec_vec_rel(v@, s) {
                                    assert(isize_vec_rel(iv[i as int], s[i as int]@));
                                }
                            }
                        }
                        return None;
                    },
                }
                i += 1;
            }
            Some(out)
        },
        _ => None,
    }
}

/// Decodes an array of strings.
pub fn decode_string_vec(v: &JsonValue) -> (r: Option<Vec<String>>)
    ensures
        r matches Some(xs) ==> string_vec_rel(v@, xs@),
        r is None ==> forall|s: Seq<String>| !string_vec_rel(v@, s),
{
    match v {
        JsonValue::Arr(items) => {
            proof {
                lemma_arr_view(JsonValue::Arr(*items));
            }
            let ghost iv = v@->Arr_0;
            let n = items.len();
            let mut out: Vec<String> = Vec::new();
            let mut i: usize = 0;
            while i < n
                invariant
                    i <= n,
                    n == items@.len(),
                    iv.len() == n,
                    forall|j: int| 0 <= j < n ==> iv[j] == (#[trigger] items@[j])@,
                    v@ == JsonVal::Arr(iv),
                    out@.len() == i,
                    forall|j: int| 0 <= j < i ==> iv[j] == JsonVal::Str((#[trigger] out@[j])@),
                decreases n - i,
            {
                match decode_string(&items[i]) {
                    Some(x) => {
                        out.push(x);
                    },
                    None => {
                        proof {
                            assert forall|s: Seq<String>| !string_vec_rel(v@, s) by {
                                if string_vec_rel(v@, s) {
                                    assert(iv[i as int] == JsonVal::Str(s[i as int]@));
                                }
                            }
                        }
                        return None;
                    },
                }
                i += 1;
            }
            Some(out)
        },
        _ => None,
    }
}

/// Looks a key up among the members of an object, scanning left to right.
pub fn obj_get<'a>(pairs: &'a Vec<(String, JsonValue)>, key: &String) -> (r: Option<
    &'a JsonValue,
>)
    ensures
        r matches Some(x) ==> spec_lookup(members_view(pairs@), key@) == Some(x@),
        r is None ==> spec_lookup(members_view(pairs@), key@) is None,
{
    let n = pairs.len();
    let mut i: usize = 0;
    proof {
        assert(members_view(pairs@).skip(0) =~= members_view(pairs@));
    }
    while i < n
        invariant
            i <= n,
            n == pairs@.len(),
            spec_lookup(members_view(pairs@), key@) == spec_lookup(
                members_view(pairs@).skip(i as int),
                key@,
            ),
        decreases n - i,
    {
        proof {
            assert(members_view(pairs@).skip(i as int)[0] == members_view(pairs@)[i as int]);
            assert(members_view(pairs@)[i as int] == JsonMemberV {
                key: pairs@[i as int].0@,
                val: pairs@[i as int].1@,
            });
        }
        if pairs[i].0 == *key {
            proof {
                assert(members_view(pairs@).skip(i as int).len() > 0);
                assert(spec_lookup(members_view(pairs@).skip(i as int), key@) == Some(
                    members_view(pairs@).skip(i as int)[0].val,
                ));
            }
            return Some(&pairs[i].1);
        }
        proof {
            assert(members_view(pairs@).skip(i as int).drop_first() =~= members_view(pairs@).skip(
                i as int + 1,
            ));
        }
        i += 1;
    }
    proof {
        assert(members_view(pairs@).skip(n as int).len() == 0);
    }
    None
}

/// Looks up a field that must be an unsigned number.
pub fn get_usize_field(pairs: &Vec<(String, JsonValue)>, key: &'static str) -> (r: Option<usize>)
    ensures
        r matches Some(x) ==> spec_lookup(members_view(pairs@), key@) == Some(
            JsonVal::Num(x as int),
        ),
        r is None ==> forall|x: usize| spec_lookup(members_view(pairs@), key@) != Some(
            JsonVal::Num(x as int),
        ),
{
    let ks = String::from_str(key);
    match obj_get(pairs, &ks) {
        None => None,
        Some(x) => decode_usize(x),
    }
}

/// Looks up a field that must be an unsigned 64-bit number.
pub fn get_u64_field(pairs: &Vec<(String, JsonValue)>, key: &'static str) -> (r: Option<u64>)
    ensures
        r matches Some(x) ==> spec_lookup(members_view(pairs@), key@) == Some(
            JsonVal::Num(x as int),
        ),
        r is None ==> forall|x: u64| spec_lookup(members_view(pairs@), key@) != Some(
            JsonVal::Num(x as int),
        ),
{
    let ks = String::from_str(key);
    match obj_get(pairs, &ks) {
        None => None,
        Some(x) => decode_u64(x),
    }
}

/// Looks up a field that must be a signed 64-bit number.
pub fn get_i64_field(pairs: &Vec<(String, JsonValue)>, key: &'static str) -> (r: Option<i64>)
    ensures
        r matches Some(x) ==> spec_lookup(members_view(pairs@), key@) == Some(
            JsonVal::Num(x as int),
        ),
        r is None ==> forall|x: i64| spec_lookup(members_view(pairs@), key@) != Some(
            JsonVal::Num(x as int),
        ),
{
    let ks = String::from_str(key);
    match obj_get(pairs, &ks) {
        None => None,
        Some(x) => decode_i64(x),
    }
}

/// Looks up a field that must be a signed number.
pub fn get_isize_field(pairs: &Vec<(String, JsonValue)>, key: &'static str) -> (r: Option<isize>)
    ensures
        r matches Some(x) ==> spec_lookup(members_view(pairs@), key@) == Some(
            JsonVal::Num(x as int),
        ),
        r is None ==> forall|x: isize| spec_lookup(members_view(pairs@), key@) != Some(
            JsonVal::Num(x as int),
        ),
{
    let ks = String::from_str(key);
    match obj_get(pairs, &ks) {
        None => None,
        Some(x) => decode_isize(x),
    }
}

/// Looks up a field that must be a string.
pub fn get_string_field(pairs: &Vec<(String, JsonValue)>, key: &'static str) -> (r: Option<
    String,
>)
    ensures
        r matches Some(s) ==> spec_lookup(members_view(pairs@), key@) == Some(JsonVal::Str(s@)),
        r is None ==> forall|t: Seq<char>| spec_lookup(members_view(pairs@), key@) != Some(
            JsonVal::Str(t),
        ),
{
    let ks = String::from_str(key);
    match obj_get(pairs, &ks) {
        None => None,
        Some(x) => decode_string(x),
    }
}

/// Looks up a field that must be an array of strings.
pub fn get_string_vec_field(pairs: &Vec<(String, JsonValue)>, key: &'static str) -> (r: Option<
    Vec<String>,
>)
    ensures
        r matches Some(xs) ==> (spec_lookup(members_view(pairs@), key@) matches Some(x)
            && string_vec_rel(x, xs@)),
        r is None ==> (spec_lookup(members_view(pairs@), key@) matches Some(x) ==> forall|
            s: Seq<String>,
        | !#[trigger] string_vec_rel(x, s)),
{
    let ks = String::from_str(key);
    match obj_get(pairs, &ks) {
        None => None,
        Some(x) => decode_string_vec(x),
    }
}

/// Looks up a field that must be an array of signed numbers.
pub fn get_isize_vec_field(pairs: &Vec<(String, JsonValue)>, key: &'static str) -> (r: Option<
    Vec<isize>,
>)
    ensures
        r matches Some(xs) ==> (spec_lookup(members_view(pairs@), key@) matches Some(x)
            && isize_vec_rel(x, xs@)),
        r is None ==> (spec_lookup(members_view(pairs@), key@) matches Some(x) ==> forall|
            s: Seq<isize>,
        | !#[trigger] isize_vec_rel(x, s)),
{
    let ks = String::from_str(key);
    match obj_get(pairs, &ks) {
        None => None,
        Some(x) => decode_isize_vec(x),
    }
}

/// A JSON object of one member.
pub fn obj1(k1: &'static str, v1: JsonValue) -> (r: JsonValue)
    ensures
        r@ == JsonVal::Obj(seq![JsonMemberV { key: k1@, val: v1@ }]),
{
    let ghost m1 = JsonMemberV { key: k1@, val: v1@ };
    let mut pairs: Vec<(String, JsonValue)> = Vec::new();
    push_member(&mut pairs, k1, v1);
    let out = JsonValue::Obj(pairs);
    proof {
        lemma_obj_view(out);
        assert(members_view(Seq::<(String, JsonValue)>::empty()) =~= Seq::<JsonMemberV>::empty());
        assert(members_view(out->Obj_0@) =~= seq![m1]);
    }
    out
}

/// A JSON object of two members.
pub fn obj2(k1: &'static str, v1: JsonValue, k2: &'static str, v2: JsonValue) -> (r: JsonValue)
    ensures
        r@ == JsonVal::Obj(
            seq![JsonMemberV { key: k1@, val: v1@ }, JsonMemberV { key: k2@, val: v2@ }],
        ),
{
    let ghost m1 = JsonMemberV { key: k1@, val: v1@ };
    let ghost m2 = JsonMemberV { key: k2@, val: v2@ };
    let mut pairs: Vec<(String, JsonValue)> = Vec::new();
    push_member(&mut pairs, k1, v1);
    push_member(&mut pairs, k2, v2);
    let out = JsonValue::Obj(pairs);
    proof {
        lemma_obj_view(out);
        assert(members_view(Seq::<(String, JsonValue)>::empty()) =~= Seq::<JsonMemberV>::empty());
        assert(members_view(out->Obj_0@) =~= seq![m1, m2]);
    }
    out
}

/// A JSON object of three members.
pub fn obj3(
    k1: &'static str,
    v1: JsonValue,
    k2: &'static str,
    v2: JsonValue,
    k3: &'static str,
    v3: JsonValue,
) -> (r: JsonValue)
    ensures
        r@ == JsonVal::Obj(
            seq![
                JsonMemberV { key: k1@, val: v1@ },
                JsonMemberV { key: k2@, val: v2@ },
                JsonMemberV { key: k3@, val: v3@ },
            ],
        ),
{
    let ghost m1 = JsonMemberV { key: k1@, val: v1@ };
    let ghost m2 = JsonMemberV { key: k2@, val: v2@ };
    let ghost m3 = JsonMemberV { key: k3@, val: v3@ };
    let mut pairs: Vec<(String, JsonValue)> = Vec::new();
    push_member(&mut pairs, k1, v1);
    push_member(&mut pairs, k2, v2);
    push_member(&mut pairs, k3, v3);
    let out = JsonValue::Obj(pairs);
    proof {
        lemma_obj_view(out);
        assert(members_view(Seq::<(String, JsonValue)>::empty()) =~= Seq::<JsonMemberV>::empty());
        assert(members_view(out->Obj_0@) =~= seq![m1, m2, m3]);
    }
    out
}

} // verus!
