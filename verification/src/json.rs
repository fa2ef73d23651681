//! The JSON value model shared by every request and response envelope,
//! its canonical wire text, and a serializer proved to emit exactly that text.
use vstd::prelude::*;

verus! {

broadcast use
    vstd::std_specs::vec::axiom_vec_index_decreases,
    vstd::std_specs::vec::axiom_vec_decreases_to_view,
    vstd::seq::axiom_seq_index_decreases,
    vstd::seq::axiom_seq_subrange_decreases;

/// A JSON value as it travels on the wire. Numbers are integers: the
/// protocol's identifiers, counts and intervals are all integral.
pub enum JsonValue {
    Null,
    Bool(bool),
    Num(i128),
    Str(String),
    Arr(Vec<JsonValue>),
    Obj(Vec<(String, JsonValue)>),
}

/// The mathematical shape of a [`JsonValue`]: strings become character
/// sequences and vectors become sequences, so values compare extensionally.
pub enum JsonVal {
    Null,
    Bool(bool),
    Num(int),
    Str(Seq<char>),
    Arr(Seq<JsonVal>),
    Obj(Seq<JsonMemberV>),
}

/// One member of a JSON object at the mathematical level.
pub struct JsonMemberV {
    pub key: Seq<char>,
    pub val: JsonVal,
}

impl View for JsonValue {
    type V = JsonVal;

    open spec fn view(&self) -> JsonVal
        decreases self,
    {
        match self {
            JsonValue::Null => JsonVal::Null,
            JsonValue::Bool(b) => JsonVal::Bool(*b),
            JsonValue::Num(n) => JsonVal::Num(*n as int),
            JsonValue::Str(s) => JsonVal::Str(s@),
            JsonValue::Arr(items) => JsonVal::Arr(
                Seq::new(
                    items@.len(),
                    |i: int|
                        if 0 <= i < items@.len() {
                            items@[i]@
                        } else {
                            JsonVal::Null
                        },
                ),
            ),
            JsonValue::Obj(pairs) => JsonVal::Obj(
                Seq::new(
                    pairs@.len(),
                    |i: int|
                        if 0 <= i < pairs@.len() {
                            JsonMemberV { key: pairs@[i].0@, val: pairs@[i].1@ }
                        } else {
                            JsonMemberV { key: Seq::empty(), val: JsonVal::Null }
                        },
                ),
            ),
        }
    }
}

/// A value the wire can carry back into this model: every number fits the
/// executable integer width, recursively.
pub open spec fn json_wf(v: JsonVal) -> bool
    decreases v,
{
    match v {
        JsonVal::Null => true,
        JsonVal::Bool(_) => true,
        JsonVal::Num(n) => i128::MIN <= n <= i128::MAX,
        JsonVal::Str(_) => true,
        JsonVal::Arr(items) => forall|i: int| 0 <= i < items.len() ==> json_wf(#[trigger] items[i]),
        JsonVal::Obj(pairs) => forall|i: int|
            0 <= i < pairs.len() ==> json_wf(#[trigger] pairs[i].val),
    }
}

/// The decimal digit character for `d`.
pub open spec fn digit_char(d: int) -> char {
    ((48 + d) as u8) as char
}

/// The lowercase hexadecimal digit character for `d`.
pub open spec fn hex_char(d: int) -> char {
    if d < 10 {
        ((48 + d) as u8) as char
    } else {
        ((87 + d) as u8) as char
    }
}

/// Decimal digits of a nonnegative integer, most significant first.
pub open spec fn spec_digits(n: int) -> Seq<char>
    decreases n,
{
    if n < 10 {
        seq![digit_char(n)]
    } else {
        spec_digits(n / 10) + seq![digit_char(n % 10)]
    }
}

/// Canonical text of a JSON integer.
pub open spec fn spec_num_chars(n: int) -> Seq<char> {
    if n < 0 {
        seq!['-'] + spec_digits(-n)
    } else {
        spec_digits(n)
    }
}

/// Canonical escape of one character inside a JSON string literal.
pub open spec fn spec_esc_char(c: char) -> Seq<char> {
    if c == '"' {
        seq!['\\', '"']
    } else if c == '\\' {
        seq!['\\', '\\']
    } else if (c as u32) < 32 {
        seq!['\\', 'u', '0', '0', hex_char((c as u32 / 16) as int), hex_char((c as u32 % 16) as int)]
    } else {
        seq![c]
    }
}

/// Canonical escape of a whole string body.
pub open spec fn spec_esc(s: Seq<char>) -> Seq<char>
    decreases s.len(),
{
    if s.len() == 0 {
        Seq::empty()
    } else {
        spec_esc_char(s[0]) + spec_esc(s.drop_first())
    }
}

/// Canonical text of a JSON string literal, quotes included.
pub open spec fn spec_quoted(s: Seq<char>) -> Seq<char> {
    seq!['"'] + spec_esc(s) + seq!['"']
}

/// Canonical wire text of a JSON value: no whitespace, keys in the order
/// given, `"` and `\` and control characters escaped.
pub open spec fn spec_json(v: JsonVal) -> Seq<char>
    decreases v,
{
    match v {
        JsonVal::Null => seq!['n', 'u', 'l', 'l'],
        JsonVal::Bool(b) => if b {
            seq!['t', 'r', 'u', 'e']
        } else {
            seq!['f', 'a', 'l', 's', 'e']
        },
        JsonVal::Num(n) => spec_num_chars(n),
        JsonVal::Str(s) => spec_quoted(s),
        JsonVal::Arr(items) => seq!['['] + spec_json_list(items) + seq![']'],
        JsonVal::Obj(pairs) => seq!['{'] + spec_json_members(pairs) + seq!['}'],
    }
}

/// Canonical text of comma-separated array items.
pub open spec fn spec_json_list(items: Seq<JsonVal>) -> Seq<char>
    decreases items,
{
    if items.len() == 0 {
        Seq::empty()
    } else if items.len() == 1 {
        spec_json(items[0])
    } else {
        spec_json(items[0]) + seq![','] + spec_json_list(items.drop_first())
    }
}

/// Canonical text of comma-separated object members.
pub open spec fn spec_json_members(pairs: Seq<JsonMemberV>) -> Seq<char>
    decreases pairs,
{
    if pairs.len() == 0 {
        Seq::empty()
    } else if pairs.len() == 1 {
        spec_member(pairs[0])
    } else {
        spec_member(pairs[0]) + seq![','] + spec_json_members(pairs.drop_first())
    }
}

/// Canonical text of one object member.
pub open spec fn spec_member(p: JsonMemberV) -> Seq<char>
    decreases p,
{
    spec_quoted(p.key) + seq![':'] + spec_json(p.val)
}

/// Appending one item to a nonempty list inserts one comma before its text.
pub proof fn lemma_list_push(s: Seq<JsonVal>, x: JsonVal)
    ensures
        spec_json_list(s.push(x)) == if s.len() == 0 {
            spec_json(x)
        } else {
            spec_json_list(s) + seq![','] + spec_json(x)
        },
    decreases s.len(),
{
    let sp = s.push(x);
    if s.len() == 0 {
        assert(sp.len() == 1);
        assert(sp[0] == x);
    } else if s.len() == 1 {
        assert(sp.drop_first() =~= seq![x]);
        assert(sp.drop_first()[0] == x);
        assert(spec_json_list(sp.drop_first()) == spec_json(x));
        assert(sp[0] == s[0]);
    } else {
        lemma_list_push(s.drop_first(), x);
        assert(sp.drop_first() =~= s.drop_first().push(x));
        assert(sp[0] == s[0]);
        assert(spec_json(s[0]) + seq![','] + (spec_json_list(s.drop_first()) + seq![','] + spec_json(
            x,
        )) =~= (spec_json(s[0]) + seq![','] + spec_json_list(s.drop_first())) + seq![','] + spec_json(
            x,
        ));
    }
}

/// Appending one member to a nonempty object body inserts one comma before it.
pub proof fn lemma_members_push(s: Seq<JsonMemberV>, x: JsonMemberV)
    ensures
        spec_json_members(s.push(x)) == if s.len() == 0 {
            spec_member(x)
        } else {
            spec_json_members(s) + seq![','] + spec_member(x)
        },
    decreases s.len(),
{
    let sp = s.push(x);
    if s.len() == 0 {
        assert(sp.len() == 1);
        assert(sp[0] == x);
    } else if s.len() == 1 {
        assert(sp.drop_first() =~= seq![x]);
        assert(sp.drop_first()[0] == x);
        assert(spec_json_members(sp.drop_first()) == spec_member(x));
        assert(sp[0] == s[0]);
    } else {
        lemma_members_push(s.drop_first(), x);
        assert(sp.drop_first() =~= s.drop_first().push(x));
        assert(sp[0] == s[0]);
        assert(spec_member(s[0]) + seq![','] + (spec_json_members(s.drop_first()) + seq![',']
            + spec_member(x)) =~= (spec_member(s[0]) + seq![','] + spec_json_members(s.drop_first()))
            + seq![','] + spec_member(x));
    }
}

/// Escaping distributes over appending one character.
pub proof fn lemma_esc_push(s: Seq<char>, c: char)
    ensures
        spec_esc(s.push(c)) == spec_esc(s) + spec_esc_char(c),
    decreases s.len(),
{
    let sp = s.push(c);
    if s.len() == 0 {
        assert(sp.drop_first() =~= Seq::<char>::empty());
        assert(sp[0] == c);
        assert(spec_esc(Seq::<char>::empty()) == Seq::<char>::empty());
        assert(spec_esc(sp) == spec_esc_char(c) + Seq::<char>::empty());
        assert(spec_esc_char(c) + Seq::<char>::empty() =~= spec_esc_char(c));
        assert(spec_esc(s) == Seq::<char>::empty());
        assert(Seq::<char>::empty() + spec_esc_char(c) =~= spec_esc_char(c));
    } else {
        lemma_esc_push(s.drop_first(), c);
        assert(sp.drop_first() =~= s.drop_first().push(c));
        assert(sp[0] == s[0]);
        assert(spec_esc_char(s[0]) + (spec_esc(s.drop_first()) + spec_esc_char(c)) =~= (spec_esc_char(
            s[0],
        ) + spec_esc(s.drop_first())) + spec_esc_char(c));
    }
}

/// The decimal digit for `d`, as executable code.
fn digit_to_char(d: u8) -> (c: char)
    requires
        d < 10,
    ensures
        c == digit_char(d as int),
{
    (48 + d) as char
}

/// The lowercase hexadecimal digit for `d`, as executable code.
fn hex_to_char(d: u8) -> (c: char)
    requires
        d < 16,
    ensures
        c == hex_char(d as int),
{
    if d < 10 {
        (48 + d) as char
    } else {
        (87 + d) as char
    }
}

/// Pushes the decimal digits of `n`, most significant first.
fn push_digits(n: u128, out: &mut Vec<char>)
    ensures
        final(out)@ == old(out)@ + spec_digits(n as int),
    decreases n,
{
    if n < 10 {
        out.push(digit_to_char(n as u8));
    } else {
        push_digits(n / 10, out);
        out.push(digit_to_char((n % 10) as u8));
        proof {
            assert(old(out)@ + spec_digits(n as int / 10) + seq![digit_char(n as int % 10)]
                =~= old(out)@ + (spec_digits(n as int / 10) + seq![digit_char(n as int % 10)]));
        }
    }
}

/// Pushes the canonical text of a JSON integer.
fn push_num(n: i128, out: &mut Vec<char>)
    ensures
        final(out)@ == old(out)@ + spec_num_chars(n as int),
{
    if n >= 0 {
        push_digits(n as u128, out);
    } else {
        out.push('-');
        let m: u128 = ((-(n + 1)) as u128) + 1;
        assert(m as int == -(n as int));
        push_digits(m, out);
        proof {
            assert(old(out)@ + seq!['-'] + spec_digits(m as int) =~= old(out)@ + (seq!['-']
                + spec_digits(m as int)));
        }
    }
}

/// Relies on str::chars: iterating a string slice yields exactly its
/// characters, in order.
#[verifier::external_body]
pub fn chars_of(s: &str) -> (out: Vec<char>)
    ensures
        out@ == s@,
{
    s.chars().collect()
}

/// Relies on String's FromIterator impl: collecting characters builds the
/// string of exactly those characters, in order.
#[verifier::external_body]
pub fn string_from_chars(cs: &Vec<char>) -> (out: String)
    ensures
        out@ == cs@,
{
    cs.iter().collect()
}

/// Pushes the canonical text of a JSON string literal, quotes included.
fn push_quoted(s: &str, out: &mut Vec<char>)
    ensures
        final(out)@ == old(out)@ + spec_quoted(s@),
{
    out.push('"');
    let cs = chars_of(s);
    let base: Ghost<Seq<char>> = Ghost(out@);
    proof {
        assert(base@ =~= old(out)@ + seq!['"']);
        assert(cs@.take(0) =~= Seq::<char>::empty());
        assert(spec_esc(Seq::<char>::empty()) == Seq::<char>::empty());
        assert(out@ =~= base@ + spec_esc(cs@.take(0)));
    }
    let mut k: usize = 0;
    while k < cs.len()
        invariant
            k <= cs.len(),
            cs@ == s@,
            base@ == old(out)@ + seq!['"'],
            out@ == base@ + spec_esc(cs@.take(k as int)),
        decreases cs.len() - k,
    {
        let c = cs[k];
        if c == '"' {
            out.push('\\');
            out.push('"');
        } else if c == '\\' {
            out.push('\\');
            out.push('\\');
        } else {
            let x = c as u32;
            if x < 32 {
                out.push('\\');
                out.push('u');
                out.push('0');
                out.push('0');
                out.push(hex_to_char((x / 16) as u8));
                out.push(hex_to_char((x % 16) as u8));
            } else {
                out.push(c);
            }
        }
        proof {
            lemma_esc_push(cs@.take(k as int), cs@[k as int]);
            assert(cs@.take(k as int + 1) =~= cs@.take(k as int).push(cs@[k as int]));
            assert(base@ + spec_esc(cs@.take(k as int)) + spec_esc_char(cs@[k as int]) =~= base@
                + spec_esc(cs@.take(k as int + 1)));
        }
        k += 1;
    }
    out.push('"');
    proof {
        assert(cs@.take(cs@.len() as int) =~= s@);
        assert(base@ + spec_esc(s@) + seq!['"'] =~= old(out)@ + spec_quoted(s@));
    }
}

/// Pushes the canonical text of a JSON value.
fn push_json(v: &JsonValue, out: &mut Vec<char>)
    ensures
        final(out)@ == old(out)@ + spec_json(v@),
    decreases v,
{
    match v {
        JsonValue::Null => {
            out.push('n');
            out.push('u');
            out.push('l');
            out.push('l');
            proof {
                assert(out@ =~= old(out)@ + spec_json(v@));
            }
        },
        JsonValue::Bool(b) => {
            if *b {
                out.push('t');
                out.push('r');
                out.push('u');
                out.push('e');
            } else {
                out.push('f');
                out.push('a');
                out.push('l');
                out.push('s');
                out.push('e');
            }
            proof {
                assert(out@ =~= old(out)@ + spec_json(v@));
            }
        },
        JsonValue::Num(n) => {
            push_num(*n, out);
        },
        JsonValue::Str(s) => {
            push_quoted(s.as_str(), out);
        },
        JsonValue::Arr(items) => {
            let ghost iv = v@->Arr_0;
            proof {
                assert(v@ is Arr);
                assert(v@ == JsonVal::Arr(iv));
                assert(iv.len() == items@.len());
                assert(forall|j: int| 0 <= j < items@.len() ==> iv[j] == #[trigger] items@[j]@);
            }
            out.push('[');
            let base: Ghost<Seq<char>> = Ghost(out@);
            proof {
                assert(base@ =~= old(out)@ + seq!['[']);
                assert(iv.take(0) =~= Seq::<JsonVal>::empty());
                assert(spec_json_list(Seq::<JsonVal>::empty()) == Seq::<char>::empty());
                assert(out@ =~= base@ + spec_json_list(iv.take(0)));
            }
            let mut i: usize = 0;
            while i < items.len()
                invariant
                    i <= items.len(),
                    iv.len() == items@.len(),
                    forall|j: int| 0 <= j < items@.len() ==> iv[j] == #[trigger] items@[j]@,
                    base@ == old(out)@ + seq!['['],
                    out@ == base@ + spec_json_list(iv.take(i as int)),
                    v@ == JsonVal::Arr(iv),
                    *v is Arr,
                    *items == (*v)->Arr_0,
                decreases items.len() - i,
            {
                if i > 0 {
                    out.push(',');
                }
                proof {
                    assert(decreases_to!(*v => (*v)->Arr_0));
                    assert(decreases_to!(*items => items@));
                    assert(decreases_to!(items@ => items@[i as int]));
                    assert(decreases_to!(*v => items@[i as int]));
                }
                push_json(&items[i], out);
                proof {
                    lemma_list_push(iv.take(i as int), iv[i as int]);
                    assert(iv.take(i as int + 1) =~= iv.take(i as int).push(iv[i as int]));
                    if i == 0 {
                        assert(base@ + spec_json(iv[0]) =~= base@ + spec_json_list(iv.take(1)));
                    } else {
                        assert(base@ + spec_json_list(iv.take(i as int)) + seq![','] + spec_json(
                            iv[i as int],
                        ) =~= base@ + spec_json_list(iv.take(i as int + 1)));
                    }
                }
                i += 1;
            }
            out.push(']');
            proof {
                assert(iv.take(iv.len() as int) =~= iv);
                assert(base@ + spec_json_list(iv) + seq![']'] =~= old(out)@ + spec_json(v@));
            }
        },
        JsonValue::Obj(pairs) => {
            let ghost pv = v@->Obj_0;
            proof {
                assert(*v is Obj);
                assert(*pairs == (*v)->Obj_0);
                assert(v@ is Obj);
                assert(v@ == JsonVal::Obj(pv));
                assert(pv.len() == pairs@.len());
                assert(forall|j: int|
                    0 <= j < pairs@.len() ==> pv[j] == (JsonMemberV {
                        key: #[trigger] pairs@[j].0@,
                        val: pairs@[j].1@,
                    }));
            }
            out.push('{');
            let base: Ghost<Seq<char>> = Ghost(out@);
            proof {
                assert(base@ =~= old(out)@ + seq!['{']);
                assert(pv.take(0) =~= Seq::<JsonMemberV>::empty());
                assert(spec_json_members(Seq::<JsonMemberV>::empty()) == Seq::<char>::empty());
                assert(out@ =~= base@ + spec_json_members(pv.take(0)));
            }
            let mut i: usize = 0;
            while i < pairs.len()
                invariant
                    i <= pairs.len(),
                    pv.len() == pairs@.len(),
                    forall|j: int|
                        0 <= j < pairs@.len() ==> pv[j] == (JsonMemberV {
                            key: #[trigger] pairs@[j].0@,
                            val: pairs@[j].1@,
                        }),
                    base@ == old(out)@ + seq!['{'],
                    out@ == base@ + spec_json_members(pv.take(i as int)),
                    v@ == JsonVal::Obj(pv),
                    *v is Obj,
                    *pairs == (*v)->Obj_0,
                decreases pairs.len() - i,
            {
                if i > 0 {
                    out.push(',');
                }
                push_quoted(pairs[i].0.as_str(), out);
                out.push(':');
                proof {
                    assert(decreases_to!(*v => (*v)->Obj_0));
                    assert(decreases_to!(*pairs => pairs@));
                    assert(decreases_to!(pairs@ => pairs@[i as int]));
                    assert(decreases_to!(*v => pairs@[i as int].1));
                }
                push_json(&pairs[i].1, out);
                proof {
                    lemma_members_push(pv.take(i as int), pv[i as int]);
                    assert(pv.take(i as int + 1) =~= pv.take(i as int).push(pv[i as int]));
                    assert(spec_member(pv[i as int]) == spec_quoted(pairs@[i as int].0@) + seq![':']
                        + spec_json(pairs@[i as int].1@));
                    assert(pv[i as int].key == pairs@[i as int].0@);
                    assert(pv[i as int].val == pairs@[i as int].1@);
                    if i == 0 {
                        assert(base@ + spec_quoted(pv[0].key) + seq![':'] + spec_json(pv[0].val)
                            =~= base@ + spec_json_members(pv.take(1)));
                    } else {
                        assert(base@ + spec_json_members(pv.take(i as int)) + seq![','] + spec_quoted(
                            pv[i as int].key,
                        ) + seq![':'] + spec_json(pv[i as int].val) =~= base@ + spec_json_members(
                            pv.take(i as int + 1),
                        ));
                    }
                }
                i += 1;
            }
            out.push('}');
            proof {
                assert(pv.take(pv.len() as int) =~= pv);
                assert(base@ + spec_json_members(pv) + seq!['}'] =~= old(out)@ + spec_json(v@));
            }
        },
    }
}

/// The canonical wire text of a JSON value, as a character vector.
pub fn json_chars(v: &JsonValue) -> (out: Vec<char>)
    ensures
        out@ == spec_json(v@),
{
    let mut out: Vec<char> = Vec::new();
    push_json(v, &mut out);
    proof {
        assert(Seq::<char>::empty() + spec_json(v@) =~= spec_json(v@));
    }
    out
}

/// The views of a sequence of values, elementwise.
pub open spec fn seq_view(s: Seq<JsonValue>) -> Seq<JsonVal> {
    Seq::new(
        s.len(),
        |i: int|
            if 0 <= i < s.len() {
                s[i]@
            } else {
                JsonVal::Null
            },
    )
}

/// The views of a sequence of key-value pairs, elementwise.
pub open spec fn members_view(s: Seq<(String, JsonValue)>) -> Seq<JsonMemberV> {
    Seq::new(
        s.len(),
        |i: int|
            if 0 <= i < s.len() {
                JsonMemberV { key: s[i].0@, val: s[i].1@ }
            } else {
                JsonMemberV { key: Seq::empty(), val: JsonVal::Null }
            },
    )
}

/// An array value views to the elementwise view of its items.
pub proof fn lemma_arr_view(v: JsonValue)
    requires
        v is Arr,
    ensures
        v@ == JsonVal::Arr(seq_view(v->Arr_0@)),
{
    assert(v@->Arr_0 =~= seq_view(v->Arr_0@));
}

/// An object value views to the elementwise view of its members.
pub proof fn lemma_obj_view(v: JsonValue)
    requires
        v is Obj,
    ensures
        v@ == JsonVal::Obj(members_view(v->Obj_0@)),
{
    assert(v@->Obj_0 =~= members_view(v->Obj_0@));
}

/// Elementwise views commute with appending one value.
pub proof fn lemma_seq_view_push(s: Seq<JsonValue>, x: JsonValue)
    ensures
        seq_view(s.push(x)) == seq_view(s).push(x@),
{
    assert(seq_view(s.push(x)) =~= seq_view(s).push(x@));
}

/// Elementwise views commute with appending one member.
pub proof fn lemma_members_view_push(s: Seq<(String, JsonValue)>, x: (String, JsonValue))
    ensures
        members_view(s.push(x)) == members_view(s).push(JsonMemberV { key: x.0@, val: x.1@ }),
{
    assert(members_view(s.push(x)) =~= members_view(s).push(JsonMemberV { key: x.0@, val: x.1@ }));
}

} // verus!
