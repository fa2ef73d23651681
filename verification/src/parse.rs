//! A JSON parser for the response wire text, proved complete on canonical
//! text: parsing the canonical text of any well-formed value yields exactly
//! that value. This is the decoding half of the wire round trip.
use vstd::prelude::*;
use crate::json::{
    digit_char, spec_digits, spec_esc, spec_esc_char, spec_json, spec_json_list,
    spec_json_members, spec_member, spec_quoted, hex_char, json_wf, lemma_arr_view,
    lemma_members_view_push, lemma_obj_view, lemma_seq_view_push, members_view, seq_view,
    JsonMemberV, JsonVal, JsonValue,
};

verus! {

/// JSON insignificant whitespace.
pub open spec fn is_ws(c: char) -> bool {
    c == ' ' || c == '\t' || c == '\n' || c == '\r'
}

/// A decimal digit character.
pub open spec fn is_digit(c: char) -> bool {
    48 <= (c as u32) <= 57
}

/// Position `j` does not continue a digit run.
pub open spec fn digit_terminated(s: Seq<char>, j: int) -> bool {
    j == s.len() || !is_digit(s[j])
}

/// The canonical text of `v` stands at position `i` of `s`, followed by
/// nothing that could extend a number.
pub open spec fn value_at(s: Seq<char>, i: int, v: JsonVal) -> bool {
    &&& json_wf(v)
    &&& i + spec_json(v).len() <= s.len()
    &&& s.subrange(i, i + spec_json(v).len()) == spec_json(v)
    &&& digit_terminated(s, i + spec_json(v).len())
}

/// Numeric value of a digit run, most significant first.
pub open spec fn val_digits(s: Seq<char>) -> int
    decreases s.len(),
{
    if s.len() == 0 {
        0
    } else {
        val_digits(s.drop_last()) * 10 + (s.last() as u32 - 48)
    }
}

/// Digit runs: every character is a digit, the run is nonempty, and it
/// reads back as the number it prints.
pub proof fn lemma_digits_props(n: int)
    requires
        n >= 0,
    ensures
        spec_digits(n).len() >= 1,
        forall|i: int| 0 <= i < spec_digits(n).len() ==> is_digit(#[trigger] spec_digits(n)[i]),
        val_digits(spec_digits(n)) == n,
    decreases n,
{
    if n < 10 {
        let c = digit_char(n);
        let sd = seq![c];
        assert(spec_digits(n) == sd);
        assert(c as u32 == 48 + n);
        assert(is_digit(c));
        assert(sd.drop_last() =~= Seq::<char>::empty());
        assert(sd.last() == c);
        assert(val_digits(Seq::<char>::empty()) == 0);
        assert(val_digits(sd) == val_digits(sd.drop_last()) * 10 + (sd.last() as u32 - 48));
    } else {
        lemma_digits_props(n / 10);
        let head = spec_digits(n / 10);
        let d = digit_char(n % 10);
        assert(spec_digits(n) == head + seq![d]);
        assert((head + seq![d]).drop_last() =~= head);
        assert((head + seq![d]).last() == d);
        assert(forall|i: int|
            0 <= i < head.len() ==> (head + seq![d])[i] == #[trigger] head[i]);
        assert(is_digit(d));
        assert(val_digits(spec_digits(n)) == n / 10 * 10 + n % 10);
        assert(n / 10 * 10 + n % 10 == n) by (nonlinear_arith)
            requires
                n >= 0,
        ;
    }
}

/// The value of a nonempty prefix of a digit run never exceeds the number.
pub proof fn lemma_digits_prefix(n: int, k: int)
    requires
        n >= 0,
        1 <= k <= spec_digits(n).len(),
    ensures
        val_digits(spec_digits(n).take(k)) <= n,
    decreases n,
{
    lemma_digits_props(n);
    if k == spec_digits(n).len() {
        assert(spec_digits(n).take(k) =~= spec_digits(n));
    } else {
        assert(n >= 10);
        let head = spec_digits(n / 10);
        let d = digit_char(n % 10);
        assert(spec_digits(n) == head + seq![d]);
        assert(k <= head.len());
        assert(spec_digits(n).take(k) =~= head.take(k));
        lemma_digits_prefix(n / 10, k);
        assert(n / 10 <= n);
    }
}

/// Extending a digit run by one digit multiplies its value by ten.
pub proof fn lemma_val_digits_push(s: Seq<char>, c: char)
    ensures
        val_digits(s.push(c)) == val_digits(s) * 10 + (c as u32 - 48),
{
    assert(s.push(c).drop_last() =~= s);
    assert(s.push(c).last() == c);
}

/// Canonical text is never empty, its first character classifies the value,
/// and that character is never whitespace.
pub proof fn lemma_json_first(v: JsonVal)
    ensures
        spec_json(v).len() >= 1,
        !is_ws(spec_json(v)[0]),
        v is Null ==> spec_json(v)[0] == 'n',
        v is Bool ==> (spec_json(v)[0] == 't' || spec_json(v)[0] == 'f'),
        v is Num ==> (spec_json(v)[0] == '-' || is_digit(spec_json(v)[0])),
        v is Str ==> spec_json(v)[0] == '"',
        v is Arr ==> spec_json(v)[0] == '[',
        v is Obj ==> spec_json(v)[0] == '{',
        (v is Null || v is Bool || v is Str || v is Arr || v is Obj) ==> !is_digit(
            spec_json(v)[0],
        ) && spec_json(v)[0] != '-',
{
    match v {
        JsonVal::Null => {},
        JsonVal::Bool(b) => {},
        JsonVal::Num(n) => {
            if n < 0 {
                lemma_digits_props(-n);
                assert(spec_json(v)[0] == '-');
            } else {
                lemma_digits_props(n);
                assert(spec_json(v) == spec_digits(n));
                assert(is_digit(spec_json(v)[0]));
            }
        },
        JsonVal::Str(s) => {
            assert(spec_json(v) == spec_quoted(s));
            assert(spec_quoted(s)[0] == '"');
        },
        JsonVal::Arr(items) => {
            assert(spec_json(v)[0] == '[');
        },
        JsonVal::Obj(pairs) => {
            assert(spec_json(v)[0] == '{');
        },
    }
}

/// Whether `c` is JSON whitespace, as executable code.
fn is_ws_char(c: char) -> (r: bool)
    ensures
        r == is_ws(c),
{
    c == ' ' || c == '\t' || c == '\n' || c == '\r'
}

/// Whether `c` is a decimal digit, as executable code.
fn is_digit_char(c: char) -> (r: bool)
    ensures
        r == is_digit(c),
{
    let x = c as u32;
    48 <= x && x <= 57
}

/// Skips insignificant whitespace; stands still on anything else.
fn skip_ws(s: &Vec<char>, i: usize) -> (j: usize)
    requires
        i <= s@.len(),
    ensures
        i <= j <= s@.len(),
        forall|m: int| i <= m < j ==> is_ws(#[trigger] s@[m]),
        j == s@.len() || !is_ws(s@[j as int]),
        (i < s@.len() && !is_ws(s@[i as int])) ==> j == i,
{
    let mut j: usize = i;
    while j < s.len() && is_ws_char(s[j])
        invariant
            i <= j <= s@.len(),
            forall|m: int| i <= m < j ==> is_ws(#[trigger] s@[m]),
        decreases s@.len() - j,
    {
        j += 1;
    }
    j
}

/// Parses one JSON number starting at `i`, which must hold `-` or a digit.
fn parse_number(s: &Vec<char>, i: usize) -> (r: Option<(JsonValue, usize)>)
    requires
        i < s@.len(),
        s@[i as int] == '-' || is_digit(s@[i as int]),
    ensures
        forall|v: JsonVal| value_at(s@, i as int, v) ==> (r matches Some(p) && p.0@ == v && p.1
            == i + spec_json(v).len()),
        r matches Some(p) ==> i < p.1 <= s@.len(),
{
    // The length fits a machine word, which bounds the positions below.
    let _n = s.len();
    let neg = s[i] == '-';
    let numstart: usize = if neg {
        i + 1
    } else {
        i
    };
    let mut k: usize = numstart;
    let mut acc: u128 = 0;
    proof {
        assert(s@.subrange(numstart as int, numstart as int) =~= Seq::<char>::empty());
    }
    while k < s.len() && is_digit_char(s[k])
        invariant
            i <= numstart <= k <= s@.len(),
            numstart == if neg {
                i + 1
            } else {
                i as int
            },
            neg ==> s@[i as int] == '-',
            !neg ==> is_digit(s@[i as int]),
            i < s@.len(),
            forall|m: int| numstart <= m < k ==> is_digit(#[trigger] s@[m]),
            acc == val_digits(s@.subrange(numstart as int, k as int)),
        decreases s@.len() - k,
    {
        let d: u128 = (s[k] as u32 - 48) as u128;
        if acc > (u128::MAX - d) / 10 {
            proof {
                refute_number_overflow(s@, i as int, numstart as int, k as int, neg, acc, d as int);
            }
            return None;
        }
        acc = acc * 10 + d;
        proof {
            lemma_val_digits_push(s@.subrange(numstart as int, k as int), s@[k as int]);
            assert(s@.subrange(numstart as int, k as int + 1) =~= s@.subrange(
                numstart as int,
                k as int,
            ).push(s@[k as int]));
        }
        k += 1;
    }
    if k == numstart {
        proof {
            refute_number_empty(s@, i as int, numstart as int, neg);
        }
        return None;
    }
    let x: i128;
    if neg {
        if acc > i128::MAX as u128 + 1 {
            proof {
                refute_number_range(s@, i as int, numstart as int, k as int, neg, acc);
            }
            return None;
        }
        if acc == i128::MAX as u128 + 1 {
            x = i128::MIN;
        } else {
            x = -(acc as i128);
        }
    } else {
        if acc > i128::MAX as u128 {
            proof {
                refute_number_range(s@, i as int, numstart as int, k as int, neg, acc);
            }
            return None;
        }
        x = acc as i128;
    }
    proof {
        finish_number(s@, i as int, numstart as int, k as int, neg, acc, x as int);
    }
    Some((JsonValue::Num(x), k))
}

/// Under `value_at`, the standing value is a number whose sign matches the
/// leading character, and its digit run spans exactly up to its terminator.
proof fn number_shape(s: Seq<char>, i: int, numstart: int, neg: bool, v: JsonVal) -> (a: int)
    requires
        value_at(s, i, v),
        0 <= i < s.len(),
        neg ==> s[i] == '-',
        !neg ==> is_digit(s[i]),
        numstart == if neg {
            i + 1
        } else {
            i
        },
    ensures
        v is Num,
        a == if v->Num_0 < 0 {
            -v->Num_0
        } else {
            v->Num_0
        },
        a >= 0,
        (v->Num_0 < 0) == neg,
        numstart + spec_digits(a).len() == i + spec_json(v).len(),
        s.subrange(numstart, numstart + spec_digits(a).len()) == spec_digits(a),
        forall|m: int| numstart <= m < numstart + spec_digits(a).len() ==> is_digit(#[trigger] s[m]),
        digit_terminated(s, numstart + spec_digits(a).len()),
        a <= 0x8000_0000_0000_0000_0000_0000_0000_0000,
        neg ==> a >= 1,
{
    lemma_json_first(v);
    assert(s[i] == spec_json(v)[0]);
    assert(v is Num);
    let n = v->Num_0;
    let a = if n < 0 {
        -n
    } else {
        n
    };
    lemma_digits_props(a);
    let dl = spec_digits(a).len() as int;
    let l = spec_json(v).len() as int;
    assert(forall|m: int| 0 <= m < l ==> s[i + m] == #[trigger] spec_json(v)[m]) by {
        assert(forall|m: int|
            0 <= m < l ==> s.subrange(i, i + l)[m] == #[trigger] spec_json(v)[m]);
    }
    if n < 0 {
        assert(spec_json(v) == seq!['-'] + spec_digits(a));
        assert(spec_json(v)[0] == '-');
        assert(!is_digit('-'));
        assert(neg);
        assert forall|m: int| 0 <= m < dl implies s.subrange(numstart, numstart + dl)[m]
            == spec_digits(a)[m] by {
            assert(s[i + (m + 1)] == spec_json(v)[m + 1]);
            assert(spec_json(v)[m + 1] == spec_digits(a)[m]);
        }
        assert(s.subrange(numstart, numstart + dl) =~= spec_digits(a));
        assert(a >= 1);
    } else {
        assert(spec_json(v) == spec_digits(a));
        if neg {
            assert(is_digit(spec_json(v)[0]));
            assert(false);
        }
        assert forall|m: int| 0 <= m < dl implies s.subrange(numstart, numstart + dl)[m]
            == spec_digits(a)[m] by {
            assert(s[i + m] == spec_json(v)[m]);
        }
        assert(s.subrange(numstart, numstart + dl) =~= spec_digits(a));
    }
    assert forall|m: int| numstart <= m < numstart + dl implies is_digit(#[trigger] s[m]) by {
        assert(s.subrange(numstart, numstart + dl)[m - numstart] == spec_digits(a)[m - numstart]);
        assert(s[m] == spec_digits(a)[m - numstart]);
    }
    assert(json_wf(v));
    a
}

/// No standing value can drive the accumulator past the machine width.
proof fn refute_number_overflow(
    s: Seq<char>,
    i: int,
    numstart: int,
    k: int,
    neg: bool,
    acc: u128,
    d: int,
)
    requires
        0 <= i < s.len(),
        neg ==> s[i] == '-',
        !neg ==> is_digit(s[i]),
        numstart == if neg {
            i + 1
        } else {
            i
        },
        numstart <= k < s.len(),
        is_digit(s[k]),
        forall|m: int| numstart <= m < k ==> is_digit(#[trigger] s[m]),
        acc == val_digits(s.subrange(numstart, k)),
        d == s[k] as u32 - 48,
        acc * 10 + d > u128::MAX,
    ensures
        forall|v: JsonVal| !value_at(s, i, v),
{
    assert forall|v: JsonVal| !value_at(s, i, v) by {
        if value_at(s, i, v) {
            let a = number_shape(s, i, numstart, neg, v);
            let dl = spec_digits(a).len() as int;
            if k >= numstart + dl {
                assert(numstart + dl < s.len());
                assert(is_digit(s[numstart + dl]));
                assert(!is_digit(s[numstart + dl]));
            }
            assert(k < numstart + dl);
            assert(s.subrange(numstart, k + 1) =~= spec_digits(a).take(k + 1 - numstart));
            lemma_val_digits_push(s.subrange(numstart, k), s[k]);
            assert(s.subrange(numstart, k + 1) =~= s.subrange(numstart, k).push(s[k]));
            lemma_digits_prefix(a, k + 1 - numstart);
            assert(acc * 10 + d == val_digits(spec_digits(a).take(k + 1 - numstart)));
            assert(acc * 10 + d <= a);
        }
    }
}

/// No standing value has an empty digit run.
proof fn refute_number_empty(s: Seq<char>, i: int, numstart: int, neg: bool)
    requires
        0 <= i < s.len(),
        neg ==> s[i] == '-',
        !neg ==> is_digit(s[i]),
        numstart == if neg {
            i + 1
        } else {
            i
        },
        numstart == s.len() || !is_digit(s[numstart]),
    ensures
        forall|v: JsonVal| !value_at(s, i, v),
{
    assert forall|v: JsonVal| !value_at(s, i, v) by {
        if value_at(s, i, v) {
            let a = number_shape(s, i, numstart, neg, v);
            lemma_digits_props(a);
            assert(numstart < s.len());
            assert(is_digit(s[numstart]));
        }
    }
}

/// No standing value exceeds the executable integer range.
proof fn refute_number_range(s: Seq<char>, i: int, numstart: int, k: int, neg: bool, acc: u128)
    requires
        0 <= i < s.len(),
        neg ==> s[i] == '-',
        !neg ==> is_digit(s[i]),
        numstart == if neg {
            i + 1
        } else {
            i
        },
        numstart < k <= s.len(),
        forall|m: int| numstart <= m < k ==> is_digit(#[trigger] s[m]),
        acc == val_digits(s.subrange(numstart, k)),
        k == s.len() || !is_digit(s[k as int]),
        neg ==> acc > 0x8000_0000_0000_0000_0000_0000_0000_0000,
        !neg ==> acc > 0x7fff_ffff_ffff_ffff_ffff_ffff_ffff_ffff,
    ensures
        forall|v: JsonVal| !value_at(s, i, v),
{
    assert forall|v: JsonVal| !value_at(s, i, v) by {
        if value_at(s, i, v) {
            let a = run_matches(s, i, numstart, k, neg, v);
        }
    }
}

/// Under `value_at` with the maximal digit run `[numstart, k)`, the run is
/// exactly the value's digit run, so the accumulated value is its magnitude.
proof fn run_matches(s: Seq<char>, i: int, numstart: int, k: int, neg: bool, v: JsonVal) -> (a: int)
    requires
        value_at(s, i, v),
        0 <= i < s.len(),
        neg ==> s[i] == '-',
        !neg ==> is_digit(s[i]),
        numstart == if neg {
            i + 1
        } else {
            i
        },
        numstart <= k <= s.len(),
        forall|m: int| numstart <= m < k ==> is_digit(#[trigger] s[m]),
        k == s.len() || !is_digit(s[k as int]),
    ensures
        v is Num,
        a == if v->Num_0 < 0 {
            -v->Num_0
        } else {
            v->Num_0
        },
        (v->Num_0 < 0) == neg,
        k == numstart + spec_digits(a).len(),
        k == i + spec_json(v).len(),
        val_digits(s.subrange(numstart, k)) == a,
        a <= 0x8000_0000_0000_0000_0000_0000_0000_0000,
        neg ==> a >= 1,
{
    let a = number_shape(s, i, numstart, neg, v);
    let dl = spec_digits(a).len() as int;
    lemma_digits_props(a);
    if k < numstart + dl {
        assert(s[k] == spec_digits(a)[k - numstart]);
        assert(is_digit(s[k]));
        assert(false);
    }
    if k > numstart + dl {
        assert(numstart + dl < s.len());
        assert(is_digit(s[numstart + dl]));
        assert(!is_digit(s[numstart + dl]));
        assert(false);
    }
    assert(k == numstart + dl);
    assert(s.subrange(numstart, k) == spec_digits(a));
    a
}

/// Ties the executable result of number parsing back to every standing value.
proof fn finish_number(
    s: Seq<char>,
    i: int,
    numstart: int,
    k: int,
    neg: bool,
    acc: u128,
    x: int,
)
    requires
        0 <= i < s.len(),
        neg ==> s[i] == '-',
        !neg ==> is_digit(s[i]),
        numstart == if neg {
            i + 1
        } else {
            i
        },
        numstart < k <= s.len(),
        forall|m: int| numstart <= m < k ==> is_digit(#[trigger] s[m]),
        acc == val_digits(s.subrange(numstart, k)),
        k == s.len() || !is_digit(s[k as int]),
        x == if neg {
            -(acc as int)
        } else {
            acc as int
        },
    ensures
        forall|v: JsonVal| value_at(s, i, v) ==> (JsonVal::Num(x) == v && k == i + spec_json(
            v,
        ).len()),
{
    assert forall|v: JsonVal| value_at(s, i, v) implies (JsonVal::Num(x) == v && k == i
        + spec_json(v).len()) by {
        let a = run_matches(s, i, numstart, k, neg, v);
        assert(x == v->Num_0);
    }
}

/// The escaped content `t` followed by a closing quote stands at `k`.
pub open spec fn str_rest_at(s: Seq<char>, k: int, t: Seq<char>) -> bool {
    &&& k + spec_esc(t).len() + 1 <= s.len()
    &&& s.subrange(k, k + spec_esc(t).len()) == spec_esc(t)
    &&& s[k + spec_esc(t).len()] == '"'
}

/// A quoted string literal stands at `i`.
pub open spec fn string_at(s: Seq<char>, i: int, t: Seq<char>) -> bool {
    &&& i + spec_quoted(t).len() <= s.len()
    &&& s.subrange(i, i + spec_quoted(t).len()) == spec_quoted(t)
}

/// How one character escapes: either itself, a two-character escape, or a
/// six-character scalar escape.
pub proof fn lemma_esc_char_shape(c: char)
    ensures
        spec_esc_char(c).len() == 1 || spec_esc_char(c).len() == 2 || spec_esc_char(c).len() == 6,
        (spec_esc_char(c)[0] == '\\') <==> (c == '"' || c == '\\' || (c as u32) < 32),
        c == '"' ==> spec_esc_char(c) =~= seq!['\\', '"'],
        c == '\\' ==> spec_esc_char(c) =~= seq!['\\', '\\'],
        (c != '"' && c != '\\' && (c as u32) >= 32) ==> spec_esc_char(c) =~= seq![c],
        (c as u32) < 32 ==> spec_esc_char(c).len() == 6 && spec_esc_char(c)[1] == 'u'
            && spec_esc_char(c)[2] == '0' && spec_esc_char(c)[3] == '0' && spec_esc_char(c)[4]
            == hex_char((c as u32 / 16) as int) && spec_esc_char(c)[5] == hex_char(
            (c as u32 % 16) as int,
        ),
{
}

/// Escaping a nonempty string starts with the escape of its first character.
pub proof fn lemma_esc_first(t: Seq<char>)
    requires
        t.len() >= 1,
    ensures
        spec_esc(t) == spec_esc_char(t[0]) + spec_esc(t.drop_first()),
        spec_esc(t).len() >= spec_esc_char(t[0]).len(),
{
    lemma_esc_char_shape(t[0]);
}

/// Consuming the escape of the first content character advances the stand.
proof fn str_rest_step(s: Seq<char>, k: int, t: Seq<char>)
    requires
        0 <= k,
        str_rest_at(s, k, t),
        t.len() >= 1,
    ensures
        str_rest_at(s, k + spec_esc_char(t[0]).len(), t.drop_first()),
        forall|m: int|
            0 <= m < spec_esc_char(t[0]).len() ==> s[k + m] == #[trigger] spec_esc_char(t[0])[m],
{
    lemma_esc_first(t);
    let el = spec_esc_char(t[0]).len() as int;
    let rest = t.drop_first();
    assert(forall|m: int|
        0 <= m < spec_esc(t).len() ==> s[k + m] == #[trigger] spec_esc(t)[m]) by {
        assert(forall|m: int|
            0 <= m < spec_esc(t).len() ==> s.subrange(k, k + spec_esc(t).len())[m]
                == #[trigger] spec_esc(t)[m]);
    }
    assert(forall|m: int|
        0 <= m < el ==> s[k + m] == #[trigger] spec_esc_char(t[0])[m]) by {
        assert(forall|m: int|
            0 <= m < el ==> spec_esc(t)[m] == #[trigger] spec_esc_char(t[0])[m]);
    }
    assert(s.subrange(k + el, k + el + spec_esc(rest).len()) =~= spec_esc(rest)) by {
        assert(forall|m: int|
            0 <= m < spec_esc(rest).len() ==> #[trigger] spec_esc(rest)[m] == spec_esc(t)[el + m]);
        assert(forall|m: int|
            0 <= m < spec_esc(rest).len() ==> #[trigger] s.subrange(
                k + el,
                k + el + spec_esc(rest).len(),
            )[m] == s[k + el + m]);
    }
    assert(s[k + el + spec_esc(rest).len()] == '"');
}

/// Numeric value of a lowercase or uppercase hexadecimal digit.
pub open spec fn spec_hex_val(c: char) -> Option<int> {
    if 48 <= (c as u32) <= 57 {
        Some((c as u32 - 48) as int)
    } else if 97 <= (c as u32) <= 102 {
        Some((c as u32 - 87) as int)
    } else if 65 <= (c as u32) <= 70 {
        Some((c as u32 - 55) as int)
    } else {
        None
    }
}

/// The canonical hexadecimal digit of `d` reads back as `d`.
pub proof fn lemma_hex_roundtrip(d: int)
    requires
        0 <= d < 16,
    ensures
        spec_hex_val(hex_char(d)) == Some(d),
{
}

/// Reads one hexadecimal digit, as executable code.
fn hex_digit_val(c: char) -> (r: Option<u8>)
    ensures
        match r {
            Some(d) => spec_hex_val(c) == Some(d as int) && d < 16,
            None => spec_hex_val(c) is None,
        },
{
    let x = c as u32;
    if 48 <= x && x <= 57 {
        Some((x - 48) as u8)
    } else if 97 <= x && x <= 102 {
        Some((x - 87) as u8)
    } else if 65 <= x && x <= 70 {
        Some((x - 55) as u8)
    } else {
        None
    }
}

/// Relies on char::from_u32: a scalar value outside the surrogate range maps
/// to the character with exactly that value.
#[verifier::external_body]
fn char_from_u32(x: u32) -> (r: Option<char>)
    ensures
        r matches Some(c) ==> c as u32 == x,
        x < 0xD800 ==> r is Some,
        0xE000 <= x <= 0x10FFFF ==> r is Some,
{
    char::from_u32(x)
}

/// Reads four hexadecimal digits at `k`.
fn read_hex4(s: &Vec<char>, k: usize) -> (r: Option<u32>)
    requires
        k + 4 <= s@.len(),
    ensures
        r matches Some(x) ==> x < 0x10000,
        (spec_hex_val(s@[k as int]) is Some && spec_hex_val(s@[k as int + 1]) is Some
            && spec_hex_val(s@[k as int + 2]) is Some && spec_hex_val(s@[k as int + 3]) is Some)
            ==> r == Some(((spec_hex_val(s@[k as int])->0 * 4096 + spec_hex_val(
            s@[k as int + 1],
        )->0 * 256 + spec_hex_val(s@[k as int + 2])->0 * 16 + spec_hex_val(
            s@[k as int + 3],
        )->0) as u32)),
        r is Some ==> (spec_hex_val(s@[k as int]) is Some && spec_hex_val(
            s@[k as int + 1],
        ) is Some && spec_hex_val(s@[k as int + 2]) is Some && spec_hex_val(
            s@[k as int + 3],
        ) is Some),
{
    // The length fits a machine word, which bounds the index sums below.
    let _n = s.len();
    let h0 = hex_digit_val(s[k]);
    let h1 = hex_digit_val(s[k + 1]);
    let h2 = hex_digit_val(s[k + 2]);
    let h3 = hex_digit_val(s[k + 3]);
    match (h0, h1, h2, h3) {
        (Some(d0), Some(d1), Some(d2), Some(d3)) => Some(
            (d0 as u32) * 4096 + (d1 as u32) * 256 + (d2 as u32) * 16 + (d3 as u32),
        ),
        _ => None,
    }
}

/// Parses the remainder of a string literal after the opening quote,
/// appending the decoded content to `acc`.
#[verifier::rlimit(60)]
fn parse_string_rest(s: &Vec<char>, k: usize, acc: Vec<char>) -> (r: Option<(Vec<char>, usize)>)
    requires
        k <= s@.len(),
    ensures
        forall|t: Seq<char>| str_rest_at(s@, k as int, t) ==> (r matches Some(p) && p.0@ == acc@ + t
            && p.1 == k + spec_esc(t).len() + 1),
        r matches Some(p) ==> k < p.1 <= s@.len(),
    decreases s@.len() - k,
{
    if k >= s.len() {
        proof {
            assert forall|t: Seq<char>| !str_rest_at(s@, k as int, t) by {
                if str_rest_at(s@, k as int, t) {
                    assert(k as int + spec_esc(t).len() < s@.len());
                }
            }
        }
        return None;
    }
    let c = s[k];
    if c == '"' {
        proof {
            assert forall|t: Seq<char>| str_rest_at(s@, k as int, t) implies t =~= Seq::<
                char,
            >::empty() by {
                if t.len() >= 1 {
                    str_rest_step(s@, k as int, t);
                    lemma_esc_char_shape(t[0]);
                    assert(s@[k as int] == spec_esc_char(t[0])[0]);
                }
            }
            assert(forall|t: Seq<char>| str_rest_at(s@, k as int, t) ==> acc@ + t =~= acc@
                && spec_esc(t).len() == 0);
        }
        return Some((acc, k + 1));
    }
    if c == '\\' {
        if k + 1 >= s.len() {
            proof {
                assert forall|t: Seq<char>| !str_rest_at(s@, k as int, t) by {
                    if str_rest_at(s@, k as int, t) {
                        if t.len() == 0 {
                            assert(s@[k as int] == '"');
                        } else {
                            str_rest_step(s@, k as int, t);
                            lemma_esc_char_shape(t[0]);
                            assert(spec_esc_char(t[0]).len() >= 2);
                        }
                    }
                }
            }
            return None;
        }
        let e = s[k + 1];
        proof {
            assert forall|t: Seq<char>| str_rest_at(s@, k as int, t) implies (t.len() >= 1
                && spec_esc_char(t[0])[0] == '\\' && (t[0] == '"' || t[0] == '\\' || (
            t[0] as u32) < 32) && s@[k as int + 1] == spec_esc_char(t[0])[1]) by {
                if t.len() == 0 {
                    assert(s@[k as int] == '"');
                } else {
                    str_rest_step(s@, k as int, t);
                    lemma_esc_char_shape(t[0]);
                }
            }
        }
        if e == '"' || e == '\\' || e == '/' {
            let mut acc2 = acc;
            acc2.push(e);
            proof {
                assert forall|t: Seq<char>| str_rest_at(s@, k as int, t) implies (t[0] == e
                    && str_rest_at(s@, k as int + 2, t.drop_first())) by {
                    lemma_esc_char_shape(t[0]);
                    str_rest_step(s@, k as int, t);
                }
            }
            let r = parse_string_rest(s, k + 2, acc2);
            proof {
                assert forall|t: Seq<char>| str_rest_at(s@, k as int, t) implies (r matches Some(p)
                    && p.0@ == acc@ + t && p.1 == k + spec_esc(t).len() + 1) by {
                    lemma_esc_char_shape(t[0]);
                    str_rest_step(s@, k as int, t);
                    lemma_esc_first(t);
                    assert(str_rest_at(s@, k as int + 2, t.drop_first()));
                    assert(acc@.push(t[0]) + t.drop_first() =~= acc@ + t);
                }
            }
            return r;
        }
        if e == 'u' {
            if s.len() - k < 6 {
                proof {
                    refute_ctrl(s@, k as int);
                }
                return None;
            }
            let hx = read_hex4(s, k + 2);
            match hx {
                None => {
                    proof {
                        refute_ctrl(s@, k as int);
                    }
                    return None;
                },
                Some(x) => {
                    if 0xD800 <= x && x < 0xDC00 {
                        // A high surrogate: only a following low surrogate
                        // completes a scalar. Canonical text never goes here.
                        proof {
                            refute_surrogate(s@, k as int, x);
                        }
                        if s.len() - k < 12 {
                            return None;
                        }
                        if !(s[k + 6] == '\\' && s[k + 7] == 'u') {
                            return None;
                        }
                        let lo = read_hex4(s, k + 8);
                        match lo {
                            None => {
                                return None;
                            },
                            Some(y) => {
                                if !(0xDC00 <= y && y < 0xE000) {
                                    return None;
                                }
                                let scalar: u32 = 0x10000 + (x - 0xD800) * 0x400 + (y - 0xDC00);
                                match char_from_u32(scalar) {
                                    None => {
                                        return None;
                                    },
                                    Some(ch) => {
                                        let mut acc2 = acc;
                                        acc2.push(ch);
                                        let r = parse_string_rest(s, k + 12, acc2);
                                        return r;
                                    },
                                }
                            },
                        }
                    } else {
                        match char_from_u32(x) {
                            None => {
                                proof {
                                    refute_ctrl_value(s@, k as int, x);
                                }
                                return None;
                            },
                            Some(ch) => {
                                let mut acc2 = acc;
                                acc2.push(ch);
                                proof {
                                    assert forall|t: Seq<char>|
                                        str_rest_at(s@, k as int, t) implies (t[0] == ch
                                        && str_rest_at(s@, k as int + 6, t.drop_first())) by {
                                        hyp_ctrl(s@, k as int, t);
                                        assert(x == t[0] as u32);
                                        vstd::utf8::char_u32_cast(t[0], x);
                                        vstd::utf8::char_u32_cast(ch, x);
                                        str_rest_step(s@, k as int, t);
                                    }
                                }
                                let r = parse_string_rest(s, k + 6, acc2);
                                proof {
                                    assert forall|t: Seq<char>|
                                        str_rest_at(s@, k as int, t) implies (r matches Some(p)
                                        && p.0@ == acc@ + t && p.1 == k + spec_esc(t).len()
                                        + 1) by {
                                        hyp_ctrl(s@, k as int, t);
                                        str_rest_step(s@, k as int, t);
                                        lemma_esc_first(t);
                                        lemma_esc_char_shape(t[0]);
                                        assert(str_rest_at(s@, k as int + 6, t.drop_first()));
                                        assert(acc@.push(t[0]) + t.drop_first() =~= acc@ + t);
                                    }
                                }
                                return r;
                            },
                        }
                    }
                },
            }
        }
        // The remaining short escapes are accepted on input, though the
        // canonical form writes these characters as scalar escapes.
        let decoded: Option<char> = if e == 'n' {
            Some('\n')
        } else if e == 't' {
            Some('\t')
        } else if e == 'r' {
            Some('\r')
        } else if e == 'b' {
            Some('\u{0008}')
        } else if e == 'f' {
            Some('\u{000C}')
        } else {
            None
        };
        proof {
            assert forall|t: Seq<char>| !str_rest_at(s@, k as int, t) by {
                if str_rest_at(s@, k as int, t) {
                    lemma_esc_char_shape(t[0]);
                    assert(s@[k as int + 1] == spec_esc_char(t[0])[1]);
                }
            }
        }
        match decoded {
            None => {
                return None;
            },
            Some(d) => {
                let mut acc2 = acc;
                acc2.push(d);
                let r = parse_string_rest(s, k + 2, acc2);
                return r;
            },
        }
    }
    // A plain character carries itself.
    let mut acc2 = acc;
    acc2.push(c);
    proof {
        assert forall|t: Seq<char>| str_rest_at(s@, k as int, t) implies (t.len() >= 1 && t[0] == c
            && str_rest_at(s@, k as int + 1, t.drop_first())) by {
            if t.len() == 0 {
                assert(s@[k as int] == '"');
            } else {
                str_rest_step(s@, k as int, t);
                lemma_esc_char_shape(t[0]);
                assert(s@[k as int] == spec_esc_char(t[0])[0]);
            }
        }
    }
    let r = parse_string_rest(s, k + 1, acc2);
    proof {
        assert forall|t: Seq<char>| str_rest_at(s@, k as int, t) implies (r matches Some(p) && p.0@
            == acc@ + t && p.1 == k + spec_esc(t).len() + 1) by {
            str_rest_step(s@, k as int, t);
            lemma_esc_first(t);
            lemma_esc_char_shape(t[0]);
            assert(str_rest_at(s@, k as int + 1, t.drop_first()));
            assert(acc@.push(t[0]) + t.drop_first() =~= acc@ + t);
        }
    }
    r
}

/// Facts that hold of any stand whose next escape is a scalar escape.
proof fn hyp_ctrl(s: Seq<char>, k: int, t: Seq<char>)
    requires
        str_rest_at(s, k, t),
        0 <= k,
        k + 1 < s.len(),
        s[k] == '\\',
        s[k + 1] == 'u',
    ensures
        t.len() >= 1,
        (t[0] as u32) < 32,
        k + 6 <= s.len(),
        spec_hex_val(s[k + 2]) == Some(0int),
        spec_hex_val(s[k + 3]) == Some(0int),
        spec_hex_val(s[k + 4]) == Some((t[0] as u32 / 16) as int),
        spec_hex_val(s[k + 5]) == Some((t[0] as u32 % 16) as int),
        spec_hex_val(s[k + 2])->0 * 4096 + spec_hex_val(s[k + 3])->0 * 256 + spec_hex_val(
            s[k + 4],
        )->0 * 16 + spec_hex_val(s[k + 5])->0 == t[0] as u32,
{
    if t.len() == 0 {
        assert(s[k] == '"');
        assert(false);
    }
    str_rest_step(s, k, t);
    lemma_esc_char_shape(t[0]);
    if t[0] == '"' || t[0] == '\\' {
        assert(s[k + 1] == spec_esc_char(t[0])[1]);
        assert(false);
    }
    assert((t[0] as u32) < 32);
    let c = t[0];
    assert(s[k + 2] == '0' && s[k + 3] == '0');
    assert(s[k + 4] == hex_char((c as u32 / 16) as int));
    assert(s[k + 5] == hex_char((c as u32 % 16) as int));
    lemma_hex_roundtrip(0);
    assert(hex_char(0) == '0');
    lemma_hex_roundtrip((c as u32 / 16) as int);
    lemma_hex_roundtrip((c as u32 % 16) as int);
    assert((c as u32 / 16) * 16 + (c as u32 % 16) == c as u32);
}

/// No stand has a scalar escape shorter than six characters or non-digits in it.
proof fn refute_ctrl(s: Seq<char>, k: int)
    requires
        0 <= k,
        k + 1 < s.len(),
        s[k] == '\\',
        s[k + 1] == 'u',
        k + 6 > s.len() || !(spec_hex_val(s[k + 2]) is Some && spec_hex_val(s[k + 3]) is Some
            && spec_hex_val(s[k + 4]) is Some && spec_hex_val(s[k + 5]) is Some),
    ensures
        forall|t: Seq<char>| !str_rest_at(s, k, t),
{
    assert forall|t: Seq<char>| !str_rest_at(s, k, t) by {
        if str_rest_at(s, k, t) {
            hyp_ctrl(s, k, t);
        }
    }
}

/// No stand escapes a value in the surrogate range.
proof fn refute_surrogate(s: Seq<char>, k: int, x: u32)
    requires
        0 <= k,
        k + 1 < s.len(),
        s[k] == '\\',
        s[k + 1] == 'u',
        k + 6 <= s.len(),
        spec_hex_val(s[k + 2]) is Some && spec_hex_val(s[k + 3]) is Some && spec_hex_val(
            s[k + 4],
        ) is Some && spec_hex_val(s[k + 5]) is Some,
        x == spec_hex_val(s[k + 2])->0 * 4096 + spec_hex_val(s[k + 3])->0 * 256 + spec_hex_val(
            s[k + 4],
        )->0 * 16 + spec_hex_val(s[k + 5])->0,
        x >= 0x100,
    ensures
        forall|t: Seq<char>| !str_rest_at(s, k, t),
{
    assert forall|t: Seq<char>| !str_rest_at(s, k, t) by {
        if str_rest_at(s, k, t) {
            hyp_ctrl(s, k, t);
            assert(x == t[0] as u32);
            assert(x < 32);
        }
    }
}

/// No stand escapes a value the scalar conversion rejects.
proof fn refute_ctrl_value(s: Seq<char>, k: int, x: u32)
    requires
        0 <= k,
        k + 1 < s.len(),
        s[k] == '\\',
        s[k + 1] == 'u',
        k + 6 <= s.len(),
        spec_hex_val(s[k + 2]) is Some && spec_hex_val(s[k + 3]) is Some && spec_hex_val(
            s[k + 4],
        ) is Some && spec_hex_val(s[k + 5]) is Some,
        x == spec_hex_val(s[k + 2])->0 * 4096 + spec_hex_val(s[k + 3])->0 * 256 + spec_hex_val(
            s[k + 4],
        )->0 * 16 + spec_hex_val(s[k + 5])->0,
        x >= 0xD800,
    ensures
        forall|t: Seq<char>| !str_rest_at(s, k, t),
{
    refute_surrogate(s, k, x);
}

/// Parses a quoted string literal standing at `i`.
fn parse_string(s: &Vec<char>, i: usize) -> (r: Option<(String, usize)>)
    requires
        i < s@.len(),
        s@[i as int] == '"',
    ensures
        forall|t: Seq<char>| string_at(s@, i as int, t) ==> (r matches Some(p) && p.0@ == t && p.1
            == i + spec_quoted(t).len()),
        r matches Some(p) ==> i < p.1 <= s@.len(),
{
    // The length fits a machine word, which bounds the position below.
    let _n = s.len();
    let rest = parse_string_rest(s, i + 1, Vec::new());
    proof {
        assert forall|t: Seq<char>| string_at(s@, i as int, t) implies str_rest_at(
            s@,
            i as int + 1,
            t,
        ) by {
            let q = spec_quoted(t);
            assert(forall|m: int| 0 <= m < q.len() ==> s@[i + m] == #[trigger] q[m]) by {
                assert(forall|m: int|
                    0 <= m < q.len() ==> s@.subrange(i as int, i + q.len())[m] == #[trigger] q[m]);
            }
            assert(forall|m: int| 0 <= m < spec_esc(t).len() ==> q[m + 1] == #[trigger] spec_esc(
                t,
            )[m]);
            assert(s@.subrange(i as int + 1, i as int + 1 + spec_esc(t).len()) =~= spec_esc(t));
            assert(q[q.len() - 1] == '"');
            assert(s@[i as int + 1 + spec_esc(t).len()] == '"');
        }
    }
    match rest {
        None => None,
        Some((content, j)) => {
            let out = crate::json::string_from_chars(&content);
            proof {
                assert(forall|t: Seq<char>| str_rest_at(s@, i as int + 1, t) ==> Seq::<
                    char,
                >::empty() + t =~= t);
            }
            Some((out, j))
        },
    }
}

/// A nonempty comma-separated run of array items, closed by `]`, stands at `i`.
pub open spec fn items_at(s: Seq<char>, i: int, elems: Seq<JsonVal>) -> bool {
    &&& elems.len() >= 1
    &&& forall|m: int| 0 <= m < elems.len() ==> json_wf(#[trigger] elems[m])
    &&& i + spec_json_list(elems).len() + 1 <= s.len()
    &&& s.subrange(i, i + spec_json_list(elems).len()) == spec_json_list(elems)
    &&& s[i + spec_json_list(elems).len()] == ']'
}

/// A nonempty comma-separated run of object members, closed by `}`, stands at `i`.
pub open spec fn mems_at(s: Seq<char>, i: int, mems: Seq<JsonMemberV>) -> bool {
    &&& mems.len() >= 1
    &&& forall|m: int| 0 <= m < mems.len() ==> json_wf(#[trigger] mems[m].val)
    &&& i + spec_json_members(mems).len() + 1 <= s.len()
    &&& s.subrange(i, i + spec_json_members(mems).len()) == spec_json_members(mems)
    &&& s[i + spec_json_members(mems).len()] == '}'
}

/// The canonical text of a standing value spells out character by character.
proof fn lemma_value_chars(s: Seq<char>, i: int, v: JsonVal)
    requires
        0 <= i,
        value_at(s, i, v),
    ensures
        forall|m: int| 0 <= m < spec_json(v).len() ==> s[i + m] == #[trigger] spec_json(v)[m],
{
    assert forall|m: int| 0 <= m < spec_json(v).len() implies s[i + m] == #[trigger] spec_json(
        v,
    )[m] by {
        assert(s.subrange(i, i + spec_json(v).len())[m] == spec_json(v)[m]);
    }
}

/// The first item of a standing run is a standing value, and what follows it
/// is a comma and the remaining run, or the closing bracket.
proof fn lemma_items_head(s: Seq<char>, i: int, elems: Seq<JsonVal>)
    requires
        0 <= i,
        items_at(s, i, elems),
    ensures
        value_at(s, i, elems[0]),
        elems.len() == 1 ==> s[i + spec_json(elems[0]).len()] == ']' && i + spec_json(
            elems[0],
        ).len() + 1 == i + spec_json_list(elems).len() + 1,
        elems.len() >= 2 ==> s[i + spec_json(elems[0]).len()] == ',' && items_at(
            s,
            i + spec_json(elems[0]).len() + 1,
            elems.drop_first(),
        ),
{
    let l = spec_json_list(elems).len() as int;
    let e0 = elems[0];
    let l0 = spec_json(e0).len() as int;
    assert(forall|m: int| 0 <= m < l ==> s[i + m] == #[trigger] spec_json_list(elems)[m]) by {
        assert(forall|m: int|
            0 <= m < l ==> s.subrange(i, i + l)[m] == #[trigger] spec_json_list(elems)[m]);
    }
    if elems.len() == 1 {
        assert(spec_json_list(elems) == spec_json(e0));
        assert(s.subrange(i, i + l0) =~= spec_json(e0)) by {
            assert(forall|m: int|
                0 <= m < l0 ==> #[trigger] s.subrange(i, i + l0)[m] == s[i + m]);
        }
        assert(s[i + l0] == ']');
        assert(!is_digit(']'));
        assert(value_at(s, i, e0));
    } else {
        let rest = elems.drop_first();
        assert(spec_json_list(elems) == spec_json(e0) + seq![','] + spec_json_list(rest));
        assert(s.subrange(i, i + l0) =~= spec_json(e0)) by {
            assert(forall|m: int|
                0 <= m < l0 ==> #[trigger] spec_json_list(elems)[m] == spec_json(e0)[m]);
            assert(forall|m: int|
                0 <= m < l0 ==> #[trigger] s.subrange(i, i + l0)[m] == s[i + m]);
        }
        assert(spec_json_list(elems)[l0] == ',');
        assert(s[i + l0] == ',');
        assert(!is_digit(','));
        assert(value_at(s, i, e0));
        let i2 = i + l0 + 1;
        let lr = spec_json_list(rest).len() as int;
        assert(s.subrange(i2, i2 + lr) =~= spec_json_list(rest)) by {
            assert(forall|m: int|
                0 <= m < lr ==> spec_json_list(elems)[l0 + 1 + m] == #[trigger] spec_json_list(
                    rest,
                )[m]);
            assert(forall|m: int|
                0 <= m < lr ==> s[i2 + m] == #[trigger] spec_json_list(elems)[l0 + 1 + m]);
            assert(forall|m: int|
                0 <= m < lr ==> #[trigger] s.subrange(i2, i2 + lr)[m] == s[i2 + m]);
        }
        assert(s[i2 + lr] == ']');
        assert(forall|m: int| 0 <= m < rest.len() ==> json_wf(#[trigger] rest[m])) by {
            assert(forall|m: int| 0 <= m < rest.len() ==> rest[m] == elems[m + 1]);
        }
        assert(items_at(s, i2, rest));
    }
}

/// The first member of a standing run is a key, a colon and a standing value,
/// and what follows is a comma and the remaining run, or the closing brace.
proof fn lemma_mems_head(s: Seq<char>, i: int, mems: Seq<JsonMemberV>)
    requires
        0 <= i,
        mems_at(s, i, mems),
    ensures
        string_at(s, i, mems[0].key),
        s[i + spec_quoted(mems[0].key).len()] == ':',
        value_at(s, i + spec_quoted(mems[0].key).len() + 1, mems[0].val),
        mems.len() == 1 ==> s[i + spec_member(mems[0]).len()] == '}' && i + spec_member(
            mems[0],
        ).len() + 1 == i + spec_json_members(mems).len() + 1,
        mems.len() >= 2 ==> s[i + spec_member(mems[0]).len()] == ',' && mems_at(
            s,
            i + spec_member(mems[0]).len() + 1,
            mems.drop_first(),
        ),
        s[i] == '"',
{
    let l = spec_json_members(mems).len() as int;
    let m0 = mems[0];
    let q = spec_quoted(m0.key);
    let ql = q.len() as int;
    let vl = spec_json(m0.val).len() as int;
    let ml = spec_member(m0).len() as int;
    assert(ml == ql + 1 + vl);
    assert(forall|m: int| 0 <= m < l ==> s[i + m] == #[trigger] spec_json_members(mems)[m]) by {
        assert(forall|m: int|
            0 <= m < l ==> s.subrange(i, i + l)[m] == #[trigger] spec_json_members(mems)[m]);
    }
    let after = if mems.len() == 1 {
        '}'
    } else {
        ','
    };
    if mems.len() == 1 {
        assert(spec_json_members(mems) == spec_member(m0));
        assert(l == ml);
    } else {
        assert(spec_json_members(mems) == spec_member(m0) + seq![','] + spec_json_members(
            mems.drop_first(),
        ));
        assert(spec_json_members(mems)[ml] == ',');
    }
    assert forall|m: int| 0 <= m < ml implies s[i + m] == #[trigger] spec_member(m0)[m] by {
        assert(spec_json_members(mems)[m] == spec_member(m0)[m]);
        assert(s[i + m] == spec_json_members(mems)[m]);
    }
    assert(forall|m: int| 0 <= m < ql ==> #[trigger] spec_member(m0)[m] == q[m]);
    assert(s.subrange(i, i + ql) =~= q) by {
        assert(forall|m: int| 0 <= m < ql ==> #[trigger] s.subrange(i, i + ql)[m] == s[i + m]);
    }
    assert(string_at(s, i, m0.key));
    assert(q[0] == '"');
    assert(s[i] == '"');
    assert(spec_member(m0)[ql] == ':');
    assert(s[i + ql] == ':');
    let iv = i + ql + 1;
    assert(forall|m: int| 0 <= m < vl ==> #[trigger] spec_member(m0)[ql + 1 + m] == spec_json(
        m0.val,
    )[m]);
    assert forall|m: int| 0 <= m < vl implies s[iv + m] == #[trigger] spec_json(m0.val)[m] by {
        assert(s[i + (ql + 1 + m)] == spec_member(m0)[ql + 1 + m]);
        assert(spec_member(m0)[ql + 1 + m] == spec_json(m0.val)[m]);
    }
    assert(s.subrange(iv, iv + vl) =~= spec_json(m0.val)) by {
        assert(forall|m: int| 0 <= m < vl ==> #[trigger] s.subrange(iv, iv + vl)[m] == s[iv + m]);
    }
    assert(s[i + ml] == after);
    assert(!is_digit('}') && !is_digit(','));
    assert(value_at(s, iv, m0.val));
    if mems.len() >= 2 {
        let rest = mems.drop_first();
        let i2 = i + ml + 1;
        let lr = spec_json_members(rest).len() as int;
        assert(s.subrange(i2, i2 + lr) =~= spec_json_members(rest)) by {
            assert(forall|m: int|
                0 <= m < lr ==> spec_json_members(mems)[ml + 1 + m] == #[trigger] spec_json_members(
                    rest,
                )[m]);
            assert(forall|m: int|
                0 <= m < lr ==> s[i2 + m] == #[trigger] spec_json_members(mems)[ml + 1 + m]);
            assert(forall|m: int|
                0 <= m < lr ==> #[trigger] s.subrange(i2, i2 + lr)[m] == s[i2 + m]);
        }
        assert(s[i2 + lr] == '}');
        assert(forall|m: int| 0 <= m < rest.len() ==> json_wf(#[trigger] rest[m].val)) by {
            assert(forall|m: int| 0 <= m < rest.len() ==> rest[m] == mems[m + 1]);
        }
        assert(mems_at(s, i2, rest));
    }
}

/// Parses one JSON value standing at `i`.
#[verifier::rlimit(100)]
fn parse_value(s: &Vec<char>, i: usize) -> (r: Option<(JsonValue, usize)>)
    requires
        i <= s@.len(),
    ensures
        forall|v: JsonVal| value_at(s@, i as int, v) ==> (r matches Some(p) && p.0@ == v && p.1
            == i + spec_json(v).len()),
        r matches Some(p) ==> i < p.1 <= s@.len(),
    decreases s@.len() - i, 0int,
{
    let n = s.len();
    if i >= n {
        proof {
            assert forall|v: JsonVal| !value_at(s@, i as int, v) by {
                if value_at(s@, i as int, v) {
                    lemma_json_first(v);
                }
            }
        }
        return None;
    }
    let c = s[i];
    proof {
        assert forall|v: JsonVal| value_at(s@, i as int, v) implies spec_json(v)[0] == c by {
            lemma_value_chars(s@, i as int, v);
            lemma_json_first(v);
        }
    }
    if c == 'n' {
        if n - i >= 4 && s[i + 1] == 'u' && s[i + 2] == 'l' && s[i + 3] == 'l' {
            proof {
                assert forall|v: JsonVal| value_at(s@, i as int, v) implies (v == JsonVal::Null
                    && spec_json(v).len() == 4) by {
                    lemma_json_first(v);
                }
            }
            return Some((JsonValue::Null, i + 4));
        }
        proof {
            assert forall|v: JsonVal| !value_at(s@, i as int, v) by {
                if value_at(s@, i as int, v) {
                    lemma_json_first(v);
                    assert(v == JsonVal::Null);
                    lemma_value_chars(s@, i as int, v);
                    assert(s@[i as int + 1] == 'u' && s@[i as int + 2] == 'l' && s@[i as int + 3]
                        == 'l');
                }
            }
        }
        return None;
    }
    if c == 't' {
        if n - i >= 4 && s[i + 1] == 'r' && s[i + 2] == 'u' && s[i + 3] == 'e' {
            proof {
                assert forall|v: JsonVal| value_at(s@, i as int, v) implies (v == JsonVal::Bool(
                    true,
                ) && spec_json(v).len() == 4) by {
                    lemma_json_first(v);
                    lemma_value_chars(s@, i as int, v);
                    if v is Bool && !v->Bool_0 {
                        assert(spec_json(v)[1] == 'a');
                    }
                }
            }
            return Some((JsonValue::Bool(true), i + 4));
        }
        proof {
            assert forall|v: JsonVal| !value_at(s@, i as int, v) by {
                if value_at(s@, i as int, v) {
                    lemma_json_first(v);
                    lemma_value_chars(s@, i as int, v);
                    if v is Bool && !v->Bool_0 {
                        assert(spec_json(v)[0] == 'f');
                    }
                    assert(v == JsonVal::Bool(true));
                    assert(s@[i as int + 1] == 'r' && s@[i as int + 2] == 'u' && s@[i as int + 3]
                        == 'e');
                }
            }
        }
        return None;
    }
    if c == 'f' {
        if n - i >= 5 && s[i + 1] == 'a' && s[i + 2] == 'l' && s[i + 3] == 's' && s[i + 4] == 'e' {
            proof {
                assert forall|v: JsonVal| value_at(s@, i as int, v) implies (v == JsonVal::Bool(
                    false,
                ) && spec_json(v).len() == 5) by {
                    lemma_json_first(v);
                    lemma_value_chars(s@, i as int, v);
                    if v is Bool && v->Bool_0 {
                        assert(spec_json(v)[1] == 'r');
                    }
                }
            }
            return Some((JsonValue::Bool(false), i + 5));
        }
        proof {
            assert forall|v: JsonVal| !value_at(s@, i as int, v) by {
                if value_at(s@, i as int, v) {
                    lemma_json_first(v);
                    lemma_value_chars(s@, i as int, v);
                    if v is Bool && v->Bool_0 {
                        assert(spec_json(v)[0] == 't');
                    }
                    assert(v == JsonVal::Bool(false));
                    assert(s@[i as int + 1] == 'a' && s@[i as int + 2] == 'l' && s@[i as int + 3]
                        == 's' && s@[i as int + 4] == 'e');
                }
            }
        }
        return None;
    }
    if c == '"' {
        let rs = parse_string(s, i);
        proof {
            assert forall|v: JsonVal| value_at(s@, i as int, v) implies (v is Str && string_at(
                s@,
                i as int,
                v->Str_0,
            )) by {
                lemma_json_first(v);
            }
        }
        match rs {
            None => {
                return None;
            },
            Some((t, j)) => {
                let out = JsonValue::Str(t);
                proof {
                    assert forall|v: JsonVal| value_at(s@, i as int, v) implies (out@ == v && j
                        == i + spec_json(v).len()) by {
                        lemma_json_first(v);
                        assert(string_at(s@, i as int, v->Str_0));
                    }
                }
                return Some((out, j));
            },
        }
    }
    if c == '-' || is_digit_char(c) {
        return parse_number(s, i);
    }
    if c == '[' {
        let j = skip_ws(s, i + 1);
        proof {
            assert forall|v: JsonVal| value_at(s@, i as int, v) implies (v is Arr && (
            v->Arr_0.len() == 0 ==> (j == i + 1 && j < s@.len() && s@[j as int] == ']')) && (
            v->Arr_0.len() >= 1 ==> (j == i + 1 && items_at(s@, i as int + 1, v->Arr_0)))) by {
                lemma_json_first(v);
                lemma_value_chars(s@, i as int, v);
                let elems = v->Arr_0;
                let ll = spec_json_list(elems).len() as int;
                assert(spec_json(v) == seq!['['] + spec_json_list(elems) + seq![']']);
                assert(forall|m: int|
                    0 <= m < ll ==> spec_json(v)[1 + m] == #[trigger] spec_json_list(elems)[m]);
                assert(spec_json(v)[1 + ll] == ']');
                if elems.len() == 0 {
                    assert(s@[i as int + 1] == ']');
                    assert(!is_ws(']'));
                } else {
                    lemma_json_first(elems[0]);
                    assert(spec_json_list(elems)[0] == spec_json(elems[0])[0]);
                    assert(s@[i as int + 1] == spec_json(elems[0])[0]);
                    assert(!is_ws(s@[i as int + 1]));
                    assert(s@.subrange(i + 1, i + 1 + ll) =~= spec_json_list(elems)) by {
                        assert(forall|m: int|
                            0 <= m < ll ==> #[trigger] s@.subrange(i + 1, i + 1 + ll)[m] == s@[i
                                + 1 + m]);
                    }
                    assert(s@[i + 1 + ll] == ']');
                }
            }
        }
        if j < n && s[j] == ']' {
            let out = JsonValue::Arr(Vec::new());
            proof {
                assert(out@ == JsonVal::Arr(Seq::<JsonVal>::empty())) by {
                    lemma_arr_view(out);
                    assert(seq_view(Seq::<JsonValue>::empty()) =~= Seq::<JsonVal>::empty());
                    assert(out->Arr_0@ =~= Seq::<JsonValue>::empty());
                }
                assert forall|v: JsonVal| value_at(s@, i as int, v) implies (out@ == v && j + 1
                    == i + spec_json(v).len()) by {
                    let elems = v->Arr_0;
                    if elems.len() >= 1 {
                        lemma_items_head(s@, i as int + 1, elems);
                        lemma_json_first(elems[0]);
                        assert(s@[i as int + 1] == spec_json(elems[0])[0]);
                    }
                    assert(elems =~= Seq::<JsonVal>::empty());
                    assert(spec_json(v).len() == 2);
                }
            }
            return Some((out, j + 1));
        }
        let ri = parse_arr_items(s, j, Vec::new());
        match ri {
            None => {
                proof {
                    assert forall|v: JsonVal| !value_at(s@, i as int, v) by {
                        if value_at(s@, i as int, v) {
                            let elems = v->Arr_0;
                            if elems.len() == 0 {
                                assert(s@[j as int] == ']');
                            } else {
                                assert(items_at(s@, j as int, elems));
                            }
                        }
                    }
                }
                return None;
            },
            Some((velems, jj)) => {
                let out = JsonValue::Arr(velems);
                proof {
                    lemma_arr_view(out);
                    assert forall|v: JsonVal| value_at(s@, i as int, v) implies (out@ == v && jj
                        == i + spec_json(v).len()) by {
                        let elems = v->Arr_0;
                        if elems.len() == 0 {
                            assert(s@[j as int] == ']');
                        }
                        assert(items_at(s@, j as int, elems));
                        assert(seq_view(velems@) == seq_view(Seq::<JsonValue>::empty()) + elems);
                        assert(seq_view(Seq::<JsonValue>::empty()) =~= Seq::<JsonVal>::empty());
                        assert(seq_view(velems@) =~= elems);
                        assert(out@ == JsonVal::Arr(elems));
                        assert(jj == i + 1 + spec_json_list(elems).len() + 1);
                        assert(spec_json(v).len() == 2 + spec_json_list(elems).len());
                    }
                }
                return Some((out, jj));
            },
        }
    }
    if c == '{' {
        let j = skip_ws(s, i + 1);
        proof {
            assert forall|v: JsonVal| value_at(s@, i as int, v) implies (v is Obj && (
            v->Obj_0.len() == 0 ==> (j == i + 1 && j < s@.len() && s@[j as int] == '}')) && (
            v->Obj_0.len() >= 1 ==> (j == i + 1 && mems_at(s@, i as int + 1, v->Obj_0)))) by {
                lemma_json_first(v);
                lemma_value_chars(s@, i as int, v);
                let mems = v->Obj_0;
                let ll = spec_json_members(mems).len() as int;
                assert(spec_json(v) == seq!['{'] + spec_json_members(mems) + seq!['}']);
                assert(forall|m: int|
                    0 <= m < ll ==> spec_json(v)[1 + m] == #[trigger] spec_json_members(mems)[m]);
                assert(spec_json(v)[1 + ll] == '}');
                if mems.len() == 0 {
                    assert(s@[i as int + 1] == '}');
                    assert(!is_ws('}'));
                } else {
                    assert(spec_json_members(mems)[0] == spec_member(mems[0])[0]);
                    assert(spec_member(mems[0])[0] == '"');
                    assert(s@[i as int + 1] == '"');
                    assert(!is_ws('"'));
                    assert(s@.subrange(i + 1, i + 1 + ll) =~= spec_json_members(mems)) by {
                        assert(forall|m: int|
                            0 <= m < ll ==> #[trigger] s@.subrange(i + 1, i + 1 + ll)[m] == s@[i
                                + 1 + m]);
                    }
                    assert(s@[i + 1 + ll] == '}');
                }
            }
        }
        if j < n && s[j] == '}' {
            let out = JsonValue::Obj(Vec::new());
            proof {
                assert(out@ == JsonVal::Obj(Seq::<JsonMemberV>::empty())) by {
                    lemma_obj_view(out);
                    assert(members_view(Seq::<(String, JsonValue)>::empty()) =~= Seq::<
                        JsonMemberV,
                    >::empty());
                    assert(out->Obj_0@ =~= Seq::<(String, JsonValue)>::empty());
                }
                assert forall|v: JsonVal| value_at(s@, i as int, v) implies (out@ == v && j + 1
                    == i + spec_json(v).len()) by {
                    let mems = v->Obj_0;
                    if mems.len() >= 1 {
                        lemma_mems_head(s@, i as int + 1, mems);
                        assert(s@[i as int + 1] == '"');
                    }
                    assert(mems =~= Seq::<JsonMemberV>::empty());
                    assert(spec_json(v).len() == 2);
                }
            }
            return Some((out, j + 1));
        }
        let ri = parse_obj_members(s, j, Vec::new());
        match ri {
            None => {
                proof {
                    assert forall|v: JsonVal| !value_at(s@, i as int, v) by {
                        if value_at(s@, i as int, v) {
                            let mems = v->Obj_0;
                            if mems.len() == 0 {
                                assert(s@[j as int] == '}');
                            } else {
                                assert(mems_at(s@, j as int, mems));
                            }
                        }
                    }
                }
                return None;
            },
            Some((vmems, jj)) => {
                let out = JsonValue::Obj(vmems);
                proof {
                    lemma_obj_view(out);
                    assert forall|v: JsonVal| value_at(s@, i as int, v) implies (out@ == v && jj
                        == i + spec_json(v).len()) by {
                        let mems = v->Obj_0;
                        if mems.len() == 0 {
                            assert(s@[j as int] == '}');
                        }
                        assert(mems_at(s@, j as int, mems));
                        assert(members_view(vmems@) == members_view(
                            Seq::<(String, JsonValue)>::empty(),
                        ) + mems);
                        assert(members_view(Seq::<(String, JsonValue)>::empty()) =~= Seq::<
                            JsonMemberV,
                        >::empty());
                        assert(members_view(vmems@) =~= mems);
                        assert(out@ == JsonVal::Obj(mems));
                        assert(jj == i + 1 + spec_json_members(mems).len() + 1);
                        assert(spec_json(v).len() == 2 + spec_json_members(mems).len());
                    }
                }
                return Some((out, jj));
            },
        }
    }
    proof {
        assert forall|v: JsonVal| !value_at(s@, i as int, v) by {
            if value_at(s@, i as int, v) {
                lemma_json_first(v);
            }
        }
    }
    None
}

/// Parses a nonempty run of array items standing at `i`, up to and past the
/// closing bracket, appending the items to `acc`.
#[verifier::rlimit(100)]
fn parse_arr_items(s: &Vec<char>, i: usize, acc: Vec<JsonValue>) -> (r: Option<
    (Vec<JsonValue>, usize),
>)
    requires
        i <= s@.len(),
    ensures
        forall|elems: Seq<JsonVal>| items_at(s@, i as int, elems) ==> (r matches Some(p)
            && seq_view(p.0@) == seq_view(acc@) + elems && p.1 == i + spec_json_list(elems).len()
            + 1),
        r matches Some(p) ==> i < p.1 <= s@.len(),
    decreases s@.len() - i, 1int,
{
    let n = s.len();
    let rv = parse_value(s, i);
    match rv {
        None => {
            proof {
                assert forall|elems: Seq<JsonVal>| !items_at(s@, i as int, elems) by {
                    if items_at(s@, i as int, elems) {
                        lemma_items_head(s@, i as int, elems);
                    }
                }
            }
            None
        },
        Some((v0, j0)) => {
            let j = skip_ws(s, j0);
            proof {
                assert forall|elems: Seq<JsonVal>| items_at(s@, i as int, elems) implies (v0@
                    == elems[0] && j0 == i + spec_json(elems[0]).len() && j == j0 && j < s@.len()
                    && (elems.len() == 1 ==> s@[j as int] == ']') && (elems.len() >= 2 ==> (
                s@[j as int] == ',' && items_at(s@, j0 as int + 1, elems.drop_first())))) by {
                    lemma_items_head(s@, i as int, elems);
                    assert(!is_ws(',') && !is_ws(']'));
                }
            }
            if j < n && s[j] == ']' {
                let mut acc2 = acc;
                acc2.push(v0);
                proof {
                    lemma_seq_view_push(acc@, v0);
                    assert forall|elems: Seq<JsonVal>| items_at(s@, i as int, elems) implies (
                    seq_view(acc2@) == seq_view(acc@) + elems && j + 1 == i + spec_json_list(
                        elems,
                    ).len() + 1) by {
                        if elems.len() >= 2 {
                            assert(s@[j as int] == ',');
                        }
                        assert(elems.len() == 1);
                        assert(seq_view(acc@).push(elems[0]) =~= seq_view(acc@) + elems);
                    }
                }
                return Some((acc2, j + 1));
            }
            if j < n && s[j] == ',' {
                let j2 = skip_ws(s, j + 1);
                proof {
                    assert forall|elems: Seq<JsonVal>| items_at(s@, i as int, elems) implies (
                    elems.len() >= 2 && j2 == j + 1 && items_at(
                        s@,
                        j2 as int,
                        elems.drop_first(),
                    )) by {
                        if elems.len() == 1 {
                            assert(s@[j as int] == ']');
                        }
                        lemma_items_head(s@, j as int + 1, elems.drop_first());
                        lemma_json_first(elems.drop_first()[0]);
                        assert(spec_json_list(elems.drop_first())[0] == spec_json(
                            elems.drop_first()[0],
                        )[0]) by {
                            lemma_json_first(elems.drop_first()[0]);
                        }
                        assert(s@[j as int + 1] == spec_json_list(elems.drop_first())[0]) by {
                            assert(forall|m: int|
                                0 <= m < spec_json_list(elems.drop_first()).len()
                                    ==> s@.subrange(
                                    j + 1,
                                    j + 1 + spec_json_list(elems.drop_first()).len(),
                                )[m] == #[trigger] spec_json_list(elems.drop_first())[m]);
                        }
                        assert(!is_ws(s@[j as int + 1]));
                    }
                }
                let mut acc2 = acc;
                acc2.push(v0);
                let rr = parse_arr_items(s, j2, acc2);
                proof {
                    lemma_seq_view_push(acc@, v0);
                    assert forall|elems: Seq<JsonVal>| items_at(s@, i as int, elems) implies (
                    rr matches Some(p) && seq_view(p.0@) == seq_view(acc@) + elems && p.1 == i
                        + spec_json_list(elems).len() + 1) by {
                        let rest = elems.drop_first();
                        assert(items_at(s@, j2 as int, rest));
                        assert(rr matches Some(p) && seq_view(p.0@) == seq_view(acc2@) + rest
                            && p.1 == j2 + spec_json_list(rest).len() + 1);
                        assert(seq_view(acc@).push(elems[0]) + rest =~= seq_view(acc@) + elems);
                        assert(spec_json_list(elems).len() == spec_json(elems[0]).len() + 1
                            + spec_json_list(rest).len());
                    }
                }
                return rr;
            }
            proof {
                assert forall|elems: Seq<JsonVal>| !items_at(s@, i as int, elems) by {
                    if items_at(s@, i as int, elems) {
                        if elems.len() == 1 {
                            assert(s@[j as int] == ']');
                        } else {
                            assert(s@[j as int] == ',');
                        }
                    }
                }
            }
            None
        },
    }
}

/// Parses a nonempty run of object members standing at `i`, up to and past
/// the closing brace, appending the members to `acc`.
#[verifier::rlimit(100)]
fn parse_obj_members(s: &Vec<char>, i: usize, acc: Vec<(String, JsonValue)>) -> (r: Option<
    (Vec<(String, JsonValue)>, usize),
>)
    requires
        i <= s@.len(),
    ensures
        forall|mems: Seq<JsonMemberV>| mems_at(s@, i as int, mems) ==> (r matches Some(p)
            && members_view(p.0@) == members_view(acc@) + mems && p.1 == i + spec_json_members(
            mems,
        ).len() + 1),
        r matches Some(p) ==> i < p.1 <= s@.len(),
    decreases s@.len() - i, 1int,
{
    let n = s.len();
    if i >= n || !(s[i] == '"') {
        proof {
            assert forall|mems: Seq<JsonMemberV>| !mems_at(s@, i as int, mems) by {
                if mems_at(s@, i as int, mems) {
                    lemma_mems_head(s@, i as int, mems);
                }
            }
        }
        return None;
    }
    let rk = parse_string(s, i);
    match rk {
        None => {
            proof {
                assert forall|mems: Seq<JsonMemberV>| !mems_at(s@, i as int, mems) by {
                    if mems_at(s@, i as int, mems) {
                        lemma_mems_head(s@, i as int, mems);
                    }
                }
            }
            None
        },
        Some((key, jk)) => {
            let jc = skip_ws(s, jk);
            proof {
                assert forall|mems: Seq<JsonMemberV>| mems_at(s@, i as int, mems) implies (key@
                    == mems[0].key && jk == i + spec_quoted(mems[0].key).len() && jc == jk && jc
                    < s@.len() && s@[jc as int] == ':') by {
                    lemma_mems_head(s@, i as int, mems);
                    assert(!is_ws(':'));
                }
            }
            if !(jc < n && s[jc] == ':') {
                proof {
                    assert forall|mems: Seq<JsonMemberV>| !mems_at(s@, i as int, mems) by {
                        if mems_at(s@, i as int, mems) {
                            assert(s@[jc as int] == ':');
                        }
                    }
                }
                return None;
            }
            let jv = skip_ws(s, jc + 1);
            proof {
                assert forall|mems: Seq<JsonMemberV>| mems_at(s@, i as int, mems) implies (jv == jc
                    + 1 && value_at(s@, jv as int, mems[0].val)) by {
                    lemma_mems_head(s@, i as int, mems);
                    lemma_json_first(mems[0].val);
                    lemma_value_chars(s@, jc as int + 1, mems[0].val);
                    assert(s@[jc as int + 1] == spec_json(mems[0].val)[0]);
                    assert(!is_ws(s@[jc as int + 1]));
                }
            }
            let rv = parse_value(s, jv);
            match rv {
                None => {
                    proof {
                        assert forall|mems: Seq<JsonMemberV>| !mems_at(s@, i as int, mems) by {
                            if mems_at(s@, i as int, mems) {
                                assert(value_at(s@, jv as int, mems[0].val));
                            }
                        }
                    }
                    None
                },
                Some((v0, j0)) => {
                    let j = skip_ws(s, j0);
                    proof {
                        assert forall|mems: Seq<JsonMemberV>| mems_at(s@, i as int, mems) implies (
                        v0@ == mems[0].val && j0 == jv + spec_json(mems[0].val).len() && j == j0
                            && j < s@.len() && j0 == i + spec_member(mems[0]).len() && (mems.len()
                            == 1 ==> s@[j as int] == '}') && (mems.len() >= 2 ==> (s@[j as int]
                            == ',' && mems_at(s@, j0 as int + 1, mems.drop_first())))) by {
                            lemma_mems_head(s@, i as int, mems);
                            assert(!is_ws(',') && !is_ws('}'));
                        }
                    }
                    if j < n && s[j] == '}' {
                        let mut acc2 = acc;
                        acc2.push((key, v0));
                        proof {
                            lemma_members_view_push(acc@, (key, v0));
                            assert forall|mems: Seq<JsonMemberV>|
                                mems_at(s@, i as int, mems) implies (members_view(acc2@)
                                == members_view(acc@) + mems && j + 1 == i + spec_json_members(
                                mems,
                            ).len() + 1) by {
                                if mems.len() >= 2 {
                                    assert(s@[j as int] == ',');
                                }
                                assert(mems.len() == 1);
                                assert(mems[0] == JsonMemberV { key: key@, val: v0@ });
                                assert(members_view(acc@).push(mems[0]) =~= members_view(acc@)
                                    + mems);
                            }
                        }
                        return Some((acc2, j + 1));
                    }
                    if j < n && s[j] == ',' {
                        let j2 = skip_ws(s, j + 1);
                        proof {
                            assert forall|mems: Seq<JsonMemberV>|
                                mems_at(s@, i as int, mems) implies (mems.len() >= 2 && j2 == j + 1
                                && mems_at(s@, j2 as int, mems.drop_first())) by {
                                if mems.len() == 1 {
                                    assert(s@[j as int] == '}');
                                }
                                lemma_mems_head(s@, j as int + 1, mems.drop_first());
                                assert(s@[j as int + 1] == '"') by {
                                    lemma_mems_head(s@, j as int + 1, mems.drop_first());
                                }
                                assert(!is_ws('"'));
                            }
                        }
                        let mut acc2 = acc;
                        acc2.push((key, v0));
                        let rr = parse_obj_members(s, j2, acc2);
                        proof {
                            lemma_members_view_push(acc@, (key, v0));
                            assert forall|mems: Seq<JsonMemberV>|
                                mems_at(s@, i as int, mems) implies (rr matches Some(p)
                                && members_view(p.0@) == members_view(acc@) + mems && p.1 == i
                                + spec_json_members(mems).len() + 1) by {
                                let rest = mems.drop_first();
                                assert(mems_at(s@, j2 as int, rest));
                                assert(rr matches Some(p) && members_view(p.0@) == members_view(
                                    acc2@,
                                ) + rest && p.1 == j2 + spec_json_members(rest).len() + 1);
                                assert(mems[0] == JsonMemberV { key: key@, val: v0@ });
                                assert(members_view(acc@).push(mems[0]) + rest =~= members_view(
                                    acc@,
                                ) + mems);
                                assert(spec_json_members(mems).len() == spec_member(mems[0]).len()
                                    + 1 + spec_json_members(rest).len());
                            }
                        }
                        return rr;
                    }
                    proof {
                        assert forall|mems: Seq<JsonMemberV>| !mems_at(s@, i as int, mems) by {
                            if mems_at(s@, i as int, mems) {
                                if mems.len() == 1 {
                                    assert(s@[j as int] == '}');
                                } else {
                                    assert(s@[j as int] == ',');
                                }
                            }
                        }
                    }
                    None
                },
            }
        },
    }
}

/// Parses a whole JSON document: one value, surrounded by nothing but
/// whitespace. On the canonical text of any well-formed value this returns
/// exactly that value: together with the serializer this is the wire-text
/// round trip.
pub fn parse_json_text(s: &str) -> (r: Option<JsonValue>)
    ensures
        forall|v: JsonVal| json_wf(v) && s@ == spec_json(v) ==> (r matches Some(u) && u@ == v),
{
    let cs = crate::json::chars_of(s);
    let n = cs.len();
    let i = skip_ws(&cs, 0);
    proof {
        assert forall|v: JsonVal| json_wf(v) && s@ == spec_json(v) implies (i == 0 && value_at(
            cs@,
            0,
            v,
        )) by {
            lemma_json_first(v);
            assert(!is_ws(cs@[0]));
            assert(cs@.subrange(0, spec_json(v).len() as int) =~= spec_json(v));
        }
    }
    match parse_value(&cs, i) {
        None => None,
        Some((u, j)) => {
            let j2 = skip_ws(&cs, j);
            if j2 == n {
                Some(u)
            } else {
                proof {
                    assert forall|v: JsonVal| !(json_wf(v) && s@ == spec_json(v)) by {
                        if json_wf(v) && s@ == spec_json(v) {
                            assert(value_at(cs@, 0, v));
                            assert(j == spec_json(v).len());
                        }
                    }
                }
                None
            }
        },
    }
}

} // verus!
