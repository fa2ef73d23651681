//! Statistic-related actions.
use vstd::prelude::*;
use crate::codec::{
    decode_i64, decode_isize, decode_usize, get_i64_field, get_isize_field, get_u64_field,
    get_usize_field, json_u64_vec, obj1, obj2, u64_seq_json,
};
use crate::envelope::spec_lookup;
use crate::json::{JsonMemberV, JsonVal, JsonValue, lemma_arr_view, lemma_obj_view};
use crate::request::{AnkiRequest, dispatch};
use crate::AnkiError;

verus! {

/// Parameters for the "cardReviews" action.
#[derive(Default, Debug, Clone, PartialEq, Eq)]
pub struct CardReviewsRequest {
    /// The deck to list reviews for.
    pub deck: String,
    /// Only reviews after this time are returned.
    pub start_id: usize,
}

/// One review of a card, as the positional entries of the review row.
#[derive(Default, Debug, Clone, PartialEq, Eq)]
pub struct CardReviewsResponse {
    /// The time the review was made.
    pub review_time: usize,
    /// The ID of the reviewed card.
    pub card_id: usize,
    /// The update sequence number.
    pub usn: i64,
    /// The button pressed to answer.
    pub button_pressed: usize,
    /// The new interval of the card.
    pub new_interval: isize,
    /// The previous interval of the card.
    pub previous_interval: isize,
    /// The new ease factor of the card.
    pub new_factor: usize,
    /// How long the review took.
    pub review_duration: usize,
    /// The kind of review.
    pub review_type: usize,
}

/// The JSON row shape of a [`CardReviewsResponse`]: an array of nine
/// numbers, in the row's positional order.
pub open spec fn card_review_rel(v: JsonVal, r: CardReviewsResponse) -> bool {
    &&& v is Arr
    &&& v->Arr_0.len() == 9
    &&& v->Arr_0[0] == JsonVal::Num(r.review_time as int)
    &&& v->Arr_0[1] == JsonVal::Num(r.card_id as int)
    &&& v->Arr_0[2] == JsonVal::Num(r.usn as int)
    &&& v->Arr_0[3] == JsonVal::Num(r.button_pressed as int)
    &&& v->Arr_0[4] == JsonVal::Num(r.new_interval as int)
    &&& v->Arr_0[5] == JsonVal::Num(r.previous_interval as int)
    &&& v->Arr_0[6] == JsonVal::Num(r.new_factor as int)
    &&& v->Arr_0[7] == JsonVal::Num(r.review_duration as int)
    &&& v->Arr_0[8] == JsonVal::Num(r.review_type as int)
}

/// Decodes one review row.
pub(crate) fn decode_card_review(v: &JsonValue) -> (r: Option<CardReviewsResponse>)
    ensures
        r matches Some(x) ==> card_review_rel(v@, x),
        r is None ==> forall|x: CardReviewsResponse| !card_review_rel(v@, x),
{
    match v {
        JsonValue::Arr(items) => {
            proof {
                lemma_arr_view(JsonValue::Arr(*items));
            }
            if items.len() != 9 {
                return None;
            }
            let x0 = match decode_usize(&items[0]) {
                Some(x) => x,
                None => {
                    return None;
                },
            };
            let x1 = match decode_usize(&items[1]) {
                Some(x) => x,
                None => {
                    return None;
                },
            };
            let x2 = match decode_i64(&items[2]) {
                Some(x) => x,
                None => {
                    return None;
                },
            };
            let x3 = match decode_usize(&items[3]) {
                Some(x) => x,
                None => {
                    return None;
                },
            };
            let x4 = match decode_isize(&items[4]) {
                Some(x) => x,
                None => {
                    return None;
                },
            };
            let x5 = match decode_isize(&items[5]) {
                Some(x) => x,
                None => {
                    return None;
                },
            };
            let x6 = match decode_usize(&items[6]) {
                Some(x) => x,
                None => {
                    return None;
                },
            };
            let x7 = match decode_usize(&items[7]) {
                Some(x) => x,
                None => {
                    return None;
                },
            };
            let x8 = match decode_usize(&items[8]) {
                Some(x) => x,
                None => {
                    return None;
                },
            };
            Some(
                CardReviewsResponse {
                    review_time: x0,
                    card_id: x1,
                    usn: x2,
                    button_pressed: x3,
                    new_interval: x4,
                    previous_interval: x5,
                    new_factor: x6,
                    review_duration: x7,
                    review_type: x8,
                },
            )
        },
        _ => None,
    }
}

/// A JSON array decoding elementwise into [`CardReviewsResponse`] records.
pub open spec fn card_review_vec_rel(v: JsonVal, s: Seq<CardReviewsResponse>) -> bool {
    &&& v is Arr
    &&& v->Arr_0.len() == s.len()
    &&& forall|i: int| 0 <= i < s.len() ==> card_review_rel(#[trigger] v->Arr_0[i], s[i])
}

/// Decodes an array of [`CardReviewsResponse`] records.
pub(crate) fn decode_card_review_vec(v: &JsonValue) -> (r: Option<Vec<CardReviewsResponse>>)
    ensures
        r matches Some(xs) ==> card_review_vec_rel(v@, xs@),
        r is None ==> forall|s: Seq<CardReviewsResponse>| !card_review_vec_rel(v@, s),
{
    match v {
        JsonValue::Arr(items) => {
            proof {
                lemma_arr_view(JsonValue::Arr(*items));
            }
            let ghost iv = v@->Arr_0;
            let n = items.len();
            let mut out: Vec<CardReviewsResponse> = Vec::new();
            let mut i: usize = 0;
            while i < n
                invariant
                    i <= n,
                    n == items@.len(),
                    iv.len() == n,
                    forall|j: int| 0 <= j < n ==> iv[j] == (#[trigger] items@[j])@,
                    v@ == JsonVal::Arr(iv),
                    out@.len() == i,
                    forall|j: int| 0 <= j < i ==> card_review_rel(iv[j], #[trigger] out@[j]),
                decreases n - i,
            {
                match decode_card_review(&items[i]) {
                    Some(x) => {
                        out.push(x);
                    },
                    None => {
                        proof {
                            assert forall|s: Seq<CardReviewsResponse>| !card_review_vec_rel(v@, s) by {
                                if card_review_vec_rel(v@, s) {
                                    assert(card_review_rel(iv[i as int], s[i as int]));
                                }
                            }
                        }
                        return None;
                    },
                }
                i += 1;
            }
            Some(out)
        },
        _ => None,
    }
}

impl AnkiRequest for CardReviewsRequest {
    type Response = Vec<CardReviewsResponse>;

    open spec fn spec_action() -> Seq<char> {
        "cardReviews"@
    }

    open spec fn spec_params(&self) -> Option<JsonVal> {
        Some(
            JsonVal::Obj(
                seq![
                    JsonMemberV { key: "deck"@, val: JsonVal::Str(self.deck@) },
                    JsonMemberV { key: "startID"@, val: JsonVal::Num(self.start_id as int) },
                ],
            ),
        )
    }

    open spec fn decodes(v: JsonVal, r: Vec<CardReviewsResponse>) -> bool {
        card_review_vec_rel(v, r@)
    }

    open spec fn is_default(r: Vec<CardReviewsResponse>) -> bool {
        r@ == Seq::<CardReviewsResponse>::empty()
    }

    fn action() -> &'static str {
        "cardReviews"
    }

    fn params(&self) -> (p: Option<JsonValue>) {
        Some(
            obj2(
                "deck",
                JsonValue::Str(self.deck.clone()),
                "startID",
                JsonValue::Num(self.start_id as i128),
            ),
        )
    }

    fn decode_response(v: &JsonValue) -> Option<Vec<CardReviewsResponse>> {
        decode_card_review_vec(v)
    }

    fn default_response() -> Vec<CardReviewsResponse> {
        Vec::new()
    }
}

/// Requests all card reviews for a specified deck after a certain time.
pub fn card_reviews(params: CardReviewsRequest) -> (r: Result<Vec<CardReviewsResponse>, AnkiError>)
    ensures
        r matches Ok(t) ==> ((exists|rv: JsonVal| CardReviewsRequest::decodes(rv, t))
            || CardReviewsRequest::is_default(t)),
{
    dispatch(&params)
}

/// Parameters for the "getReviewsOfCards" action.
#[derive(Default, Debug, Clone, PartialEq, Eq)]
pub struct GetReviewsOfCardsRequest {
    /// IDs of the cards to get reviews for.
    pub cards: Vec<u64>,
}

/// One review of a card.
#[derive(Default, Debug, Clone, PartialEq, Eq)]
pub struct GetReviewsOfCardsResponse {
    /// The time the review was made.
    pub id: u64,
    /// The update sequence number.
    pub usn: i64,
    /// The button pressed to answer.
    pub ease: usize,
    /// The new interval of the card.
    pub ivl: isize,
    /// The previous interval of the card.
    pub last_ivl: isize,
    /// The new ease factor of the card.
    pub factor: usize,
    /// How long the review took.
    pub time: usize,
    /// The kind of review.
    pub type_field: usize,
}

/// The JSON object shape of a [`GetReviewsOfCardsResponse`] record.
pub open spec fn reviews_of_cards_rel(v: JsonVal, r: GetReviewsOfCardsResponse) -> bool {
    &&& v is Obj
    &&& spec_lookup(v->Obj_0, "id"@) == Some(JsonVal::Num(r.id as int))
    &&& spec_lookup(v->Obj_0, "usn"@) == Some(JsonVal::Num(r.usn as int))
    &&& spec_lookup(v->Obj_0, "ease"@) == Some(JsonVal::Num(r.ease as int))
    &&& spec_lookup(v->Obj_0, "ivl"@) == Some(JsonVal::Num(r.ivl as int))
    &&& spec_lookup(v->Obj_0, "lastIvl"@) == Some(JsonVal::Num(r.last_ivl as int))
    &&& spec_lookup(v->Obj_0, "factor"@) == Some(JsonVal::Num(r.factor as int))
    &&& spec_lookup(v->Obj_0, "time"@) == Some(JsonVal::Num(r.time as int))
    &&& spec_lookup(v->Obj_0, "type"@) == Some(JsonVal::Num(r.type_field as int))
}

/// Decodes one [`GetReviewsOfCardsResponse`] record.
pub(crate) fn decode_reviews_of_cards(v: &JsonValue) -> (r: Option<GetReviewsOfCardsResponse>)
    ensures
        r matches Some(x) ==> reviews_of_cards_rel(v@, x),
        r is None ==> forall|x: GetReviewsOfCardsResponse| !reviews_of_cards_rel(v@, x),
{
    match v {
        JsonValue::Obj(pairs) => {
            proof {
                lemma_obj_view(JsonValue::Obj(*pairs));
            }
            let x_id = match get_u64_field(pairs, "id") {
                Some(x) => x,
                None => {
                    return None;
                },
            };
            let x_usn = match get_i64_field(pairs, "usn") {
                Some(x) => x,
                None => {
                    return None;
                },
            };
            let x_ease = match get_usize_field(pairs, "ease") {
                Some(x) => x,
                None => {
                    return None;
                },
            };
            let x_ivl = match get_isize_field(pairs, "ivl") {
                Some(x) => x,
                None => {
                    return None;
                },
            };
            let x_last_ivl = match get_isize_field(pairs, "lastIvl") {
                Some(x) => x,
                None => {
                    return None;
                },
            };
            let x_factor = match get_usize_field(pairs, "factor") {
                Some(x) => x,
                None => {
                    return None;
                },
            };
            let x_time = match get_usize_field(pairs, "time") {
                Some(x) => x,
                None => {
                    return None;
                },
            };
            let x_type_field = match get_usize_field(pairs, "type") {
                Some(x) => x,
                None => {
                    return None;
                },
            };
            Some(GetReviewsOfCardsResponse { id: x_id, usn: x_usn, ease: x_ease, ivl: x_ivl, last_ivl: x_last_ivl, factor: x_factor, time: x_time, type_field: x_type_field })
        },
        _ => None,
    }
}

/// A JSON array decoding elementwise into [`GetReviewsOfCardsResponse`] records.
pub open spec fn reviews_of_cards_vec_rel(v: JsonVal, s: Seq<GetReviewsOfCardsResponse>) -> bool {
    &&& v is Arr
    &&& v->Arr_0.len() == s.len()
    &&& forall|i: int| 0 <= i < s.len() ==> reviews_of_cards_rel(#[trigger] v->Arr_0[i], s[i])
}

/// Decodes an array of [`GetReviewsOfCardsResponse`] records.
pub(crate) fn decode_reviews_of_cards_vec(v: &JsonValue) -> (r: Option<Vec<GetReviewsOfCardsResponse>>)
    ensures
        r matches Some(xs) ==> reviews_of_cards_vec_rel(v@, xs@),
        r is None ==> forall|s: Seq<GetReviewsOfCardsResponse>| !reviews_of_cards_vec_rel(v@, s),
{
    match v {
        JsonValue::Arr(items) => {
            proof {
                lemma_arr_view(JsonValue::Arr(*items));
            }
            let ghost iv = v@->Arr_0;
            let n = items.len();
            let mut out: Vec<GetReviewsOfCardsResponse> = Vec::new();
            let mut i: usize = 0;
            while i < n
                invariant
                    i <= n,
                    n == items@.len(),
                    iv.len() == n,
                    forall|j: int| 0 <= j < n ==> iv[j] == (#[trigger] items@[j])@,
                    v@ == JsonVal::Arr(iv),
                    out@.len() == i,
                    forall|j: int| 0 <= j < i ==> reviews_of_cards_rel(iv[j], #[trigger] out@[j]),
                decreases n - i,
            {
                match decode_reviews_of_cards(&items[i]) {
                    Some(x) => {
                        out.push(x);
                    },
                    None => {
                        proof {
                            assert forall|s: Seq<GetReviewsOfCardsResponse>| !reviews_of_cards_vec_rel(v@, s) by {
                                if reviews_of_cards_vec_rel(v@, s) {
                                    assert(reviews_of_cards_rel(iv[i as int], s[i as int]));
                                }
                            }
                        }
                        return None;
                    },
                }
                i += 1;
            }
            Some(out)
        },
        _ => None,
    }
}

/// A JSON object decoding memberwise into key-value pairs.
pub open spec fn reviews_of_cards_pairs_rel(v: JsonVal, s: Seq<(String, Vec<GetReviewsOfCardsResponse>)>) -> bool {
    &&& v is Obj
    &&& v->Obj_0.len() == s.len()
    &&& forall|i: int| 0 <= i < s.len() ==> ((#[trigger] v->Obj_0[i]).key == s[i].0@ && reviews_of_cards_vec_rel(v->Obj_0[i].val, s[i].1@))
}

/// Decodes an object into key-value pairs, keeping the members' order.
pub(crate) fn decode_reviews_of_cards_pairs(v: &JsonValue) -> (r: Option<Vec<(String, Vec<GetReviewsOfCardsResponse>)>>)
    ensures
        r matches Some(xs) ==> reviews_of_cards_pairs_rel(v@, xs@),
        r is None ==> forall|s: Seq<(String, Vec<GetReviewsOfCardsResponse>)>| !reviews_of_cards_pairs_rel(v@, s),
{
    match v {
        JsonValue::Obj(pairs) => {
            proof {
                lemma_obj_view(JsonValue::Obj(*pairs));
            }
            let ghost pv = v@->Obj_0;
            let n = pairs.len();
            let mut out: Vec<(String, Vec<GetReviewsOfCardsResponse>)> = Vec::new();
            let mut i: usize = 0;
            while i < n
                invariant
                    i <= n,
                    n == pairs@.len(),
                    pv.len() == n,
                    forall|j: int| 0 <= j < n ==> pv[j] == (JsonMemberV {
                        key: (#[trigger] pairs@[j]).0@,
                        val: pairs@[j].1@,
                    }),
                    v@ == JsonVal::Obj(pv),
                    out@.len() == i,
                    forall|j: int| 0 <= j < i ==> (pv[j].key == (#[trigger] out@[j]).0@ && reviews_of_cards_vec_rel(pv[j].val, out@[j].1@)),
                decreases n - i,
            {
                match decode_reviews_of_cards_vec(&pairs[i].1) {
                    Some(x) => {
                        out.push((pairs[i].0.clone(), x));
                    },
                    None => {
                        proof {
                            assert forall|s: Seq<(String, Vec<GetReviewsOfCardsResponse>)>| !reviews_of_cards_pairs_rel(v@, s) by {
                                if reviews_of_cards_pairs_rel(v@, s) {
                                    assert(reviews_of_cards_vec_rel(pv[i as int].val, s[i as int].1@));
                                }
                            }
                        }
                        return None;
                    },
                }
                i += 1;
            }
            Some(out)
        },
        _ => None,
    }
}

impl AnkiRequest for GetReviewsOfCardsRequest {
    type Response = Vec<(String, Vec<GetReviewsOfCardsResponse>)>;

    open spec fn spec_action() -> Seq<char> {
        "getReviewsOfCards"@
    }

    open spec fn spec_params(&self) -> Option<JsonVal> {
        Some(
            JsonVal::Obj(seq![JsonMemberV { key: "cards"@, val: u64_seq_json(self.cards@) }]),
        )
    }

    open spec fn decodes(v: JsonVal, r: Vec<(String, Vec<GetReviewsOfCardsResponse>)>) -> bool {
        reviews_of_cards_pairs_rel(v, r@)
    }

    open spec fn is_default(r: Vec<(String, Vec<GetReviewsOfCardsResponse>)>) -> bool {
        r@ == Seq::<(String, Vec<GetReviewsOfCardsResponse>)>::empty()
    }

    fn action() -> &'static str {
        "getReviewsOfCards"
    }

    fn params(&self) -> (p: Option<JsonValue>) {
        Some(obj1("cards", json_u64_vec(&self.cards)))
    }

    fn decode_response(v: &JsonValue) -> Option<Vec<(String, Vec<GetReviewsOfCardsResponse>)>> {
        decode_reviews_of_cards_pairs(v)
    }

    fn default_response() -> Vec<(String, Vec<GetReviewsOfCardsResponse>)> {
        Vec::new()
    }
}

/// Requests all card reviews for each card ID, returned as an object keyed
/// by card ID.
pub fn get_reviews_of_cards(params: GetReviewsOfCardsRequest) -> (r: Result<Vec<(String, Vec<GetReviewsOfCardsResponse>)>, AnkiError>)
    ensures
        r matches Ok(t) ==> ((exists|rv: JsonVal| GetReviewsOfCardsRequest::decodes(rv, t))
            || GetReviewsOfCardsRequest::is_default(t)),
{
    dispatch(&params)
}

} // verus!
