//! Card-related actions.
use vstd::prelude::*;
use crate::codec::{
    bool_vec_rel, decode_bool, decode_bool_vec, decode_isize_vec, decode_isize_vec_vec,
    decode_usize_vec, get_string_field, get_usize_field, isize_vec_rel, isize_vec_vec_rel,
    json_string_vec, json_usize_vec, obj1, obj2, obj3, obj_get, string_seq_json,
    usize_seq_json, usize_vec_rel,
};
use crate::envelope::spec_lookup;
use crate::json::{JsonMemberV, JsonVal, JsonValue, lemma_arr_view, lemma_obj_view};
use crate::request::{AnkiRequest, dispatch};
use crate::AnkiError;

verus! {

/// Parameters for the "getEaseFactors" action.
#[derive(Default, Debug, Clone, PartialEq)]
pub struct GetEaseFactorsParams {
    /// IDs of the cards for which to retrieve ease factors.
    pub cards: Vec<usize>,
}

impl AnkiRequest for GetEaseFactorsParams {
    type Response = Vec<usize>;

    open spec fn spec_action() -> Seq<char> {
        "getEaseFactors"@
    }

    open spec fn spec_params(&self) -> Option<JsonVal> {
        Some(
            JsonVal::Obj(
                seq![JsonMemberV { key: "cards"@, val: usize_seq_json(self.cards@) }],
            ),
        )
    }

    open spec fn decodes(v: JsonVal, r: Vec<usize>) -> bool {
        usize_vec_rel(v, r@)
    }

    open spec fn is_default(r: Vec<usize>) -> bool {
        r@ == Seq::<usize>::empty()
    }

    fn action() -> &'static str {
        "getEaseFactors"
    }

    fn params(&self) -> (p: Option<JsonValue>) {
        Some(obj1("cards", json_usize_vec(&self.cards)))
    }

    fn decode_response(v: &JsonValue) -> Option<Vec<usize>> {
        decode_usize_vec(v)
    }

    fn default_response() -> Vec<usize> {
        Vec::new()
    }
}

/// Returns an array with the ease factor for each of the given cards (in the
/// same order).
pub fn get_ease_factors(params: GetEaseFactorsParams) -> (r: Result<Vec<usize>, AnkiError>)
    ensures
        r matches Ok(t) ==> ((exists|rv: JsonVal| GetEaseFactorsParams::decodes(rv, t))
            || GetEaseFactorsParams::is_default(t)),
{
    dispatch(&params)
}

/// Parameters for the "setEaseFactors" action.
#[derive(Default, Debug, Clone, PartialEq)]
pub struct SetEaseFactorsParams {
    /// IDs of the cards for which to set ease factors.
    pub cards: Vec<usize>,
    /// Ease factors to set for the corresponding cards.
    pub ease_factors: Vec<usize>,
}

impl AnkiRequest for SetEaseFactorsParams {
    type Response = Vec<bool>;

    open spec fn spec_action() -> Seq<char> {
        "setEaseFactors"@
    }

    open spec fn spec_params(&self) -> Option<JsonVal> {
        Some(
            JsonVal::Obj(
                seq![
                    JsonMemberV { key: "cards"@, val: usize_seq_json(self.cards@) },
                    JsonMemberV { key: "easeFactors"@, val: usize_seq_json(self.ease_factors@) },
                ],
            ),
        )
    }

    open spec fn decodes(v: JsonVal, r: Vec<bool>) -> bool {
        bool_vec_rel(v, r@)
    }

    open spec fn is_default(r: Vec<bool>) -> bool {
        r@ == Seq::<bool>::empty()
    }

    fn action() -> &'static str {
        "setEaseFactors"
    }

    fn params(&self) -> (p: Option<JsonValue>) {
        Some(
            obj2(
                "cards",
                json_usize_vec(&self.cards),
                "easeFactors",
                json_usize_vec(&self.ease_factors),
            ),
        )
    }

    fn decode_response(v: &JsonValue) -> Option<Vec<bool>> {
        decode_bool_vec(v)
    }

    fn default_response() -> Vec<bool> {
        Vec::new()
    }
}

/// Sets ease factor of cards by card ID; returns [true] if successful (all
/// cards existed) or [false] otherwise.
pub fn set_ease_factors(params: SetEaseFactorsParams) -> (r: Result<Vec<bool>, AnkiError>)
    ensures
        r matches Ok(t) ==> ((exists|rv: JsonVal| SetEaseFactorsParams::decodes(rv, t))
            || SetEaseFactorsParams::is_default(t)),
{
    dispatch(&params)
}

/// Parameters for the "setSpecificValueOfCard" action.
#[derive(Default, Debug, Clone, PartialEq)]
pub struct SetSpecificValueOfCardParams {
    /// ID of the card for which to set specific values.
    pub card: usize,
    /// Keys of the specific values to set.
    pub keys: Vec<String>,
    /// New values to set for the corresponding keys.
    pub new_values: Vec<String>,
}

impl AnkiRequest for SetSpecificValueOfCardParams {
    type Response = Vec<bool>;

    open spec fn spec_action() -> Seq<char> {
        "setSpecificValueOfCard"@
    }

    open spec fn spec_params(&self) -> Option<JsonVal> {
        Some(
            JsonVal::Obj(
                seq![
                    JsonMemberV { key: "card"@, val: JsonVal::Num(self.card as int) },
                    JsonMemberV { key: "keys"@, val: string_seq_json(self.keys@) },
                    JsonMemberV { key: "newValues"@, val: string_seq_json(self.new_values@) },
                ],
            ),
        )
    }

    open spec fn decodes(v: JsonVal, r: Vec<bool>) -> bool {
        bool_vec_rel(v, r@)
    }

    open spec fn is_default(r: Vec<bool>) -> bool {
        r@ == Seq::<bool>::empty()
    }

    fn action() -> &'static str {
        "setSpecificValueOfCard"
    }

    fn params(&self) -> (p: Option<JsonValue>) {
        Some(
            obj3(
                "card",
                JsonValue::Num(self.card as i128),
                "keys",
                json_string_vec(&self.keys),
                "newValues",
                json_string_vec(&self.new_values),
            ),
        )
    }

    fn decode_response(v: &JsonValue) -> Option<Vec<bool>> {
        decode_bool_vec(v)
    }

    fn default_response() -> Vec<bool> {
        Vec::new()
    }
}

/// Sets specific value of a single card. Given the risk of wreaking havoc in
/// the database when changing some of the values of a card, some of the keys
/// require the argument "warning_check" set to true.
pub fn set_specific_value_of_card(params: SetSpecificValueOfCardParams) -> (r: Result<Vec<bool>, AnkiError>)
    ensures
        r matches Ok(t) ==> ((exists|rv: JsonVal| SetSpecificValueOfCardParams::decodes(rv, t))
            || SetSpecificValueOfCardParams::is_default(t)),
{
    dispatch(&params)
}

/// Parameters for the "suspend" action.
#[derive(Default, Debug, Clone, PartialEq)]
pub struct SuspendParams {
    /// IDs of the cards to suspend.
    pub cards: Vec<usize>,
}

impl AnkiRequest for SuspendParams {
    type Response = bool;

    open spec fn spec_action() -> Seq<char> {
        "suspend"@
    }

    open spec fn spec_params(&self) -> Option<JsonVal> {
        Some(
            JsonVal::Obj(
                seq![JsonMemberV { key: "cards"@, val: usize_seq_json(self.cards@) }],
            ),
        )
    }

    open spec fn decodes(v: JsonVal, r: bool) -> bool {
        v == JsonVal::Bool(r)
    }

    open spec fn is_default(r: bool) -> bool {
        r == false
    }

    fn action() -> &'static str {
        "suspend"
    }

    fn params(&self) -> (p: Option<JsonValue>) {
        Some(obj1("cards", json_usize_vec(&self.cards)))
    }

    fn decode_response(v: &JsonValue) -> Option<bool> {
        decode_bool(v)
    }

    fn default_response() -> bool {
        false
    }
}

/// Suspend cards by card ID; returns [true] if successful (at least one card
/// wasn’t already suspended) or [false] otherwise.
pub fn suspend(params: SuspendParams) -> (r: Result<bool, AnkiError>)
    ensures
        r matches Ok(t) ==> ((exists|rv: JsonVal| SuspendParams::decodes(rv, t))
            || SuspendParams::is_default(t)),
{
    dispatch(&params)
}

/// Parameters for the "unsuspend" action.
#[derive(Default, Debug, Clone, PartialEq)]
pub struct UnsuspendParams {
    /// IDs of the cards to unsuspend.
    pub cards: Vec<usize>,
}

impl AnkiRequest for UnsuspendParams {
    type Response = bool;

    open spec fn spec_action() -> Seq<char> {
        "unsuspend"@
    }

    open spec fn spec_params(&self) -> Option<JsonVal> {
        Some(
            JsonVal::Obj(
                seq![JsonMemberV { key: "cards"@, val: usize_seq_json(self.cards@) }],
            ),
        )
    }

    open spec fn decodes(v: JsonVal, r: bool) -> bool {
        v == JsonVal::Bool(r)
    }

    open spec fn is_default(r: bool) -> bool {
        r == false
    }

    fn action() -> &'static str {
        "unsuspend"
    }

    fn params(&self) -> (p: Option<JsonValue>) {
        Some(obj1("cards", json_usize_vec(&self.cards)))
    }

    fn decode_response(v: &JsonValue) -> Option<bool> {
        decode_bool(v)
    }

    fn default_response() -> bool {
        false
    }
}

/// Unsuspend cards by card ID; returns [true] if successful (at least one
/// card was previously suspended) or [false] otherwise.
pub fn unsuspend(params: UnsuspendParams) -> (r: Result<bool, AnkiError>)
    ensures
        r matches Ok(t) ==> ((exists|rv: JsonVal| UnsuspendParams::decodes(rv, t))
            || UnsuspendParams::is_default(t)),
{
    dispatch(&params)
}

/// Parameters for the "suspended" action.
#[derive(Default, Debug, Clone, PartialEq)]
pub struct SuspendedParams {
    /// ID of the card to check.
    pub card: usize,
}

impl AnkiRequest for SuspendedParams {
    type Response = bool;

    open spec fn spec_action() -> Seq<char> {
        "suspended"@
    }

    open spec fn spec_params(&self) -> Option<JsonVal> {
        Some(
            JsonVal::Obj(seq![JsonMemberV { key: "card"@, val: JsonVal::Num(self.card as int) }]),
        )
    }

    open spec fn decodes(v: JsonVal, r: bool) -> bool {
        v == JsonVal::Bool(r)
    }

    open spec fn is_default(r: bool) -> bool {
        r == false
    }

    fn action() -> &'static str {
        "suspended"
    }

    fn params(&self) -> (p: Option<JsonValue>) {
        Some(obj1("card", JsonValue::Num(self.card as i128)))
    }

    fn decode_response(v: &JsonValue) -> Option<bool> {
        decode_bool(v)
    }

    fn default_response() -> bool {
        false
    }
}

/// Check if card is suspended by its ID. Returns [true] if suspended, [false]
/// otherwise.
pub fn suspended(params: SuspendedParams) -> (r: Result<bool, AnkiError>)
    ensures
        r matches Ok(t) ==> ((exists|rv: JsonVal| SuspendedParams::decodes(rv, t))
            || SuspendedParams::is_default(t)),
{
    dispatch(&params)
}

/// Parameters for the "areSuspended" action.
#[derive(Default, Debug, Clone, PartialEq)]
pub struct AreSuspendedParams {
    /// IDs of the cards to check.
    pub cards: Vec<usize>,
}

impl AnkiRequest for AreSuspendedParams {
    type Response = Vec<bool>;

    open spec fn spec_action() -> Seq<char> {
        "areSuspended"@
    }

    open spec fn spec_params(&self) -> Option<JsonVal> {
        Some(
            JsonVal::Obj(
                seq![JsonMemberV { key: "cards"@, val: usize_seq_json(self.cards@) }],
            ),
        )
    }

    open spec fn decodes(v: JsonVal, r: Vec<bool>) -> bool {
        bool_vec_rel(v, r@)
    }

    open spec fn is_default(r: Vec<bool>) -> bool {
        r@ == Seq::<bool>::empty()
    }

    fn action() -> &'static str {
        "areSuspended"
    }

    fn params(&self) -> (p: Option<JsonValue>) {
        Some(obj1("cards", json_usize_vec(&self.cards)))
    }

    fn decode_response(v: &JsonValue) -> Option<Vec<bool>> {
        decode_bool_vec(v)
    }

    fn default_response() -> Vec<bool> {
        Vec::new()
    }
}

/// Returns an array indicating whether each of the given cards is suspended
/// (in the same order). If card doesn’t exist returns `null`.
pub fn are_suspended(params: AreSuspendedParams) -> (r: Result<Vec<bool>, AnkiError>)
    ensures
        r matches Ok(t) ==> ((exists|rv: JsonVal| AreSuspendedParams::decodes(rv, t))
            || AreSuspendedParams::is_default(t)),
{
    dispatch(&params)
}

/// Parameters for the "areDue" action.
#[derive(Default, Debug, Clone, PartialEq)]
pub struct AreDueParams {
    /// IDs of the cards to check.
    pub cards: Vec<usize>,
}

impl AnkiRequest for AreDueParams {
    type Response = Vec<bool>;

    open spec fn spec_action() -> Seq<char> {
        "areDue"@
    }

    open spec fn spec_params(&self) -> Option<JsonVal> {
        Some(
            JsonVal::Obj(
                seq![JsonMemberV { key: "cards"@, val: usize_seq_json(self.cards@) }],
            ),
        )
    }

    open spec fn decodes(v: JsonVal, r: Vec<bool>) -> bool {
        bool_vec_rel(v, r@)
    }

    open spec fn is_default(r: Vec<bool>) -> bool {
        r@ == Seq::<bool>::empty()
    }

    fn action() -> &'static str {
        "areDue"
    }

    fn params(&self) -> (p: Option<JsonValue>) {
        Some(obj1("cards", json_usize_vec(&self.cards)))
    }

    fn decode_response(v: &JsonValue) -> Option<Vec<bool>> {
        decode_bool_vec(v)
    }

    fn default_response() -> Vec<bool> {
        Vec::new()
    }
}

/// Returns an array indicating whether each of the given cards is due (in the
/// same order). Note: cards in the learning queue with a large interval (over
/// 20 minutes) are treated as not due until the time of their interval has
/// passed, to match the way Anki treats them when reviewing.
pub fn are_due(params: AreDueParams) -> (r: Result<Vec<bool>, AnkiError>)
    ensures
        r matches Ok(t) ==> ((exists|rv: JsonVal| AreDueParams::decodes(rv, t))
            || AreDueParams::is_default(t)),
{
    dispatch(&params)
}

/// Parameters for the "areDue" action.
#[derive(Default, Debug, Clone, PartialEq)]
pub struct AreDueRequest {
    /// IDs of the cards to check.
    pub cards: Vec<usize>,
}

impl AnkiRequest for AreDueRequest {
    type Response = Vec<bool>;

    open spec fn spec_action() -> Seq<char> {
        "areDue"@
    }

    open spec fn spec_params(&self) -> Option<JsonVal> {
        Some(
            JsonVal::Obj(
                seq![JsonMemberV { key: "cards"@, val: usize_seq_json(self.cards@) }],
            ),
        )
    }

    open spec fn decodes(v: JsonVal, r: Vec<bool>) -> bool {
        bool_vec_rel(v, r@)
    }

    open spec fn is_default(r: Vec<bool>) -> bool {
        r@ == Seq::<bool>::empty()
    }

    fn action() -> &'static str {
        "areDue"
    }

    fn params(&self) -> (p: Option<JsonValue>) {
        Some(obj1("cards", json_usize_vec(&self.cards)))
    }

    fn decode_response(v: &JsonValue) -> Option<Vec<bool>> {
        decode_bool_vec(v)
    }

    fn default_response() -> Vec<bool> {
        Vec::new()
    }
}

/// Parameters for the "getIntervals" action.
#[derive(Default, Debug, Clone, PartialEq)]
pub struct GetIntervalsParams {
    /// IDs of the cards to retrieve intervals for.
    pub cards: Vec<usize>,
}

impl AnkiRequest for GetIntervalsParams {
    type Response = Vec<isize>;

    open spec fn spec_action() -> Seq<char> {
        "getIntervals"@
    }

    open spec fn spec_params(&self) -> Option<JsonVal> {
        Some(
            JsonVal::Obj(
                seq![JsonMemberV { key: "cards"@, val: usize_seq_json(self.cards@) }],
            ),
        )
    }

    open spec fn decodes(v: JsonVal, r: Vec<isize>) -> bool {
        isize_vec_rel(v, r@)
    }

    open spec fn is_default(r: Vec<isize>) -> bool {
        r@ == Seq::<isize>::empty()
    }

    fn action() -> &'static str {
        "getIntervals"
    }

    fn params(&self) -> (p: Option<JsonValue>) {
        Some(obj1("cards", json_usize_vec(&self.cards)))
    }

    fn decode_response(v: &JsonValue) -> Option<Vec<isize>> {
        decode_isize_vec(v)
    }

    fn default_response() -> Vec<isize> {
        Vec::new()
    }
}

/// Returns an array of the most recent intervals for each given card ID.
/// Negative intervals are in seconds and positive intervals in days.
pub fn get_intervals(params: GetIntervalsParams) -> (r: Result<Vec<isize>, AnkiError>)
    ensures
        r matches Ok(t) ==> ((exists|rv: JsonVal| GetIntervalsParams::decodes(rv, t))
            || GetIntervalsParams::is_default(t)),
{
    dispatch(&params)
}

/// Parameters for the "getIntervals" action alternative.
#[derive(Default, Debug, Clone, PartialEq)]
pub struct GetIntervalsAlternativeParams {
    /// IDs of the cards to retrieve intervals for.
    pub cards: Vec<usize>,
    /// Determines whether to return a complete 2-dimensional array of intervals.
    pub complete: bool,
}

impl AnkiRequest for GetIntervalsAlternativeParams {
    type Response = Vec<Vec<isize>>;

    open spec fn spec_action() -> Seq<char> {
        "getIntervals"@
    }

    open spec fn spec_params(&self) -> Option<JsonVal> {
        Some(
            JsonVal::Obj(
                seq![
                    JsonMemberV { key: "cards"@, val: usize_seq_json(self.cards@) },
                    JsonMemberV { key: "complete"@, val: JsonVal::Bool(self.complete) },
                ],
            ),
        )
    }

    open spec fn decodes(v: JsonVal, r: Vec<Vec<isize>>) -> bool {
        isize_vec_vec_rel(v, r@)
    }

    open spec fn is_default(r: Vec<Vec<isize>>) -> bool {
        r@ == Seq::<Vec<isize>>::empty()
    }

    fn action() -> &'static str {
        "getIntervals"
    }

    fn params(&self) -> (p: Option<JsonValue>) {
        Some(
            obj2(
                "cards",
                json_usize_vec(&self.cards),
                "complete",
                JsonValue::Bool(self.complete),
            ),
        )
    }

    fn decode_response(v: &JsonValue) -> Option<Vec<Vec<isize>>> {
        decode_isize_vec_vec(v)
    }

    fn default_response() -> Vec<Vec<isize>> {
        Vec::new()
    }
}

/// Returns a 2-dimensional array of all the intervals for each given card ID
/// when `complete` is [true]. Negative intervals are in seconds and positive
/// intervals in days.
pub fn get_intervals_alternative(params: GetIntervalsAlternativeParams) -> (r: Result<Vec<Vec<isize>>, AnkiError>)
    ensures
        r matches Ok(t) ==> ((exists|rv: JsonVal| GetIntervalsAlternativeParams::decodes(rv, t))
            || GetIntervalsAlternativeParams::is_default(t)),
{
    dispatch(&params)
}

/// Parameters for the "findCards" action.
#[derive(Default, Debug, Clone, PartialEq)]
pub struct FindCardsParams {
    /// The query string used to search for cards.
    pub query: String,
}

impl AnkiRequest for FindCardsParams {
    type Response = Vec<usize>;

    open spec fn spec_action() -> Seq<char> {
        "findCards"@
    }

    open spec fn spec_params(&self) -> Option<JsonVal> {
        Some(
            JsonVal::Obj(seq![JsonMemberV { key: "query"@, val: JsonVal::Str(self.query@) }]),
        )
    }

    open spec fn decodes(v: JsonVal, r: Vec<usize>) -> bool {
        usize_vec_rel(v, r@)
    }

    open spec fn is_default(r: Vec<usize>) -> bool {
        r@ == Seq::<usize>::empty()
    }

    fn action() -> &'static str {
        "findCards"
    }

    fn params(&self) -> (p: Option<JsonValue>) {
        Some(obj1("query", JsonValue::Str(self.query.clone())))
    }

    fn decode_response(v: &JsonValue) -> Option<Vec<usize>> {
        decode_usize_vec(v)
    }

    fn default_response() -> Vec<usize> {
        Vec::new()
    }
}

/// Returns an array of card IDs for a given query. Functionally identical to
/// `guiBrowse` but doesn’t use the GUI for better performance.
pub fn find_cards(params: FindCardsParams) -> (r: Result<Vec<usize>, AnkiError>)
    ensures
        r matches Ok(t) ==> ((exists|rv: JsonVal| FindCardsParams::decodes(rv, t))
            || FindCardsParams::is_default(t)),
{
    dispatch(&params)
}

/// Parameters for the "cardsToNotes" action.
#[derive(Default, Debug, Clone, PartialEq)]
pub struct CardsToNotesParams {
    /// The card IDs for which to retrieve the corresponding note IDs.
    pub cards: Vec<usize>,
}

impl AnkiRequest for CardsToNotesParams {
    type Response = Vec<usize>;

    open spec fn spec_action() -> Seq<char> {
        "cardsToNotes"@
    }

    open spec fn spec_params(&self) -> Option<JsonVal> {
        Some(
            JsonVal::Obj(
                seq![JsonMemberV { key: "cards"@, val: usize_seq_json(self.cards@) }],
            ),
        )
    }

    open spec fn decodes(v: JsonVal, r: Vec<usize>) -> bool {
        usize_vec_rel(v, r@)
    }

    open spec fn is_default(r: Vec<usize>) -> bool {
        r@ == Seq::<usize>::empty()
    }

    fn action() -> &'static str {
        "cardsToNotes"
    }

    fn params(&self) -> (p: Option<JsonValue>) {
        Some(obj1("cards", json_usize_vec(&self.cards)))
    }

    fn decode_response(v: &JsonValue) -> Option<Vec<usize>> {
        decode_usize_vec(v)
    }

    fn default_response() -> Vec<usize> {
        Vec::new()
    }
}

/// Returns an unordered array of note IDs for the given card IDs. For cards
/// with the same note, the ID is only given once in the array.
pub fn cards_to_notes(params: CardsToNotesParams) -> (r: Result<Vec<usize>, AnkiError>)
    ensures
        r matches Ok(t) ==> ((exists|rv: JsonVal| CardsToNotesParams::decodes(rv, t))
            || CardsToNotesParams::is_default(t)),
{
    dispatch(&params)
}

/// Parameters for the "cardsModTime" action.
#[derive(Default, Debug, Clone, PartialEq)]
pub struct CardsModTimeParams {
    /// The card IDs for which to retrieve the modification time.
    pub cards: Vec<usize>,
}

/// Represents the modification time of a card.
#[derive(Default, Debug, Clone, PartialEq)]
pub struct CardsModTime {
    /// The ID of the card.
    pub card_id: usize,
    /// The modification time of the card.
    pub mod_: usize,
}

/// The JSON object shape of a [`CardsModTime`] record.
pub open spec fn cards_mod_time_rel(v: JsonVal, r: CardsModTime) -> bool {
    &&& v is Obj
    &&& spec_lookup(v->Obj_0, "cardId"@) == Some(JsonVal::Num(r.card_id as int))
    &&& spec_lookup(v->Obj_0, "mod"@) == Some(JsonVal::Num(r.mod_ as int))
}

/// Decodes one [`CardsModTime`] record.
pub(crate) fn decode_cards_mod_time(v: &JsonValue) -> (r: Option<CardsModTime>)
    ensures
        r matches Some(x) ==> cards_mod_time_rel(v@, x),
        r is None ==> forall|x: CardsModTime| !cards_mod_time_rel(v@, x),
{
    match v {
        JsonValue::Obj(pairs) => {
            proof {
                lemma_obj_view(JsonValue::Obj(*pairs));
            }
            let x_card_id = match get_usize_field(pairs, "cardId") {
                Some(x) => x,
                None => {
                    return None;
                },
            };
            let x_mod_ = match get_usize_field(pairs, "mod") {
                Some(x) => x,
                None => {
                    return None;
                },
            };
            Some(CardsModTime { card_id: x_card_id, mod_: x_mod_ })
        },
        _ => None,
    }
}

/// A JSON array decoding elementwise into [`CardsModTime`] records.
pub open spec fn cards_mod_time_vec_rel(v: JsonVal, s: Seq<CardsModTime>) -> bool {
    &&& v is Arr
    &&& v->Arr_0.len() == s.len()
    &&& forall|i: int| 0 <= i < s.len() ==> cards_mod_time_rel(#[trigger] v->Arr_0[i], s[i])
}

/// Decodes an array of [`CardsModTime`] records.
pub(crate) fn decode_cards_mod_time_vec(v: &JsonValue) -> (r: Option<Vec<CardsModTime>>)
    ensures
        r matches Some(xs) ==> cards_mod_time_vec_rel(v@, xs@),
        r is None ==> forall|s: Seq<CardsModTime>| !cards_mod_time_vec_rel(v@, s),
{
    match v {
        JsonValue::Arr(items) => {
            proof {
                lemma_arr_view(JsonValue::Arr(*items));
            }
            let ghost iv = v@->Arr_0;
            let n = items.len();
            let mut out: Vec<CardsModTime> = Vec::new();
            let mut i: usize = 0;
            while i < n
                invariant
                    i <= n,
                    n == items@.len(),
                    iv.len() == n,
                    forall|j: int| 0 <= j < n ==> iv[j] == (#[trigger] items@[j])@,
                    v@ == JsonVal::Arr(iv),
                    out@.len() == i,
                    forall|j: int| 0 <= j < i ==> cards_mod_time_rel(iv[j], #[trigger] out@[j]),
                decreases n - i,
            {
                match decode_cards_mod_time(&items[i]) {
                    Some(x) => {
                        out.push(x);
                    },
                    None => {
                        proof {
                            assert forall|s: Seq<CardsModTime>| !cards_mod_time_vec_rel(v@, s) by {
                                if cards_mod_time_vec_rel(v@, s) {
                                    assert(cards_mod_time_rel(iv[i as int], s[i as int]));
                                }
                            }
                        }
                        return None;
                    },
                }
                i += 1;
            }
            Some(out)
        },
        _ => None,
    }
}

impl AnkiRequest for CardsModTimeParams {
    type Response = Vec<CardsModTime>;

    open spec fn spec_action() -> Seq<char> {
        "cardsModTime"@
    }

    open spec fn spec_params(&self) -> Option<JsonVal> {
        Some(
            JsonVal::Obj(
                seq![JsonMemberV { key: "cards"@, val: usize_seq_json(self.cards@) }],
            ),
        )
    }

    open spec fn decodes(v: JsonVal, r: Vec<CardsModTime>) -> bool {
        cards_mod_time_vec_rel(v, r@)
    }

    open spec fn is_default(r: Vec<CardsModTime>) -> bool {
        r@ == Seq::<CardsModTime>::empty()
    }

    fn action() -> &'static str {
        "cardsModTime"
    }

    fn params(&self) -> (p: Option<JsonValue>) {
        Some(obj1("cards", json_usize_vec(&self.cards)))
    }

    fn decode_response(v: &JsonValue) -> Option<Vec<CardsModTime>> {
        decode_cards_mod_time_vec(v)
    }

    fn default_response() -> Vec<CardsModTime> {
        Vec::new()
    }
}

/// Returns a list of objects containing for each card ID the modification
/// time. This function is about 15 times faster than executing `cardsInfo`.
pub fn cards_mod_times(params: CardsModTimeParams) -> (r: Result<Vec<CardsModTime>, AnkiError>)
    ensures
        r matches Ok(t) ==> ((exists|rv: JsonVal| CardsModTimeParams::decodes(rv, t))
            || CardsModTimeParams::is_default(t)),
{
    dispatch(&params)
}

/// Parameters for retrieving information about cards.
#[derive(Default, Debug, Clone, PartialEq)]
pub struct CardsInfoParams {
    /// The list of card IDs.
    pub cards: Vec<usize>,
}

/// Represents one field of a card.
#[derive(Default, Debug, Clone, PartialEq)]
pub struct CardsInfoField {
    /// The value of the field.
    pub value: String,
    /// The order of the field.
    pub order: usize,
}

/// The JSON object shape of a [`CardsInfoField`] record.
pub open spec fn cards_info_field_rel(v: JsonVal, r: CardsInfoField) -> bool {
    &&& v is Obj
    &&& spec_lookup(v->Obj_0, "value"@) == Some(JsonVal::Str(r.value@))
    &&& spec_lookup(v->Obj_0, "order"@) == Some(JsonVal::Num(r.order as int))
}

/// Decodes one [`CardsInfoField`] record.
pub(crate) fn decode_cards_info_field(v: &JsonValue) -> (r: Option<CardsInfoField>)
    ensures
        r matches Some(x) ==> cards_info_field_rel(v@, x),
        r is None ==> forall|x: CardsInfoField| !cards_info_field_rel(v@, x),
{
    match v {
        JsonValue::Obj(pairs) => {
            proof {
                lemma_obj_view(JsonValue::Obj(*pairs));
            }
            let x_value = match get_string_field(pairs, "value") {
                Some(x) => x,
                None => {
                    return None;
                },
            };
            let x_order = match get_usize_field(pairs, "order") {
                Some(x) => x,
                None => {
                    return None;
                },
            };
            Some(CardsInfoField { value: x_value, order: x_order })
        },
        _ => None,
    }
}

/// A JSON object decoding memberwise into key-value pairs.
pub open spec fn cards_info_fields_rel(v: JsonVal, s: Seq<(String, CardsInfoField)>) -> bool {
    &&& v is Obj
    &&& v->Obj_0.len() == s.len()
    &&& forall|i: int| 0 <= i < s.len() ==> ((#[trigger] v->Obj_0[i]).key == s[i].0@ && cards_info_field_rel(v->Obj_0[i].val, s[i].1))
}

/// Decodes an object into key-value pairs, keeping the members' order.
pub(crate) fn decode_cards_info_fields(v: &JsonValue) -> (r: Option<Vec<(String, CardsInfoField)>>)
    ensures
        r matches Some(xs) ==> cards_info_fields_rel(v@, xs@),
        r is None ==> forall|s: Seq<(String, CardsInfoField)>| !cards_info_fields_rel(v@, s),
{
    match v {
        JsonValue::Obj(pairs) => {
            proof {
                lemma_obj_view(JsonValue::Obj(*pairs));
            }
            let ghost pv = v@->Obj_0;
            let n = pairs.len();
            let mut out: Vec<(String, CardsInfoField)> = Vec::new();
            let mut i: usize = 0;
            while i < n
                invariant
                    i <= n,
                    n == pairs@.len(),
                    pv.len() == n,
                    forall|j: int| 0 <= j < n ==> pv[j] == (JsonMemberV {
                        key: (#[trigger] pairs@[j]).0@,
                        val: pairs@[j].1@,
                    }),
                    v@ == JsonVal::Obj(pv),
                    out@.len() == i,
                    forall|j: int| 0 <= j < i ==> (pv[j].key == (#[trigger] out@[j]).0@ && cards_info_field_rel(pv[j].val, out@[j].1)),
                decreases n - i,
            {
                match decode_cards_info_field(&pairs[i].1) {
                    Some(x) => {
                        out.push((pairs[i].0.clone(), x));
                    },
                    None => {
                        proof {
                            assert forall|s: Seq<(String, CardsInfoField)>| !cards_info_fields_rel(v@, s) by {
                                if cards_info_fields_rel(v@, s) {
                                    assert(cards_info_field_rel(pv[i as int].val, s[i as int].1));
                                }
                            }
                        }
                        return None;
                    },
                }
                i += 1;
            }
            Some(out)
        },
        _ => None,
    }
}

/// Represents the information about a card.
#[derive(Default, Debug, Clone, PartialEq)]
pub struct CardsInfo {
    /// The answer side of the card.
    pub answer: String,
    /// The question side of the card.
    pub question: String,
    /// The name of the deck the card belongs to.
    pub deck_name: String,
    /// The name of the model (note type) of the card.
    pub model_name: String,
    /// The order of the fields.
    pub field_order: usize,
    /// The fields of the card, keyed by field name.
    pub fields: Vec<(String, CardsInfoField)>,
    /// The CSS style applied to the card.
    pub css: String,
    /// The ID of the card.
    pub card_id: usize,
    /// The interval of the card.
    pub interval: usize,
    /// The ID of the note that the card belongs to.
    pub note: usize,
    /// The ordinal value of the card.
    pub ord: usize,
    /// The type of the card.
    pub type_field: usize,
    /// The queue of the card.
    pub queue: usize,
    /// The due date of the card.
    pub due: usize,
    /// The number of repetitions of the card.
    pub reps: usize,
    /// The number of lapses of the card.
    pub lapses: usize,
    /// The number of cards left in the card's queue.
    pub left: usize,
    /// The modification time of the card.
    pub mod_: usize,
}

/// The JSON object shape of a [`CardsInfo`] record.
pub open spec fn cards_info_rel(v: JsonVal, r: CardsInfo) -> bool {
    &&& v is Obj
    &&& spec_lookup(v->Obj_0, "answer"@) == Some(JsonVal::Str(r.answer@))
    &&& spec_lookup(v->Obj_0, "question"@) == Some(JsonVal::Str(r.question@))
    &&& spec_lookup(v->Obj_0, "deckName"@) == Some(JsonVal::Str(r.deck_name@))
    &&& spec_lookup(v->Obj_0, "modelName"@) == Some(JsonVal::Str(r.model_name@))
    &&& spec_lookup(v->Obj_0, "fieldOrder"@) == Some(JsonVal::Num(r.field_order as int))
    &&& (spec_lookup(v->Obj_0, "fields"@) matches Some(x) && cards_info_fields_rel(x, r.fields@))
    &&& spec_lookup(v->Obj_0, "css"@) == Some(JsonVal::Str(r.css@))
    &&& spec_lookup(v->Obj_0, "cardId"@) == Some(JsonVal::Num(r.card_id as int))
    &&& spec_lookup(v->Obj_0, "interval"@) == Some(JsonVal::Num(r.interval as int))
    &&& spec_lookup(v->Obj_0, "note"@) == Some(JsonVal::Num(r.note as int))
    &&& spec_lookup(v->Obj_0, "ord"@) == Some(JsonVal::Num(r.ord as int))
    &&& spec_lookup(v->Obj_0, "type"@) == Some(JsonVal::Num(r.type_field as int))
    &&& spec_lookup(v->Obj_0, "queue"@) == Some(JsonVal::Num(r.queue as int))
    &&& spec_lookup(v->Obj_0, "due"@) == Some(JsonVal::Num(r.due as int))
    &&& spec_lookup(v->Obj_0, "reps"@) == Some(JsonVal::Num(r.reps as int))
    &&& spec_lookup(v->Obj_0, "lapses"@) == Some(JsonVal::Num(r.lapses as int))
    &&& spec_lookup(v->Obj_0, "left"@) == Some(JsonVal::Num(r.left as int))
    &&& spec_lookup(v->Obj_0, "mod"@) == Some(JsonVal::Num(r.mod_ as int))
}

/// Decodes one [`CardsInfo`] record.
pub(crate) fn decode_cards_info(v: &JsonValue) -> (r: Option<CardsInfo>)
    ensures
        r matches Some(x) ==> cards_info_rel(v@, x),
        r is None ==> forall|x: CardsInfo| !cards_info_rel(v@, x),
{
    match v {
        JsonValue::Obj(pairs) => {
            proof {
                lemma_obj_view(JsonValue::Obj(*pairs));
            }
            let x_answer = match get_string_field(pairs, "answer") {
                Some(x) => x,
                None => {
                    return None;
                },
            };
            let x_question = match get_string_field(pairs, "question") {
                Some(x) => x,
                None => {
                    return None;
                },
            };
            let x_deck_name = match get_string_field(pairs, "deckName") {
                Some(x) => x,
                None => {
                    return None;
                },
            };
            let x_model_name = match get_string_field(pairs, "modelName") {
                Some(x) => x,
                None => {
                    return None;
                },
            };
            let x_field_order = match get_usize_field(pairs, "fieldOrder") {
                Some(x) => x,
                None => {
                    return None;
                },
            };
            let k_fields = String::from_str("fields");
            let x_fields = match obj_get(pairs, &k_fields) {
                Some(w) => match decode_cards_info_fields(w) {
                    Some(x) => x,
                    None => {
                        return None;
                    },
                },
                None => {
                    return None;
                },
            };
            let x_css = match get_string_field(pairs, "css") {
                Some(x) => x,
                None => {
                    return None;
                },
            };
            let x_card_id = match get_usize_field(pairs, "cardId") {
                Some(x) => x,
                None => {
                    return None;
                },
            };
            let x_interval = match get_usize_field(pairs, "interval") {
                Some(x) => x,
                None => {
                    return None;
                },
            };
            let x_note = match get_usize_field(pairs, "note") {
                Some(x) => x,
                None => {
                    return None;
                },
            };
            let x_ord = match get_usize_field(pairs, "ord") {
                Some(x) => x,
                None => {
                    return None;
                },
            };
            let x_type_field = match get_usize_field(pairs, "type") {
                Some(x) => x,
                None => {
                    return None;
                },
            };
            let x_queue = match get_usize_field(pairs, "queue") {
                Some(x) => x,
                None => {
                    return None;
                },
            };
            let x_due = match get_usize_field(pairs, "due") {
                Some(x) => x,
                None => {
                    return None;
                },
            };
            let x_reps = match get_usize_field(pairs, "reps") {
                Some(x) => x,
                None => {
                    return None;
                },
            };
            let x_lapses = match get_usize_field(pairs, "lapses") {
                Some(x) => x,
                None => {
                    return None;
                },
            };
            let x_left = match get_usize_field(pairs, "left") {
                Some(x) => x,
                None => {
                    return None;
                },
            };
            let x_mod_ = match get_usize_field(pairs, "mod") {
                Some(x) => x,
                None => {
                    return None;
                },
            };
            Some(CardsInfo { answer: x_answer, question: x_question, deck_name: x_deck_name, model_name: x_model_name, field_order: x_field_order, fields: x_fields, css: x_css, card_id: x_card_id, interval: x_interval, note: x_note, ord: x_ord, type_field: x_type_field, queue: x_queue, due: x_due, reps: x_reps, lapses: x_lapses, left: x_left, mod_: x_mod_ })
        },
        _ => None,
    }
}

/// A JSON array decoding elementwise into [`CardsInfo`] records.
pub open spec fn cards_info_vec_rel(v: JsonVal, s: Seq<CardsInfo>) -> bool {
    &&& v is Arr
    &&& v->Arr_0.len() == s.len()
    &&& forall|i: int| 0 <= i < s.len() ==> cards_info_rel(#[trigger] v->Arr_0[i], s[i])
}

/// Decodes an array of [`CardsInfo`] records.
pub(crate) fn decode_cards_info_vec(v: &JsonValue) -> (r: Option<Vec<CardsInfo>>)
    ensures
        r matches Some(xs) ==> cards_info_vec_rel(v@, xs@),
        r is None ==> forall|s: Seq<CardsInfo>| !cards_info_vec_rel(v@, s),
{
    match v {
        JsonValue::Arr(items) => {
            proof {
                lemma_arr_view(JsonValue::Arr(*items));
            }
            let ghost iv = v@->Arr_0;
            let n = items.len();
            let mut out: Vec<CardsInfo> = Vec::new();
            let mut i: usize = 0;
            while i < n
                invariant
                    i <= n,
                    n == items@.len(),
                    iv.len() == n,
                    forall|j: int| 0 <= j < n ==> iv[j] == (#[trigger] items@[j])@,
                    v@ == JsonVal::Arr(iv),
                    out@.len() == i,
                    forall|j: int| 0 <= j < i ==> cards_info_rel(iv[j], #[trigger] out@[j]),
                decreases n - i,
            {
                match decode_cards_info(&items[i]) {
                    Some(x) => {
                        out.push(x);
                    },
                    None => {
                        proof {
                            assert forall|s: Seq<CardsInfo>| !cards_info_vec_rel(v@, s) by {
                                if cards_info_vec_rel(v@, s) {
                                    assert(cards_info_rel(iv[i as int], s[i as int]));
                                }
                            }
                        }
                        return None;
                    },
                }
                i += 1;
            }
            Some(out)
        },
        _ => None,
    }
}

impl AnkiRequest for CardsInfoParams {
    type Response = Vec<CardsInfo>;

    open spec fn spec_action() -> Seq<char> {
        "cardsInfo"@
    }

    open spec fn spec_params(&self) -> Option<JsonVal> {
        Some(
            JsonVal::Obj(
                seq![JsonMemberV { key: "cards"@, val: usize_seq_json(self.cards@) }],
            ),
        )
    }

    open spec fn decodes(v: JsonVal, r: Vec<CardsInfo>) -> bool {
        cards_info_vec_rel(v, r@)
    }

    open spec fn is_default(r: Vec<CardsInfo>) -> bool {
        r@ == Seq::<CardsInfo>::empty()
    }

    fn action() -> &'static str {
        "cardsInfo"
    }

    fn params(&self) -> (p: Option<JsonValue>) {
        Some(obj1("cards", json_usize_vec(&self.cards)))
    }

    fn decode_response(v: &JsonValue) -> Option<Vec<CardsInfo>> {
        decode_cards_info_vec(v)
    }

    fn default_response() -> Vec<CardsInfo> {
        Vec::new()
    }
}

/// Returns a list of objects containing for each card ID the card fields,
/// front and back sides including CSS, note type, the note that the card
/// belongs to, and deck name, last modification timestamp as well as ease and
/// interval.
pub fn cards_info(params: CardsInfoParams) -> (r: Result<Vec<CardsInfo>, AnkiError>)
    ensures
        r matches Ok(t) ==> ((exists|rv: JsonVal| CardsInfoParams::decodes(rv, t))
            || CardsInfoParams::is_default(t)),
{
    dispatch(&params)
}

/// Parameters for the "forgetCards" action.
#[derive(Default, Debug, Clone, PartialEq)]
pub struct ForgetCardsParams {
    /// The list of card IDs.
    pub cards: Vec<usize>,
}

impl AnkiRequest for ForgetCardsParams {
    type Response = ();

    open spec fn spec_action() -> Seq<char> {
        "forgetCards"@
    }

    open spec fn spec_params(&self) -> Option<JsonVal> {
        Some(
            JsonVal::Obj(
                seq![JsonMemberV { key: "cards"@, val: usize_seq_json(self.cards@) }],
            ),
        )
    }

    open spec fn decodes(v: JsonVal, r: ()) -> bool {
        v is Null
    }

    open spec fn is_default(r: ()) -> bool {
        true
    }

    fn action() -> &'static str {
        "forgetCards"
    }

    fn params(&self) -> (p: Option<JsonValue>) {
        Some(obj1("cards", json_usize_vec(&self.cards)))
    }

    fn decode_response(v: &JsonValue) -> Option<()> {
        match v {
            JsonValue::Null => Some(()),
            _ => None,
        }
    }

    fn default_response() -> () {
        ()
    }
}

/// Forget cards, making the cards new again.
pub fn forget_cards(params: ForgetCardsParams) -> (r: Result<(), AnkiError>)
    ensures
        r matches Ok(t) ==> ((exists|rv: JsonVal| ForgetCardsParams::decodes(rv, t))
            || ForgetCardsParams::is_default(t)),
{
    dispatch(&params)
}

/// Parameters for the "relearnCards" action.
#[derive(Default, Debug, Clone, PartialEq)]
pub struct RelearnCardsParams {
    /// The list of card IDs.
    pub cards: Vec<usize>,
}

impl AnkiRequest for RelearnCardsParams {
    type Response = ();

    open spec fn spec_action() -> Seq<char> {
        "relearnCards"@
    }

    open spec fn spec_params(&self) -> Option<JsonVal> {
        Some(
            JsonVal::Obj(
                seq![JsonMemberV { key: "cards"@, val: usize_seq_json(self.cards@) }],
            ),
        )
    }

    open spec fn decodes(v: JsonVal, r: ()) -> bool {
        v is Null
    }

    open spec fn is_default(r: ()) -> bool {
        true
    }

    fn action() -> &'static str {
        "relearnCards"
    }

    fn params(&self) -> (p: Option<JsonValue>) {
        Some(obj1("cards", json_usize_vec(&self.cards)))
    }

    fn decode_response(v: &JsonValue) -> Option<()> {
        match v {
            JsonValue::Null => Some(()),
            _ => None,
        }
    }

    fn default_response() -> () {
        ()
    }
}

/// Make cards be "relearning".
pub fn relearn_cards(params: RelearnCardsParams) -> (r: Result<(), AnkiError>)
    ensures
        r matches Ok(t) ==> ((exists|rv: JsonVal| RelearnCardsParams::decodes(rv, t))
            || RelearnCardsParams::is_default(t)),
{
    dispatch(&params)
}

} // verus!
