//! Deck-related actions.
use vstd::prelude::*;
use crate::codec::{
    decode_bool, decode_string_vec, decode_usize, decode_usize_vec, get_string_field,
    get_usize_field, json_string_vec, json_usize_vec, obj1, obj2, string_seq_json,
    string_vec_rel, usize_seq_json, usize_vec_rel,
};
use crate::envelope::spec_lookup;
use crate::json::{JsonMemberV, JsonVal, JsonValue, lemma_obj_view};
use crate::request::{AnkiRequest, dispatch};
use crate::AnkiError;

verus! {

/// The "deckNames" action, which takes no parameters.
#[derive(Default, Debug, Clone, PartialEq)]
pub struct DeckNamesRequest {
}

impl AnkiRequest for DeckNamesRequest {
    type Response = Vec<String>;

    open spec fn spec_action() -> Seq<char> {
        "deckNames"@
    }

    open spec fn spec_params(&self) -> Option<JsonVal> {
        None
    }

    open spec fn decodes(v: JsonVal, r: Vec<String>) -> bool {
        string_vec_rel(v, r@)
    }

    open spec fn is_default(r: Vec<String>) -> bool {
        r@ == Seq::<String>::empty()
    }

    fn action() -> &'static str {
        "deckNames"
    }

    fn params(&self) -> (p: Option<JsonValue>) {
        None
    }

    fn decode_response(v: &JsonValue) -> Option<Vec<String>> {
        decode_string_vec(v)
    }

    fn default_response() -> Vec<String> {
        Vec::new()
    }
}

/// Gets the complete list of deck names for the current user.
pub fn deck_names() -> (r: Result<Vec<String>, AnkiError>)
    ensures
        r matches Ok(t) ==> ((exists|rv: JsonVal| DeckNamesRequest::decodes(rv, t))
            || DeckNamesRequest::is_default(t)),
{
    dispatch(&(DeckNamesRequest {  }))
}

/// A JSON object decoding memberwise into key-value pairs.
pub open spec fn string_usize_pairs_rel(v: JsonVal, s: Seq<(String, usize)>) -> bool {
    &&& v is Obj
    &&& v->Obj_0.len() == s.len()
    &&& forall|i: int| 0 <= i < s.len() ==> ((#[trigger] v->Obj_0[i]).key == s[i].0@ && v->Obj_0[i].val == JsonVal::Num(s[i].1 as int))
}

/// Decodes an object into key-value pairs, keeping the members' order.
pub(crate) fn decode_string_usize_pairs(v: &JsonValue) -> (r: Option<Vec<(String, usize)>>)
    ensures
        r matches Some(xs) ==> string_usize_pairs_rel(v@, xs@),
        r is None ==> forall|s: Seq<(String, usize)>| !string_usize_pairs_rel(v@, s),
{
    match v {
        JsonValue::Obj(pairs) => {
            proof {
                lemma_obj_view(JsonValue::Obj(*pairs));
            }
            let ghost pv = v@->Obj_0;
            let n = pairs.len();
            let mut out: Vec<(String, usize)> = Vec::new();
            let mut i: usize = 0;
            while i < n
                invariant
                    i <= n,
                    n == pairs@.len(),
                    pv.len() == n,
                    forall|j: int| 0 <= j < n ==> pv[j] == (JsonMemberV {
                        key: (#[trigger] pairs@[j]).0@,
                        val: pairs@[j].1@,
                    }),
                    v@ == JsonVal::Obj(pv),
                    out@.len() == i,
                    forall|j: int| 0 <= j < i ==> (pv[j].key == (#[trigger] out@[j]).0@ && pv[j].val == JsonVal::Num(out@[j].1 as int)),
                decreases n - i,
            {
                match decode_usize(&pairs[i].1) {
                    Some(x) => {
                        out.push((pairs[i].0.clone(), x));
                    },
                    None => {
                        proof {
                            assert forall|s: Seq<(String, usize)>| !string_usize_pairs_rel(v@, s) by {
                                if string_usize_pairs_rel(v@, s) {
                                    assert(pv[i as int].val == JsonVal::Num(s[i as int].1 as int));
                                }
                            }
                        }
                        return None;
                    },
                }
                i += 1;
            }
            Some(out)
        },
        _ => None,
    }
}

/// The "deckNamesAndIds" action, which takes no parameters.
#[derive(Default, Debug, Clone, PartialEq)]
pub struct DeckNamesAndIdsRequest {
}

impl AnkiRequest for DeckNamesAndIdsRequest {
    type Response = Vec<(String, usize)>;

    open spec fn spec_action() -> Seq<char> {
        "deckNamesAndIds"@
    }

    open spec fn spec_params(&self) -> Option<JsonVal> {
        None
    }

    open spec fn decodes(v: JsonVal, r: Vec<(String, usize)>) -> bool {
        string_usize_pairs_rel(v, r@)
    }

    open spec fn is_default(r: Vec<(String, usize)>) -> bool {
        r@ == Seq::<(String, usize)>::empty()
    }

    fn action() -> &'static str {
        "deckNamesAndIds"
    }

    fn params(&self) -> (p: Option<JsonValue>) {
        None
    }

    fn decode_response(v: &JsonValue) -> Option<Vec<(String, usize)>> {
        decode_string_usize_pairs(v)
    }

    fn default_response() -> Vec<(String, usize)> {
        Vec::new()
    }
}

/// Gets the complete list of deck names and their identifiers for the
/// current user.
pub fn deck_name_and_ids() -> (r: Result<Vec<(String, usize)>, AnkiError>)
    ensures
        r matches Ok(t) ==> ((exists|rv: JsonVal| DeckNamesAndIdsRequest::decodes(rv, t))
            || DeckNamesAndIdsRequest::is_default(t)),
{
    dispatch(&(DeckNamesAndIdsRequest {  }))
}

/// A JSON object decoding memberwise into key-value pairs.
pub open spec fn string_usize_vec_pairs_rel(v: JsonVal, s: Seq<(String, Vec<usize>)>) -> bool {
    &&& v is Obj
    &&& v->Obj_0.len() == s.len()
    &&& forall|i: int| 0 <= i < s.len() ==> ((#[trigger] v->Obj_0[i]).key == s[i].0@ && usize_vec_rel(v->Obj_0[i].val, s[i].1@))
}

/// Decodes an object into key-value pairs, keeping the members' order.
pub(crate) fn decode_string_usize_vec_pairs(v: &JsonValue) -> (r: Option<Vec<(String, Vec<usize>)>>)
    ensures
        r matches Some(xs) ==> string_usize_vec_pairs_rel(v@, xs@),
        r is None ==> forall|s: Seq<(String, Vec<usize>)>| !string_usize_vec_pairs_rel(v@, s),
{
    match v {
        JsonValue::Obj(pairs) => {
            proof {
                lemma_obj_view(JsonValue::Obj(*pairs));
            }
            let ghost pv = v@->Obj_0;
            let n = pairs.len();
            let mut out: Vec<(String, Vec<usize>)> = Vec::new();
            let mut i: usize = 0;
            while i < n
                invariant
                    i <= n,
                    n == pairs@.len(),
                    pv.len() == n,
                    forall|j: int| 0 <= j < n ==> pv[j] == (JsonMemberV {
                        key: (#[trigger] pairs@[j]).0@,
                        val: pairs@[j].1@,
                    }),
                    v@ == JsonVal::Obj(pv),
                    out@.len() == i,
                    forall|j: int| 0 <= j < i ==> (pv[j].key == (#[trigger] out@[j]).0@ && usize_vec_rel(pv[j].val, out@[j].1@)),
                decreases n - i,
            {
                match decode_usize_vec(&pairs[i].1) {
                    Some(x) => {
                        out.push((pairs[i].0.clone(), x));
                    },
                    None => {
                        proof {
                            assert forall|s: Seq<(String, Vec<usize>)>| !string_usize_vec_pairs_rel(v@, s) by {
                                if string_usize_vec_pairs_rel(v@, s) {
                                    assert(usize_vec_rel(pv[i as int].val, s[i as int].1@));
                                }
                            }
                        }
                        return None;
                    },
                }
                i += 1;
            }
            Some(out)
        },
        _ => None,
    }
}

/// Parameters for the "getDecks" action.
#[derive(Default, Debug, Clone, PartialEq)]
pub struct GetDecksParams {
    /// Array of card IDs.
    pub cards: Vec<usize>,
}

impl AnkiRequest for GetDecksParams {
    type Response = Vec<(String, Vec<usize>)>;

    open spec fn spec_action() -> Seq<char> {
        "getDecks"@
    }

    open spec fn spec_params(&self) -> Option<JsonVal> {
        Some(
            JsonVal::Obj(
                seq![JsonMemberV { key: "cards"@, val: usize_seq_json(self.cards@) }],
            ),
        )
    }

    open spec fn decodes(v: JsonVal, r: Vec<(String, Vec<usize>)>) -> bool {
        string_usize_vec_pairs_rel(v, r@)
    }

    open spec fn is_default(r: Vec<(String, Vec<usize>)>) -> bool {
        r@ == Seq::<(String, Vec<usize>)>::empty()
    }

    fn action() -> &'static str {
        "getDecks"
    }

    fn params(&self) -> (p: Option<JsonValue>) {
        Some(obj1("cards", json_usize_vec(&self.cards)))
    }

    fn decode_response(v: &JsonValue) -> Option<Vec<(String, Vec<usize>)>> {
        decode_string_usize_vec_pairs(v)
    }

    fn default_response() -> Vec<(String, Vec<usize>)> {
        Vec::new()
    }
}

/// Accepts an array of card IDs and returns an object with each deck name as
/// a key, and its value an array of the given cards which belong to it.
pub fn get_decks(params: GetDecksParams) -> (r: Result<Vec<(String, Vec<usize>)>, AnkiError>)
    ensures
        r matches Ok(t) ==> ((exists|rv: JsonVal| GetDecksParams::decodes(rv, t))
            || GetDecksParams::is_default(t)),
{
    dispatch(&params)
}

/// Parameters for the "createDeck" action.
#[derive(Default, Debug, Clone, PartialEq)]
pub struct CreateDeckParams {
    /// The name of the new deck.
    pub deck: String,
}

impl AnkiRequest for CreateDeckParams {
    type Response = usize;

    open spec fn spec_action() -> Seq<char> {
        "createDeck"@
    }

    open spec fn spec_params(&self) -> Option<JsonVal> {
        Some(
            JsonVal::Obj(seq![JsonMemberV { key: "deck"@, val: JsonVal::Str(self.deck@) }]),
        )
    }

    open spec fn decodes(v: JsonVal, r: usize) -> bool {
        v == JsonVal::Num(r as int)
    }

    open spec fn is_default(r: usize) -> bool {
        r == 0
    }

    fn action() -> &'static str {
        "createDeck"
    }

    fn params(&self) -> (p: Option<JsonValue>) {
        Some(obj1("deck", JsonValue::Str(self.deck.clone())))
    }

    fn decode_response(v: &JsonValue) -> Option<usize> {
        decode_usize(v)
    }

    fn default_response() -> usize {
        0
    }
}

/// Create a new empty deck. Will not overwrite a deck that exists with the
/// same name.
pub fn create_deck(params: CreateDeckParams) -> (r: Result<usize, AnkiError>)
    ensures
        r matches Ok(t) ==> ((exists|rv: JsonVal| CreateDeckParams::decodes(rv, t))
            || CreateDeckParams::is_default(t)),
{
    dispatch(&params)
}

/// Parameters for the "changeDeck" action.
#[derive(Default, Debug, Clone, PartialEq)]
pub struct ChangeDeckParams {
    /// IDs of the cards to move.
    pub cards: Vec<usize>,
    /// The name of the target deck.
    pub deck: String,
}

impl AnkiRequest for ChangeDeckParams {
    type Response = ();

    open spec fn spec_action() -> Seq<char> {
        "changeDeck"@
    }

    open spec fn spec_params(&self) -> Option<JsonVal> {
        Some(
            JsonVal::Obj(
                seq![
                    JsonMemberV { key: "cards"@, val: usize_seq_json(self.cards@) },
                    JsonMemberV { key: "deck"@, val: JsonVal::Str(self.deck@) },
                ],
            ),
        )
    }

    open spec fn decodes(v: JsonVal, r: ()) -> bool {
        v is Null
    }

    open spec fn is_default(r: ()) -> bool {
        true
    }

    fn action() -> &'static str {
        "changeDeck"
    }

    fn params(&self) -> (p: Option<JsonValue>) {
        Some(
            obj2(
                "cards",
                json_usize_vec(&self.cards),
                "deck",
                JsonValue::Str(self.deck.clone()),
            ),
        )
    }

    fn decode_response(v: &JsonValue) -> Option<()> {
        match v {
            JsonValue::Null => Some(()),
            _ => None,
        }
    }

    fn default_response() -> () {
        ()
    }
}

/// Moves cards with the given IDs to a different deck, creating the deck if
/// it doesn’t exist yet.
pub fn change_deck(params: ChangeDeckParams) -> (r: Result<(), AnkiError>)
    ensures
        r matches Ok(t) ==> ((exists|rv: JsonVal| ChangeDeckParams::decodes(rv, t))
            || ChangeDeckParams::is_default(t)),
{
    dispatch(&params)
}

/// Parameters for the "deleteDecks" action.
#[derive(Default, Debug, Clone, PartialEq)]
pub struct DeleteDecksParams {
    /// Names of the decks to delete.
    pub decks: Vec<String>,
    /// Indicates whether to also delete the cards in the decks.
    pub cards_too: bool,
}

impl AnkiRequest for DeleteDecksParams {
    type Response = ();

    open spec fn spec_action() -> Seq<char> {
        "deleteDecks"@
    }

    open spec fn spec_params(&self) -> Option<JsonVal> {
        Some(
            JsonVal::Obj(
                seq![
                    JsonMemberV { key: "decks"@, val: string_seq_json(self.decks@) },
                    JsonMemberV { key: "cardsToo"@, val: JsonVal::Bool(self.cards_too) },
                ],
            ),
        )
    }

    open spec fn decodes(v: JsonVal, r: ()) -> bool {
        v is Null
    }

    open spec fn is_default(r: ()) -> bool {
        true
    }

    fn action() -> &'static str {
        "deleteDecks"
    }

    fn params(&self) -> (p: Option<JsonValue>) {
        Some(
            obj2(
                "decks",
                json_string_vec(&self.decks),
                "cardsToo",
                JsonValue::Bool(self.cards_too),
            ),
        )
    }

    fn decode_response(v: &JsonValue) -> Option<()> {
        match v {
            JsonValue::Null => Some(()),
            _ => None,
        }
    }

    fn default_response() -> () {
        ()
    }
}

/// Deletes decks with the given names. The argument
/// [cards_too](DeleteDecksParams::cards_too) must be specified and set to
/// true.
pub fn delete_decks(params: DeleteDecksParams) -> (r: Result<(), AnkiError>)
    ensures
        r matches Ok(t) ==> ((exists|rv: JsonVal| DeleteDecksParams::decodes(rv, t))
            || DeleteDecksParams::is_default(t)),
{
    dispatch(&params)
}

/// Parameters for changing the configuration group of decks by ID.
#[derive(Default, Debug, Clone, PartialEq)]
pub struct SaveDeckConfigIdParams {
    /// Names of the decks to change the configuration group for.
    pub decks: Vec<String>,
    /// ID of the configuration group to set.
    pub config_id: usize,
}

impl AnkiRequest for SaveDeckConfigIdParams {
    type Response = bool;

    open spec fn spec_action() -> Seq<char> {
        "setDeckConfigId"@
    }

    open spec fn spec_params(&self) -> Option<JsonVal> {
        Some(
            JsonVal::Obj(
                seq![
                    JsonMemberV { key: "decks"@, val: string_seq_json(self.decks@) },
                    JsonMemberV { key: "configId"@, val: JsonVal::Num(self.config_id as int) },
                ],
            ),
        )
    }

    open spec fn decodes(v: JsonVal, r: bool) -> bool {
        v == JsonVal::Bool(r)
    }

    open spec fn is_default(r: bool) -> bool {
        r == false
    }

    fn action() -> &'static str {
        "setDeckConfigId"
    }

    fn params(&self) -> (p: Option<JsonValue>) {
        Some(
            obj2(
                "decks",
                json_string_vec(&self.decks),
                "configId",
                JsonValue::Num(self.config_id as i128),
            ),
        )
    }

    fn decode_response(v: &JsonValue) -> Option<bool> {
        decode_bool(v)
    }

    fn default_response() -> bool {
        false
    }
}

/// Changes the configuration group for the given decks to the one with the
/// given ID. Returns [true] on success or [false] if the given configuration
/// group or any of the given decks do not exist.
pub fn save_deck_config_id(params: SaveDeckConfigIdParams) -> (r: Result<bool, AnkiError>)
    ensures
        r matches Ok(t) ==> ((exists|rv: JsonVal| SaveDeckConfigIdParams::decodes(rv, t))
            || SaveDeckConfigIdParams::is_default(t)),
{
    dispatch(&params)
}

/// Parameters for cloning a deck configuration by ID.
#[derive(Default, Debug, Clone, PartialEq)]
pub struct CloneDeckConfigIdParams {
    /// Name of the new configuration group.
    pub name: String,
    /// ID of the configuration group to clone from.
    pub clone_from: usize,
}

impl AnkiRequest for CloneDeckConfigIdParams {
    type Response = usize;

    open spec fn spec_action() -> Seq<char> {
        "cloneDeckConfigId"@
    }

    open spec fn spec_params(&self) -> Option<JsonVal> {
        Some(
            JsonVal::Obj(
                seq![
                    JsonMemberV { key: "name"@, val: JsonVal::Str(self.name@) },
                    JsonMemberV { key: "cloneFrom"@, val: JsonVal::Num(self.clone_from as int) },
                ],
            ),
        )
    }

    open spec fn decodes(v: JsonVal, r: usize) -> bool {
        v == JsonVal::Num(r as int)
    }

    open spec fn is_default(r: usize) -> bool {
        r == 0
    }

    fn action() -> &'static str {
        "cloneDeckConfigId"
    }

    fn params(&self) -> (p: Option<JsonValue>) {
        Some(
            obj2(
                "name",
                JsonValue::Str(self.name.clone()),
                "cloneFrom",
                JsonValue::Num(self.clone_from as i128),
            ),
        )
    }

    fn decode_response(v: &JsonValue) -> Option<usize> {
        decode_usize(v)
    }

    fn default_response() -> usize {
        0
    }
}

/// Creates a new configuration group with the given name, cloning from the
/// group with the given ID. Returns the ID of the new configuration group.
pub fn clone_deck_config_id(params: CloneDeckConfigIdParams) -> (r: Result<usize, AnkiError>)
    ensures
        r matches Ok(t) ==> ((exists|rv: JsonVal| CloneDeckConfigIdParams::decodes(rv, t))
            || CloneDeckConfigIdParams::is_default(t)),
{
    dispatch(&params)
}

/// Parameters for removing a configuration group by ID.
#[derive(Default, Debug, Clone, PartialEq)]
pub struct RemoveDeckConfigIdParams {
    /// ID of the configuration group to remove.
    pub config_id: usize,
}

impl AnkiRequest for RemoveDeckConfigIdParams {
    type Response = bool;

    open spec fn spec_action() -> Seq<char> {
        "removeDeckConfigId"@
    }

    open spec fn spec_params(&self) -> Option<JsonVal> {
        Some(
            JsonVal::Obj(
                seq![JsonMemberV { key: "configId"@, val: JsonVal::Num(self.config_id as int) }],
            ),
        )
    }

    open spec fn decodes(v: JsonVal, r: bool) -> bool {
        v == JsonVal::Bool(r)
    }

    open spec fn is_default(r: bool) -> bool {
        r == false
    }

    fn action() -> &'static str {
        "removeDeckConfigId"
    }

    fn params(&self) -> (p: Option<JsonValue>) {
        Some(obj1("configId", JsonValue::Num(self.config_id as i128)))
    }

    fn decode_response(v: &JsonValue) -> Option<bool> {
        decode_bool(v)
    }

    fn default_response() -> bool {
        false
    }
}

/// Removes the configuration group with the given ID, returning [true] if
/// successful, or [false] if attempting to remove either the default
/// configuration group (ID = 1) or a configuration group that does not
/// exist.
pub fn remove_deck_config_id(params: RemoveDeckConfigIdParams) -> (r: Result<bool, AnkiError>)
    ensures
        r matches Ok(t) ==> ((exists|rv: JsonVal| RemoveDeckConfigIdParams::decodes(rv, t))
            || RemoveDeckConfigIdParams::is_default(t)),
{
    dispatch(&params)
}

/// Parameters for the "getDeckStats" action.
#[derive(Default, Debug, Clone, PartialEq)]
pub struct GetDeckStatsParams {
    /// Names of the decks for which to retrieve statistics.
    pub decks: Vec<String>,
}

/// Statistics for a single deck.
#[derive(Default, Debug, Clone, PartialEq)]
pub struct GetDeckStats {
    /// ID of the deck.
    pub deck_id: usize,
    /// Name of the deck.
    pub name: String,
    /// Number of new cards in the deck.
    pub new_count: usize,
    /// Number of cards in the learning phase in the deck.
    pub learn_count: usize,
    /// Number of cards in the review phase in the deck.
    pub review_count: usize,
    /// Total number of cards in the deck.
    pub total_in_deck: usize,
}

/// The JSON object shape of a [`GetDeckStats`] record.
pub open spec fn deck_stats_rel(v: JsonVal, r: GetDeckStats) -> bool {
    &&& v is Obj
    &&& spec_lookup(v->Obj_0, "deck_id"@) == Some(JsonVal::Num(r.deck_id as int))
    &&& spec_lookup(v->Obj_0, "name"@) == Some(JsonVal::Str(r.name@))
    &&& spec_lookup(v->Obj_0, "new_count"@) == Some(JsonVal::Num(r.new_count as int))
    &&& spec_lookup(v->Obj_0, "learn_count"@) == Some(JsonVal::Num(r.learn_count as int))
    &&& spec_lookup(v->Obj_0, "review_count"@) == Some(JsonVal::Num(r.review_count as int))
    &&& spec_lookup(v->Obj_0, "total_in_deck"@) == Some(JsonVal::Num(r.total_in_deck as int))
}

/// Decodes one [`GetDeckStats`] record.
pub(crate) fn decode_deck_stats(v: &JsonValue) -> (r: Option<GetDeckStats>)
    ensures
        r matches Some(x) ==> deck_stats_rel(v@, x),
        r is None ==> forall|x: GetDeckStats| !deck_stats_rel(v@, x),
{
    match v {
        JsonValue::Obj(pairs) => {
            proof {
                lemma_obj_view(JsonValue::Obj(*pairs));
            }
            let x_deck_id = match get_usize_field(pairs, "deck_id") {
                Some(x) => x,
                None => {
                    return None;
                },
            };
            let x_name = match get_string_field(pairs, "name") {
                Some(x) => x,
                None => {
                    return None;
                },
            };
            let x_new_count = match get_usize_field(pairs, "new_count") {
                Some(x) => x,
                None => {
                    return None;
                },
            };
            let x_learn_count = match get_usize_field(pairs, "learn_count") {
                Some(x) => x,
                None => {
                    return None;
                },
            };
            let x_review_count = match get_usize_field(pairs, "review_count") {
                Some(x) => x,
                None => {
                    return None;
                },
            };
            let x_total_in_deck = match get_usize_field(pairs, "total_in_deck") {
                Some(x) => x,
                None => {
                    return None;
                },
            };
            Some(GetDeckStats { deck_id: x_deck_id, name: x_name, new_count: x_new_count, learn_count: x_learn_count, review_count: x_review_count, total_in_deck: x_total_in_deck })
        },
        _ => None,
    }
}

/// A JSON object decoding memberwise into key-value pairs.
pub open spec fn deck_stats_pairs_rel(v: JsonVal, s: Seq<(String, GetDeckStats)>) -> bool {
    &&& v is Obj
    &&& v->Obj_0.len() == s.len()
    &&& forall|i: int| 0 <= i < s.len() ==> ((#[trigger] v->Obj_0[i]).key == s[i].0@ && deck_stats_rel(v->Obj_0[i].val, s[i].1))
}

/// Decodes an object into key-value pairs, keeping the members' order.
pub(crate) fn decode_deck_stats_pairs(v: &JsonValue) -> (r: Option<Vec<(String, GetDeckStats)>>)
    ensures
        r matches Some(xs) ==> deck_stats_pairs_rel(v@, xs@),
        r is None ==> forall|s: Seq<(String, GetDeckStats)>| !deck_stats_pairs_rel(v@, s),
{
    match v {
        JsonValue::Obj(pairs) => {
            proof {
                lemma_obj_view(JsonValue::Obj(*pairs));
            }
            let ghost pv = v@->Obj_0;
            let n = pairs.len();
            let mut out: Vec<(String, GetDeckStats)> = Vec::new();
            let mut i: usize = 0;
            while i < n
                invariant
                    i <= n,
                    n == pairs@.len(),
                    pv.len() == n,
                    forall|j: int| 0 <= j < n ==> pv[j] == (JsonMemberV {
                        key: (#[trigger] pairs@[j]).0@,
                        val: pairs@[j].1@,
                    }),
                    v@ == JsonVal::Obj(pv),
                    out@.len() == i,
                    forall|j: int| 0 <= j < i ==> (pv[j].key == (#[trigger] out@[j]).0@ && deck_stats_rel(pv[j].val, out@[j].1)),
                decreases n - i,
            {
                match decode_deck_stats(&pairs[i].1) {
                    Some(x) => {
                        out.push((pairs[i].0.clone(), x));
                    },
                    None => {
                        proof {
                            assert forall|s: Seq<(String, GetDeckStats)>| !deck_stats_pairs_rel(v@, s) by {
                                if deck_stats_pairs_rel(v@, s) {
                                    assert(deck_stats_rel(pv[i as int].val, s[i as int].1));
                                }
                            }
                        }
                        return None;
                    },
                }
                i += 1;
            }
            Some(out)
        },
        _ => None,
    }
}

impl AnkiRequest for GetDeckStatsParams {
    type Response = Vec<(String, GetDeckStats)>;

    open spec fn spec_action() -> Seq<char> {
        "getDeckStats"@
    }

    open spec fn spec_params(&self) -> Option<JsonVal> {
        Some(
            JsonVal::Obj(seq![JsonMemberV { key: "decks"@, val: string_seq_json(self.decks@) }]),
        )
    }

    open spec fn decodes(v: JsonVal, r: Vec<(String, GetDeckStats)>) -> bool {
        deck_stats_pairs_rel(v, r@)
    }

    open spec fn is_default(r: Vec<(String, GetDeckStats)>) -> bool {
        r@ == Seq::<(String, GetDeckStats)>::empty()
    }

    fn action() -> &'static str {
        "getDeckStats"
    }

    fn params(&self) -> (p: Option<JsonValue>) {
        Some(obj1("decks", json_string_vec(&self.decks)))
    }

    fn decode_response(v: &JsonValue) -> Option<Vec<(String, GetDeckStats)>> {
        decode_deck_stats_pairs(v)
    }

    fn default_response() -> Vec<(String, GetDeckStats)> {
        Vec::new()
    }
}

/// Gets statistics such as total cards and cards due for the given decks.
pub fn get_deck_stats(params: GetDeckStatsParams) -> (r: Result<Vec<(String, GetDeckStats)>, AnkiError>)
    ensures
        r matches Ok(t) ==> ((exists|rv: JsonVal| GetDeckStatsParams::decodes(rv, t))
            || GetDeckStatsParams::is_default(t)),
{
    dispatch(&params)
}

/// Parameters for the "getDeckConfig" action. The action's response carries
/// floating-point scheduling options, which lie outside this library's
/// integral value model; callers perform that one call with a JSON codec of
/// their own.
#[derive(Default, Debug, Clone, PartialEq)]
pub struct GetDeckConfigParams {
    /// The name of the deck.
    pub deck: String,
}

} // verus!
