//! Graphical (GUI-invoking) actions.
use vstd::prelude::*;
use crate::codec::{
    decode_bool, decode_usize, decode_usize_vec, get_isize_field, get_isize_vec_field,
    get_string_field, get_string_vec_field, isize_vec_rel, json_string_vec, obj1, obj2,
    obj3, obj_get, string_seq_json, string_vec_rel, usize_vec_rel,
};
use crate::envelope::spec_lookup;
use crate::json::{
    JsonMemberV, JsonVal, JsonValue, lemma_arr_view, lemma_obj_view, members_view,
};
use crate::request::{AnkiRequest, dispatch};
use crate::AnkiError;

verus! {

/// Parameters for the Card Browser dialog.
#[derive(Default, Debug, Clone, PartialEq)]
pub struct GuiBrowseParams {
    /// The search query for the Card Browser dialog.
    pub query: String,
}

impl AnkiRequest for GuiBrowseParams {
    type Response = Vec<usize>;

    open spec fn spec_action() -> Seq<char> {
        "guiBrowse"@
    }

    open spec fn spec_params(&self) -> Option<JsonVal> {
        Some(
            JsonVal::Obj(seq![JsonMemberV { key: "query"@, val: JsonVal::Str(self.query@) }]),
        )
    }

    open spec fn decodes(v: JsonVal, r: Vec<usize>) -> bool {
        usize_vec_rel(v, r@)
    }

    open spec fn is_default(r: Vec<usize>) -> bool {
        r@ == Seq::<usize>::empty()
    }

    fn action() -> &'static str {
        "guiBrowse"
    }

    fn params(&self) -> (p: Option<JsonValue>) {
        Some(obj1("query", JsonValue::Str(self.query.clone())))
    }

    fn decode_response(v: &JsonValue) -> Option<Vec<usize>> {
        decode_usize_vec(v)
    }

    fn default_response() -> Vec<usize> {
        Vec::new()
    }
}

/// Invokes the Card Browser dialog and searches for a given query. Returns an
/// array of identifiers of the cards that were found.
pub fn gui_browse(params: GuiBrowseParams) -> (r: Result<Vec<usize>, AnkiError>)
    ensures
        r matches Ok(t) ==> ((exists|rv: JsonVal| GuiBrowseParams::decodes(rv, t))
            || GuiBrowseParams::is_default(t)),
{
    dispatch(&params)
}

/// The "guiSelectedNotes" action, which takes no parameters.
#[derive(Default, Debug, Clone, PartialEq)]
pub struct GuiSelectedNotesRequest {
}

impl AnkiRequest for GuiSelectedNotesRequest {
    type Response = Vec<usize>;

    open spec fn spec_action() -> Seq<char> {
        "guiSelectedNotes"@
    }

    open spec fn spec_params(&self) -> Option<JsonVal> {
        None
    }

    open spec fn decodes(v: JsonVal, r: Vec<usize>) -> bool {
        usize_vec_rel(v, r@)
    }

    open spec fn is_default(r: Vec<usize>) -> bool {
        r@ == Seq::<usize>::empty()
    }

    fn action() -> &'static str {
        "guiSelectedNotes"
    }

    fn params(&self) -> (p: Option<JsonValue>) {
        None
    }

    fn decode_response(v: &JsonValue) -> Option<Vec<usize>> {
        decode_usize_vec(v)
    }

    fn default_response() -> Vec<usize> {
        Vec::new()
    }
}

/// Finds the open instance of the Card Browser dialog and returns an array of
/// identifiers of the notes that are selected. Returns an empty list if the
/// browser is not open.
pub fn gui_selected_notes() -> (r: Result<Vec<usize>, AnkiError>)
    ensures
        r matches Ok(t) ==> ((exists|rv: JsonVal| GuiSelectedNotesRequest::decodes(rv, t))
            || GuiSelectedNotesRequest::is_default(t)),
{
    dispatch(&(GuiSelectedNotesRequest {  }))
}

/// Fields of the note for adding cards using the Add Cards dialog.
#[derive(Default, Debug, Clone, PartialEq)]
pub struct GuiAddCardsNoteFields {
    /// The "Text" field of the note.
    pub text: String,
    /// The "Extra" field of the note.
    pub extra: String,
}

/// The JSON encoding of the note fields.
pub open spec fn note_fields_json(f: GuiAddCardsNoteFields) -> JsonVal {
    JsonVal::Obj(
        seq![
            JsonMemberV { key: "Text"@, val: JsonVal::Str(f.text@) },
            JsonMemberV { key: "Extra"@, val: JsonVal::Str(f.extra@) },
        ],
    )
}

/// Encodes the note fields.
pub(crate) fn json_note_fields(f: &GuiAddCardsNoteFields) -> (r: JsonValue)
    ensures
        r@ == note_fields_json(*f),
{
    obj2(
        "Text",
        JsonValue::Str(f.text.clone()),
        "Extra",
        JsonValue::Str(f.extra.clone()),
    )
}

/// Picture attached to the note for adding cards using the Add Cards dialog.
#[derive(Default, Debug, Clone, PartialEq)]
pub struct GuiAddCardsNotePicture {
    /// The URL of the picture.
    pub url: String,
    /// The filename of the picture.
    pub filename: String,
    /// The fields associated with the picture.
    pub fields: Vec<String>,
}

/// The JSON encoding of one picture.
pub open spec fn picture_json(p: GuiAddCardsNotePicture) -> JsonVal {
    JsonVal::Obj(
        seq![
            JsonMemberV { key: "url"@, val: JsonVal::Str(p.url@) },
            JsonMemberV { key: "filename"@, val: JsonVal::Str(p.filename@) },
            JsonMemberV { key: "fields"@, val: string_seq_json(p.fields@) },
        ],
    )
}

/// Encodes one picture.
pub(crate) fn json_picture(p: &GuiAddCardsNotePicture) -> (r: JsonValue)
    ensures
        r@ == picture_json(*p),
{
    obj3(
        "url",
        JsonValue::Str(p.url.clone()),
        "filename",
        JsonValue::Str(p.filename.clone()),
        "fields",
        json_string_vec(&p.fields),
    )
}

/// The JSON encoding of a list of pictures.
pub open spec fn picture_seq_json(s: Seq<GuiAddCardsNotePicture>) -> JsonVal {
    JsonVal::Arr(
        Seq::new(
            s.len(),
            |i: int|
                if 0 <= i < s.len() {
                    picture_json(s[i])
                } else {
                    JsonVal::Null
                },
        ),
    )
}

/// Encodes a list of pictures.
pub(crate) fn json_picture_vec(v: &Vec<GuiAddCardsNotePicture>) -> (r: JsonValue)
    ensures
        r@ == picture_seq_json(v@),
{
    let n = v.len();
    let mut items: Vec<JsonValue> = Vec::new();
    let mut i: usize = 0;
    while i < n
        invariant
            i <= n,
            n == v@.len(),
            items@.len() == i,
            forall|j: int| 0 <= j < i ==> (#[trigger] items@[j])@ == picture_json(v@[j]),
        decreases n - i,
    {
        items.push(json_picture(&v[i]));
        i += 1;
    }
    let out = JsonValue::Arr(items);
    proof {
        lemma_arr_view(out);
        assert(crate::json::seq_view(out->Arr_0@) =~= picture_seq_json(v@)->Arr_0);
    }
    out
}

/// A note for adding cards using the Add Cards dialog.
#[derive(Default, Debug, Clone, PartialEq)]
pub struct GuiAddCardsNote {
    /// The deck name for the note.
    pub deck_name: String,
    /// The model name for the note.
    pub model_name: String,
    /// The fields of the note.
    pub fields: GuiAddCardsNoteFields,
    /// The tags of the note.
    pub tags: Vec<String>,
    /// The pictures attached to the note.
    pub picture: Vec<GuiAddCardsNotePicture>,
}

/// The JSON encoding of the note to add.
pub open spec fn add_cards_note_json(x: GuiAddCardsNote) -> JsonVal {
    JsonVal::Obj(
        seq![
            JsonMemberV { key: "deckName"@, val: JsonVal::Str(x.deck_name@) },
            JsonMemberV { key: "modelName"@, val: JsonVal::Str(x.model_name@) },
            JsonMemberV { key: "fields"@, val: note_fields_json(x.fields) },
            JsonMemberV { key: "tags"@, val: string_seq_json(x.tags@) },
            JsonMemberV { key: "picture"@, val: picture_seq_json(x.picture@) },
        ],
    )
}

/// Encodes the note to add.
pub(crate) fn json_add_cards_note(x: &GuiAddCardsNote) -> (r: JsonValue)
    ensures
        r@ == add_cards_note_json(*x),
{
    let mut pairs: Vec<(String, JsonValue)> = Vec::new();
    crate::codec::push_member(&mut pairs, "deckName", JsonValue::Str(x.deck_name.clone()));
    crate::codec::push_member(&mut pairs, "modelName", JsonValue::Str(x.model_name.clone()));
    crate::codec::push_member(&mut pairs, "fields", json_note_fields(&x.fields));
    crate::codec::push_member(&mut pairs, "tags", json_string_vec(&x.tags));
    crate::codec::push_member(&mut pairs, "picture", json_picture_vec(&x.picture));
    let out = JsonValue::Obj(pairs);
    proof {
        lemma_obj_view(out);
        assert(members_view(Seq::<(String, JsonValue)>::empty()) =~= Seq::<JsonMemberV>::empty());
        assert(members_view(out->Obj_0@) =~= add_cards_note_json(*x)->Obj_0);
    }
    out
}

/// Parameters for adding cards using the Add Cards dialog.
#[derive(Default, Debug, Clone, PartialEq)]
pub struct GuiAddCardsParams {
    /// The note to add using the Add Cards dialog.
    pub note: GuiAddCardsNote,
}

impl AnkiRequest for GuiAddCardsParams {
    type Response = usize;

    open spec fn spec_action() -> Seq<char> {
        "guiAddCards"@
    }

    open spec fn spec_params(&self) -> Option<JsonVal> {
        Some(
            JsonVal::Obj(seq![JsonMemberV { key: "note"@, val: add_cards_note_json(self.note) }]),
        )
    }

    open spec fn decodes(v: JsonVal, r: usize) -> bool {
        v == JsonVal::Num(r as int)
    }

    open spec fn is_default(r: usize) -> bool {
        r == 0
    }

    fn action() -> &'static str {
        "guiAddCards"
    }

    fn params(&self) -> (p: Option<JsonValue>) {
        Some(obj1("note", json_add_cards_note(&self.note)))
    }

    fn decode_response(v: &JsonValue) -> Option<usize> {
        decode_usize(v)
    }

    fn default_response() -> usize {
        0
    }
}

/// Invokes the Add Cards dialog, presets the note using the given deck and
/// model, with the provided field values and tags. The result is the ID of
/// the note which would be added, if the user chose to confirm the Add Cards
/// dialogue.
pub fn gui_add_cards(params: GuiAddCardsParams) -> (r: Result<usize, AnkiError>)
    ensures
        r matches Ok(t) ==> ((exists|rv: JsonVal| GuiAddCardsParams::decodes(rv, t))
            || GuiAddCardsParams::is_default(t)),
{
    dispatch(&params)
}

/// Parameters for editing a note using the Edit dialog.
#[derive(Default, Debug, Clone, PartialEq)]
pub struct GuiEditNoteParams {
    /// The ID of the note to edit.
    pub note: usize,
}

impl AnkiRequest for GuiEditNoteParams {
    type Response = ();

    open spec fn spec_action() -> Seq<char> {
        "guiEditNote"@
    }

    open spec fn spec_params(&self) -> Option<JsonVal> {
        Some(
            JsonVal::Obj(seq![JsonMemberV { key: "note"@, val: JsonVal::Num(self.note as int) }]),
        )
    }

    open spec fn decodes(v: JsonVal, r: ()) -> bool {
        v is Null
    }

    open spec fn is_default(r: ()) -> bool {
        true
    }

    fn action() -> &'static str {
        "guiEditNote"
    }

    fn params(&self) -> (p: Option<JsonValue>) {
        Some(obj1("note", JsonValue::Num(self.note as i128)))
    }

    fn decode_response(v: &JsonValue) -> Option<()> {
        match v {
            JsonValue::Null => Some(()),
            _ => None,
        }
    }

    fn default_response() -> () {
        ()
    }
}

/// Opens the Edit dialog with a note corresponding to the given note ID. The
/// dialog is similar to the Edit Current dialog, with a Preview button, a
/// Browse button and history navigation.
pub fn gui_edit_note(params: GuiEditNoteParams) -> (r: Result<(), AnkiError>)
    ensures
        r matches Ok(t) ==> ((exists|rv: JsonVal| GuiEditNoteParams::decodes(rv, t))
            || GuiEditNoteParams::is_default(t)),
{
    dispatch(&params)
}

/// Represents a face of the fields of the current card being reviewed.
#[derive(Default, Debug, Clone, PartialEq)]
pub struct GuiCurrentCardFieldsFace {
    /// The value of the face.
    pub value: String,
    /// The order of the face.
    pub order: isize,
}

/// The JSON object shape of a [`GuiCurrentCardFieldsFace`] record.
pub open spec fn face_rel(v: JsonVal, r: GuiCurrentCardFieldsFace) -> bool {
    &&& v is Obj
    &&& spec_lookup(v->Obj_0, "value"@) == Some(JsonVal::Str(r.value@))
    &&& spec_lookup(v->Obj_0, "order"@) == Some(JsonVal::Num(r.order as int))
}

/// Decodes one [`GuiCurrentCardFieldsFace`] record.
pub(crate) fn decode_face(v: &JsonValue) -> (r: Option<GuiCurrentCardFieldsFace>)
    ensures
        r matches Some(x) ==> face_rel(v@, x),
        r is None ==> forall|x: GuiCurrentCardFieldsFace| !face_rel(v@, x),
{
    match v {
        JsonValue::Obj(pairs) => {
            proof {
                lemma_obj_view(JsonValue::Obj(*pairs));
            }
            let x_value = match get_string_field(pairs, "value") {
                Some(x) => x,
                None => {
                    return None;
                },
            };
            let x_order = match get_isize_field(pairs, "order") {
                Some(x) => x,
                None => {
                    return None;
                },
            };
            Some(GuiCurrentCardFieldsFace { value: x_value, order: x_order })
        },
        _ => None,
    }
}

/// Represents the fields of the current card being reviewed.
#[derive(Default, Debug, Clone, PartialEq)]
pub struct GuiCurrentCardFields {
    /// The front face of the fields.
    pub front: GuiCurrentCardFieldsFace,
    /// The back face of the fields.
    pub back: GuiCurrentCardFieldsFace,
}

/// The JSON object shape of a [`GuiCurrentCardFields`] record.
pub open spec fn current_fields_rel(v: JsonVal, r: GuiCurrentCardFields) -> bool {
    &&& v is Obj
    &&& (spec_lookup(v->Obj_0, "Front"@) matches Some(x) && face_rel(x, r.front))
    &&& (spec_lookup(v->Obj_0, "Back"@) matches Some(x) && face_rel(x, r.back))
}

/// Decodes one [`GuiCurrentCardFields`] record.
pub(crate) fn decode_current_fields(v: &JsonValue) -> (r: Option<GuiCurrentCardFields>)
    ensures
        r matches Some(x) ==> current_fields_rel(v@, x),
        r is None ==> forall|x: GuiCurrentCardFields| !current_fields_rel(v@, x),
{
    match v {
        JsonValue::Obj(pairs) => {
            proof {
                lemma_obj_view(JsonValue::Obj(*pairs));
            }
            let k_front = String::from_str("Front");
            let x_front = match obj_get(pairs, &k_front) {
                Some(w) => match decode_face(w) {
                    Some(x) => x,
                    None => {
                        return None;
                    },
                },
                None => {
                    return None;
                },
            };
            let k_back = String::from_str("Back");
            let x_back = match obj_get(pairs, &k_back) {
                Some(w) => match decode_face(w) {
                    Some(x) => x,
                    None => {
                        return None;
                    },
                },
                None => {
                    return None;
                },
            };
            Some(GuiCurrentCardFields { front: x_front, back: x_back })
        },
        _ => None,
    }
}

/// Represents the current card being reviewed.
#[derive(Default, Debug, Clone, PartialEq)]
pub struct GuiCurrentCard {
    /// The answer of the current card.
    pub answer: String,
    /// The question of the current card.
    pub question: String,
    /// The deck name of the current card.
    pub deck_name: String,
    /// The model name of the current card.
    pub model_name: String,
    /// The field order of the current card.
    pub field_order: isize,
    /// The fields of the current card.
    pub fields: GuiCurrentCardFields,
    /// The template of the current card.
    pub template: String,
    /// The ID of the current card.
    pub card_id: isize,
    /// The buttons associated with the current card.
    pub buttons: Vec<isize>,
    /// The next reviews for the current card.
    pub next_reviews: Vec<String>,
}

/// The JSON object shape of a [`GuiCurrentCard`] record.
pub open spec fn current_card_rel(v: JsonVal, r: GuiCurrentCard) -> bool {
    &&& v is Obj
    &&& spec_lookup(v->Obj_0, "answer"@) == Some(JsonVal::Str(r.answer@))
    &&& spec_lookup(v->Obj_0, "question"@) == Some(JsonVal::Str(r.question@))
    &&& spec_lookup(v->Obj_0, "deckName"@) == Some(JsonVal::Str(r.deck_name@))
    &&& spec_lookup(v->Obj_0, "modelName"@) == Some(JsonVal::Str(r.model_name@))
    &&& spec_lookup(v->Obj_0, "fieldOrder"@) == Some(JsonVal::Num(r.field_order as int))
    &&& (spec_lookup(v->Obj_0, "fields"@) matches Some(x) && current_fields_rel(x, r.fields))
    &&& spec_lookup(v->Obj_0, "template"@) == Some(JsonVal::Str(r.template@))
    &&& spec_lookup(v->Obj_0, "cardId"@) == Some(JsonVal::Num(r.card_id as int))
    &&& (spec_lookup(v->Obj_0, "buttons"@) matches Some(x) && isize_vec_rel(x, r.buttons@))
    &&& (spec_lookup(v->Obj_0, "nextReviews"@) matches Some(x) && string_vec_rel(x, r.next_reviews@))
}

/// Decodes one [`GuiCurrentCard`] record.
pub(crate) fn decode_current_card(v: &JsonValue) -> (r: Option<GuiCurrentCard>)
    ensures
        r matches Some(x) ==> current_card_rel(v@, x),
        r is None ==> forall|x: GuiCurrentCard| !current_card_rel(v@, x),
{
    match v {
        JsonValue::Obj(pairs) => {
            proof {
                lemma_obj_view(JsonValue::Obj(*pairs));
            }
            let x_answer = match get_string_field(pairs, "answer") {
                Some(x) => x,
                None => {
                    return None;
                },
            };
            let x_question = match get_string_field(pairs, "question") {
                Some(x) => x,
                None => {
                    return None;
                },
            };
            let x_deck_name = match get_string_field(pairs, "deckName") {
                Some(x) => x,
                None => {
                    return None;
                },
            };
            let x_model_name = match get_string_field(pairs, "modelName") {
                Some(x) => x,
                None => {
                    return None;
                },
            };
            let x_field_order = match get_isize_field(pairs, "fieldOrder") {
                Some(x) => x,
                None => {
                    return None;
                },
            };
            let k_fields = String::from_str("fields");
            let x_fields = match obj_get(pairs, &k_fields) {
                Some(w) => match decode_current_fields(w) {
                    Some(x) => x,
                    None => {
                        return None;
                    },
                },
                None => {
                    return None;
                },
            };
            let x_template = match get_string_field(pairs, "template") {
                Some(x) => x,
                None => {
                    return None;
                },
            };
            let x_card_id = match get_isize_field(pairs, "cardId") {
                Some(x) => x,
                None => {
                    return None;
                },
            };
            let x_buttons = match get_isize_vec_field(pairs, "buttons") {
                Some(x) => x,
                None => {
                    return None;
                },
            };
            let x_next_reviews = match get_string_vec_field(pairs, "nextReviews") {
                Some(x) => x,
                None => {
                    return None;
                },
            };
            Some(GuiCurrentCard { answer: x_answer, question: x_question, deck_name: x_deck_name, model_name: x_model_name, field_order: x_field_order, fields: x_fields, template: x_template, card_id: x_card_id, buttons: x_buttons, next_reviews: x_next_reviews })
        },
        _ => None,
    }
}

/// The "guiCurrentCard" action, which takes no parameters.
#[derive(Default, Debug, Clone, PartialEq)]
pub struct GuiCurrentCardRequest {
}

impl AnkiRequest for GuiCurrentCardRequest {
    type Response = GuiCurrentCard;

    open spec fn spec_action() -> Seq<char> {
        "guiCurrentCard"@
    }

    open spec fn spec_params(&self) -> Option<JsonVal> {
        None
    }

    open spec fn decodes(v: JsonVal, r: GuiCurrentCard) -> bool {
        current_card_rel(v, r)
    }

    open spec fn is_default(r: GuiCurrentCard) -> bool {
        r.answer@ == Seq::<char>::empty() && r.question@ == Seq::<char>::empty()
            && r.deck_name@ == Seq::<char>::empty() && r.model_name@ == Seq::<char>::empty()
            && r.field_order == 0 && r.fields.front.value@ == Seq::<char>::empty()
            && r.fields.front.order == 0 && r.fields.back.value@ == Seq::<char>::empty()
            && r.fields.back.order == 0 && r.template@ == Seq::<char>::empty() && r.card_id == 0
            && r.buttons@ == Seq::<isize>::empty() && r.next_reviews@ == Seq::<String>::empty()
    }

    fn action() -> &'static str {
        "guiCurrentCard"
    }

    fn params(&self) -> (p: Option<JsonValue>) {
        None
    }

    fn decode_response(v: &JsonValue) -> Option<GuiCurrentCard> {
        decode_current_card(v)
    }

    fn default_response() -> GuiCurrentCard {
        GuiCurrentCard {
            answer: String::new(),
            question: String::new(),
            deck_name: String::new(),
            model_name: String::new(),
            field_order: 0,
            fields: GuiCurrentCardFields {
                front: GuiCurrentCardFieldsFace { value: String::new(), order: 0 },
                back: GuiCurrentCardFieldsFace { value: String::new(), order: 0 },
            },
            template: String::new(),
            card_id: 0,
            buttons: Vec::new(),
            next_reviews: Vec::new(),
        }
    }
}

/// Returns information about the current card, or the empty default when not
/// in review mode.
pub fn gui_current_card() -> (r: Result<GuiCurrentCard, AnkiError>)
    ensures
        r matches Ok(t) ==> ((exists|rv: JsonVal| GuiCurrentCardRequest::decodes(rv, t))
            || GuiCurrentCardRequest::is_default(t)),
{
    dispatch(&(GuiCurrentCardRequest {  }))
}

/// The "guiStartCardTimer" action, which takes no parameters.
#[derive(Default, Debug, Clone, PartialEq)]
pub struct GuiStartCardTimerRequest {
}

impl AnkiRequest for GuiStartCardTimerRequest {
    type Response = ();

    open spec fn spec_action() -> Seq<char> {
        "guiStartCardTimer"@
    }

    open spec fn spec_params(&self) -> Option<JsonVal> {
        None
    }

    open spec fn decodes(v: JsonVal, r: ()) -> bool {
        v is Null
    }

    open spec fn is_default(r: ()) -> bool {
        true
    }

    fn action() -> &'static str {
        "guiStartCardTimer"
    }

    fn params(&self) -> (p: Option<JsonValue>) {
        None
    }

    fn decode_response(v: &JsonValue) -> Option<()> {
        match v {
            JsonValue::Null => Some(()),
            _ => None,
        }
    }

    fn default_response() -> () {
        ()
    }
}

/// Starts or resets the `timerStarted` value for the current card. This is
/// useful for deferring the start time to when it is displayed via the API,
/// allowing the recorded time taken to answer the card to be more accurate
/// when calling `guiAnswerCard`.
pub fn gui_start_card_timer() -> (r: Result<(), AnkiError>)
    ensures
        r matches Ok(t) ==> ((exists|rv: JsonVal| GuiStartCardTimerRequest::decodes(rv, t))
            || GuiStartCardTimerRequest::is_default(t)),
{
    dispatch(&(GuiStartCardTimerRequest {  }))
}

/// The "guiShowQuestion" action, which takes no parameters.
#[derive(Default, Debug, Clone, PartialEq)]
pub struct GuiShowQuestionRequest {
}

impl AnkiRequest for GuiShowQuestionRequest {
    type Response = ();

    open spec fn spec_action() -> Seq<char> {
        "guiShowQuestion"@
    }

    open spec fn spec_params(&self) -> Option<JsonVal> {
        None
    }

    open spec fn decodes(v: JsonVal, r: ()) -> bool {
        v is Null
    }

    open spec fn is_default(r: ()) -> bool {
        true
    }

    fn action() -> &'static str {
        "guiShowQuestion"
    }

    fn params(&self) -> (p: Option<JsonValue>) {
        None
    }

    fn decode_response(v: &JsonValue) -> Option<()> {
        match v {
            JsonValue::Null => Some(()),
            _ => None,
        }
    }

    fn default_response() -> () {
        ()
    }
}

/// Shows question text for the current card.
pub fn gui_show_question() -> (r: Result<(), AnkiError>)
    ensures
        r matches Ok(t) ==> ((exists|rv: JsonVal| GuiShowQuestionRequest::decodes(rv, t))
            || GuiShowQuestionRequest::is_default(t)),
{
    dispatch(&(GuiShowQuestionRequest {  }))
}

/// The "guiShowAnswer" action, which takes no parameters.
#[derive(Default, Debug, Clone, PartialEq)]
pub struct GuiShowAnswerRequest {
}

impl AnkiRequest for GuiShowAnswerRequest {
    type Response = ();

    open spec fn spec_action() -> Seq<char> {
        "guiShowAnswer"@
    }

    open spec fn spec_params(&self) -> Option<JsonVal> {
        None
    }

    open spec fn decodes(v: JsonVal, r: ()) -> bool {
        v is Null
    }

    open spec fn is_default(r: ()) -> bool {
        true
    }

    fn action() -> &'static str {
        "guiShowAnswer"
    }

    fn params(&self) -> (p: Option<JsonValue>) {
        None
    }

    fn decode_response(v: &JsonValue) -> Option<()> {
        match v {
            JsonValue::Null => Some(()),
            _ => None,
        }
    }

    fn default_response() -> () {
        ()
    }
}

/// Shows answer text for the current card.
pub fn gui_show_answer() -> (r: Result<(), AnkiError>)
    ensures
        r matches Ok(t) ==> ((exists|rv: JsonVal| GuiShowAnswerRequest::decodes(rv, t))
            || GuiShowAnswerRequest::is_default(t)),
{
    dispatch(&(GuiShowAnswerRequest {  }))
}

/// The "guiDeckBrowser" action, which takes no parameters.
#[derive(Default, Debug, Clone, PartialEq)]
pub struct GuiDeckBrowserRequest {
}

impl AnkiRequest for GuiDeckBrowserRequest {
    type Response = ();

    open spec fn spec_action() -> Seq<char> {
        "guiDeckBrowser"@
    }

    open spec fn spec_params(&self) -> Option<JsonVal> {
        None
    }

    open spec fn decodes(v: JsonVal, r: ()) -> bool {
        v is Null
    }

    open spec fn is_default(r: ()) -> bool {
        true
    }

    fn action() -> &'static str {
        "guiDeckBrowser"
    }

    fn params(&self) -> (p: Option<JsonValue>) {
        None
    }

    fn decode_response(v: &JsonValue) -> Option<()> {
        match v {
            JsonValue::Null => Some(()),
            _ => None,
        }
    }

    fn default_response() -> () {
        ()
    }
}

/// Opens the Deck Browser dialog.
pub fn gui_deck_browser() -> (r: Result<(), AnkiError>)
    ensures
        r matches Ok(t) ==> ((exists|rv: JsonVal| GuiDeckBrowserRequest::decodes(rv, t))
            || GuiDeckBrowserRequest::is_default(t)),
{
    dispatch(&(GuiDeckBrowserRequest {  }))
}

/// The "guiExitAnki" action, which takes no parameters.
#[derive(Default, Debug, Clone, PartialEq)]
pub struct GuiExitAnkiRequest {
}

impl AnkiRequest for GuiExitAnkiRequest {
    type Response = ();

    open spec fn spec_action() -> Seq<char> {
        "guiExitAnki"@
    }

    open spec fn spec_params(&self) -> Option<JsonVal> {
        None
    }

    open spec fn decodes(v: JsonVal, r: ()) -> bool {
        v is Null
    }

    open spec fn is_default(r: ()) -> bool {
        true
    }

    fn action() -> &'static str {
        "guiExitAnki"
    }

    fn params(&self) -> (p: Option<JsonValue>) {
        None
    }

    fn decode_response(v: &JsonValue) -> Option<()> {
        match v {
            JsonValue::Null => Some(()),
            _ => None,
        }
    }

    fn default_response() -> () {
        ()
    }
}

/// Schedules a request to gracefully close Anki. This operation is
/// asynchronous, so it will return immediately and won’t wait until the Anki
/// process actually terminates.
pub fn gui_exit_anki() -> (r: Result<(), AnkiError>)
    ensures
        r matches Ok(t) ==> ((exists|rv: JsonVal| GuiExitAnkiRequest::decodes(rv, t))
            || GuiExitAnkiRequest::is_default(t)),
{
    dispatch(&(GuiExitAnkiRequest {  }))
}

/// The "guiCheckDatabase" action, which takes no parameters.
#[derive(Default, Debug, Clone, PartialEq)]
pub struct GuiCheckDatabaseRequest {
}

impl AnkiRequest for GuiCheckDatabaseRequest {
    type Response = bool;

    open spec fn spec_action() -> Seq<char> {
        "guiCheckDatabase"@
    }

    open spec fn spec_params(&self) -> Option<JsonVal> {
        None
    }

    open spec fn decodes(v: JsonVal, r: bool) -> bool {
        v == JsonVal::Bool(r)
    }

    open spec fn is_default(r: bool) -> bool {
        r == false
    }

    fn action() -> &'static str {
        "guiCheckDatabase"
    }

    fn params(&self) -> (p: Option<JsonValue>) {
        None
    }

    fn decode_response(v: &JsonValue) -> Option<bool> {
        decode_bool(v)
    }

    fn default_response() -> bool {
        false
    }
}

/// Requests a database check, but returns immediately without waiting for
/// the check to complete. Therefore, the action will always return [true]
/// even if errors are detected during the database check.
pub fn gui_check_database() -> (r: Result<bool, AnkiError>)
    ensures
        r matches Ok(t) ==> ((exists|rv: JsonVal| GuiCheckDatabaseRequest::decodes(rv, t))
            || GuiCheckDatabaseRequest::is_default(t)),
{
    dispatch(&(GuiCheckDatabaseRequest {  }))
}

/// Parameters for answering the current card.
#[derive(Default, Debug, Clone, PartialEq)]
pub struct GuiAnswerCardParams {
    /// The cards to answer.
    pub cards: String,
}

impl AnkiRequest for GuiAnswerCardParams {
    type Response = bool;

    open spec fn spec_action() -> Seq<char> {
        "guiAnswerCard"@
    }

    open spec fn spec_params(&self) -> Option<JsonVal> {
        Some(
            JsonVal::Obj(seq![JsonMemberV { key: "cards"@, val: JsonVal::Str(self.cards@) }]),
        )
    }

    open spec fn decodes(v: JsonVal, r: bool) -> bool {
        v == JsonVal::Bool(r)
    }

    open spec fn is_default(r: bool) -> bool {
        r == false
    }

    fn action() -> &'static str {
        "guiAnswerCard"
    }

    fn params(&self) -> (p: Option<JsonValue>) {
        Some(obj1("cards", JsonValue::Str(self.cards.clone())))
    }

    fn decode_response(v: &JsonValue) -> Option<bool> {
        decode_bool(v)
    }

    fn default_response() -> bool {
        false
    }
}

/// Answers the current card; returns [true] if succeeded or [false]
/// otherwise. Note that the answer for the current card must be displayed
/// before any answer can be accepted by Anki.
pub fn gui_answer_card(params: GuiAnswerCardParams) -> (r: Result<bool, AnkiError>)
    ensures
        r matches Ok(t) ==> ((exists|rv: JsonVal| GuiAnswerCardParams::decodes(rv, t))
            || GuiAnswerCardParams::is_default(t)),
{
    dispatch(&params)
}

/// Parameters for answering the current card.
#[derive(Default, Debug, Clone, PartialEq)]
pub struct GuiAnswerCardRequest {
    /// The ease button to answer with.
    pub ease: usize,
}

impl AnkiRequest for GuiAnswerCardRequest {
    type Response = bool;

    open spec fn spec_action() -> Seq<char> {
        "guiAnswerCard"@
    }

    open spec fn spec_params(&self) -> Option<JsonVal> {
        Some(
            JsonVal::Obj(seq![JsonMemberV { key: "ease"@, val: JsonVal::Num(self.ease as int) }]),
        )
    }

    open spec fn decodes(v: JsonVal, r: bool) -> bool {
        v == JsonVal::Bool(r)
    }

    open spec fn is_default(r: bool) -> bool {
        r == false
    }

    fn action() -> &'static str {
        "guiAnswerCard"
    }

    fn params(&self) -> (p: Option<JsonValue>) {
        Some(obj1("ease", JsonValue::Num(self.ease as i128)))
    }

    fn decode_response(v: &JsonValue) -> Option<bool> {
        decode_bool(v)
    }

    fn default_response() -> bool {
        false
    }
}

/// Parameters for the "guiDeckOverview" action.
#[derive(Default, Debug, Clone, PartialEq)]
pub struct GuiDeckOverviewParams {
    /// The name of the deck.
    pub name: String,
}

impl AnkiRequest for GuiDeckOverviewParams {
    type Response = bool;

    open spec fn spec_action() -> Seq<char> {
        "guiDeckOverview"@
    }

    open spec fn spec_params(&self) -> Option<JsonVal> {
        Some(
            JsonVal::Obj(seq![JsonMemberV { key: "name"@, val: JsonVal::Str(self.name@) }]),
        )
    }

    open spec fn decodes(v: JsonVal, r: bool) -> bool {
        v == JsonVal::Bool(r)
    }

    open spec fn is_default(r: bool) -> bool {
        r == false
    }

    fn action() -> &'static str {
        "guiDeckOverview"
    }

    fn params(&self) -> (p: Option<JsonValue>) {
        Some(obj1("name", JsonValue::Str(self.name.clone())))
    }

    fn decode_response(v: &JsonValue) -> Option<bool> {
        decode_bool(v)
    }

    fn default_response() -> bool {
        false
    }
}

/// Opens the Deck Overview dialog for the deck with the given name; returns
/// [true] if succeeded or [false] otherwise.
pub fn gui_deck_overview(params: GuiDeckOverviewParams) -> (r: Result<bool, AnkiError>)
    ensures
        r matches Ok(t) ==> ((exists|rv: JsonVal| GuiDeckOverviewParams::decodes(rv, t))
            || GuiDeckOverviewParams::is_default(t)),
{
    dispatch(&params)
}

/// Parameters for the "guiDeckReview" action.
#[derive(Default, Debug, Clone, PartialEq)]
pub struct GuiDeckReviewParams {
    /// The name of the deck.
    pub name: String,
}

impl AnkiRequest for GuiDeckReviewParams {
    type Response = bool;

    open spec fn spec_action() -> Seq<char> {
        "guiDeckReview"@
    }

    open spec fn spec_params(&self) -> Option<JsonVal> {
        Some(
            JsonVal::Obj(seq![JsonMemberV { key: "name"@, val: JsonVal::Str(self.name@) }]),
        )
    }

    open spec fn decodes(v: JsonVal, r: bool) -> bool {
        v == JsonVal::Bool(r)
    }

    open spec fn is_default(r: bool) -> bool {
        r == false
    }

    fn action() -> &'static str {
        "guiDeckReview"
    }

    fn params(&self) -> (p: Option<JsonValue>) {
        Some(obj1("name", JsonValue::Str(self.name.clone())))
    }

    fn decode_response(v: &JsonValue) -> Option<bool> {
        decode_bool(v)
    }

    fn default_response() -> bool {
        false
    }
}

/// Starts review for the deck with the given name; returns [true] if
/// succeeded or [false] otherwise.
pub fn gui_deck_review(params: GuiDeckReviewParams) -> (r: Result<bool, AnkiError>)
    ensures
        r matches Ok(t) ==> ((exists|rv: JsonVal| GuiDeckReviewParams::decodes(rv, t))
            || GuiDeckReviewParams::is_default(t)),
{
    dispatch(&params)
}

} // verus!
