//! Note-related actions.
use vstd::prelude::*;
use crate::codec::{
    get_string_field, get_string_vec_field, get_u64_field, get_usize_field, json_string_vec,
    json_u64_vec, obj1, obj_get, string_seq_json, string_vec_rel, u64_seq_json,
};
use crate::envelope::spec_lookup;
use crate::json::{
    JsonMemberV, JsonVal, JsonValue, lemma_arr_view, lemma_obj_view, members_view,
};
use crate::request::{AnkiRequest, dispatch};
use crate::AnkiError;

verus! {

/// Parameters for the "notesInfo" action.
#[derive(Default, Debug, Clone, PartialEq, Eq)]
pub struct NotesInfoRequest {
    /// IDs of the notes to get information for.
    pub notes: Vec<u64>,
}

/// One field of a note.
#[derive(Default, Debug, Clone, PartialEq, Eq)]
pub struct NotesInfoFieldsResponse {
    /// The value of the field.
    pub value: String,
    /// The order of the field.
    pub order: usize,
}

/// The JSON object shape of a [`NotesInfoFieldsResponse`] record.
pub open spec fn notes_info_field_rel(v: JsonVal, r: NotesInfoFieldsResponse) -> bool {
    &&& v is Obj
    &&& spec_lookup(v->Obj_0, "value"@) == Some(JsonVal::Str(r.value@))
    &&& spec_lookup(v->Obj_0, "order"@) == Some(JsonVal::Num(r.order as int))
}

/// Decodes one [`NotesInfoFieldsResponse`] record.
pub(crate) fn decode_notes_info_field(v: &JsonValue) -> (r: Option<NotesInfoFieldsResponse>)
    ensures
        r matches Some(x) ==> notes_info_field_rel(v@, x),
        r is None ==> forall|x: NotesInfoFieldsResponse| !notes_info_field_rel(v@, x),
{
    match v {
        JsonValue::Obj(pairs) => {
            proof {
                lemma_obj_view(JsonValue::Obj(*pairs));
            }
            let x_value = match get_string_field(pairs, "value") {
                Some(x) => x,
                None => {
                    return None;
                },
            };
            let x_order = match get_usize_field(pairs, "order") {
                Some(x) => x,
                None => {
                    return None;
                },
            };
            Some(NotesInfoFieldsResponse { value: x_value, order: x_order })
        },
        _ => None,
    }
}

/// A JSON object decoding memberwise into key-value pairs.
pub open spec fn notes_info_fields_rel(v: JsonVal, s: Seq<(String, NotesInfoFieldsResponse)>) -> bool {
    &&& v is Obj
    &&& v->Obj_0.len() == s.len()
    &&& forall|i: int| 0 <= i < s.len() ==> ((#[trigger] v->Obj_0[i]).key == s[i].0@ && notes_info_field_rel(v->Obj_0[i].val, s[i].1))
}

/// Decodes an object into key-value pairs, keeping the members' order.
pub(crate) fn decode_notes_info_fields(v: &JsonValue) -> (r: Option<Vec<(String, NotesInfoFieldsResponse)>>)
    ensures
        r matches Some(xs) ==> notes_info_fields_rel(v@, xs@),
        r is None ==> forall|s: Seq<(String, NotesInfoFieldsResponse)>| !notes_info_fields_rel(v@, s),
{
    match v {
        JsonValue::Obj(pairs) => {
            proof {
                lemma_obj_view(JsonValue::Obj(*pairs));
            }
            let ghost pv = v@->Obj_0;
            let n = pairs.len();
            let mut out: Vec<(String, NotesInfoFieldsResponse)> = Vec::new();
            let mut i: usize = 0;
            while i < n
                invariant
                    i <= n,
                    n == pairs@.len(),
                    pv.len() == n,
                    forall|j: int| 0 <= j < n ==> pv[j] == (JsonMemberV {
                        key: (#[trigger] pairs@[j]).0@,
                        val: pairs@[j].1@,
                    }),
                    v@ == JsonVal::Obj(pv),
                    out@.len() == i,
                    forall|j: int| 0 <= j < i ==> (pv[j].key == (#[trigger] out@[j]).0@ && notes_info_field_rel(pv[j].val, out@[j].1)),
                decreases n - i,
            {
                match decode_notes_info_field(&pairs[i].1) {
                    Some(x) => {
                        out.push((pairs[i].0.clone(), x));
                    },
                    None => {
                        proof {
                            assert forall|s: Seq<(String, NotesInfoFieldsResponse)>| !notes_info_fields_rel(v@, s) by {
                                if notes_info_fields_rel(v@, s) {
                                    assert(notes_info_field_rel(pv[i as int].val, s[i as int].1));
                                }
                            }
                        }
                        return None;
                    },
                }
                i += 1;
            }
            Some(out)
        },
        _ => None,
    }
}

/// Information about one note.
#[derive(Default, Debug, Clone, PartialEq, Eq)]
pub struct NotesInfoResponse {
    /// The ID of the note.
    pub note_id: u64,
    /// The model name of the note.
    pub model_name: String,
    /// The tags of the note.
    pub tags: Vec<String>,
    /// The fields of the note, keyed by field name.
    pub fields: Vec<(String, NotesInfoFieldsResponse)>,
}

/// The JSON object shape of a [`NotesInfoResponse`] record.
pub open spec fn notes_info_rel(v: JsonVal, r: NotesInfoResponse) -> bool {
    &&& v is Obj
    &&& spec_lookup(v->Obj_0, "noteId"@) == Some(JsonVal::Num(r.note_id as int))
    &&& spec_lookup(v->Obj_0, "modelName"@) == Some(JsonVal::Str(r.model_name@))
    &&& (spec_lookup(v->Obj_0, "tags"@) matches Some(x) && string_vec_rel(x, r.tags@))
    &&& (spec_lookup(v->Obj_0, "fields"@) matches Some(x) && notes_info_fields_rel(x, r.fields@))
}

/// Decodes one [`NotesInfoResponse`] record.
pub(crate) fn decode_notes_info(v: &JsonValue) -> (r: Option<NotesInfoResponse>)
    ensures
        r matches Some(x) ==> notes_info_rel(v@, x),
        r is None ==> forall|x: NotesInfoResponse| !notes_info_rel(v@, x),
{
    match v {
        JsonValue::Obj(pairs) => {
            proof {
                lemma_obj_view(JsonValue::Obj(*pairs));
            }
            let x_note_id = match get_u64_field(pairs, "noteId") {
                Some(x) => x,
                None => {
                    return None;
                },
            };
            let x_model_name = match get_string_field(pairs, "modelName") {
                Some(x) => x,
                None => {
                    return None;
                },
            };
            let x_tags = match get_string_vec_field(pairs, "tags") {
                Some(x) => x,
                None => {
                    return None;
                },
            };
            let k_fields = String::from_str("fields");
            let x_fields = match obj_get(pairs, &k_fields) {
                Some(w) => match decode_notes_info_fields(w) {
                    Some(x) => x,
                    None => {
                        return None;
                    },
                },
                None => {
                    return None;
                },
            };
            Some(NotesInfoResponse { note_id: x_note_id, model_name: x_model_name, tags: x_tags, fields: x_fields })
        },
        _ => None,
    }
}

/// A JSON array decoding elementwise into [`NotesInfoResponse`] records.
pub open spec fn notes_info_vec_rel(v: JsonVal, s: Seq<NotesInfoResponse>) -> bool {
    &&& v is Arr
    &&& v->Arr_0.len() == s.len()
    &&& forall|i: int| 0 <= i < s.len() ==> notes_info_rel(#[trigger] v->Arr_0[i], s[i])
}

/// Decodes an array of [`NotesInfoResponse`] records.
pub(crate) fn decode_notes_info_vec(v: &JsonValue) -> (r: Option<Vec<NotesInfoResponse>>)
    ensures
        r matches Some(xs) ==> notes_info_vec_rel(v@, xs@),
        r is None ==> forall|s: Seq<NotesInfoResponse>| !notes_info_vec_rel(v@, s),
{
    match v {
        JsonValue::Arr(items) => {
            proof {
                lemma_arr_view(JsonValue::Arr(*items));
            }
            let ghost iv = v@->Arr_0;
            let n = items.len();
            let mut out: Vec<NotesInfoResponse> = Vec::new();
            let mut i: usize = 0;
            while i < n
                invariant
                    i <= n,
                    n == items@.len(),
                    iv.len() == n,
                    forall|j: int| 0 <= j < n ==> iv[j] == (#[trigger] items@[j])@,
                    v@ == JsonVal::Arr(iv),
                    out@.len() == i,
                    forall|j: int| 0 <= j < i ==> notes_info_rel(iv[j], #[trigger] out@[j]),
                decreases n - i,
            {
                match decode_notes_info(&items[i]) {
                    Some(x) => {
                        out.push(x);
                    },
                    None => {
                        proof {
                            assert forall|s: Seq<NotesInfoResponse>| !notes_info_vec_rel(v@, s) by {
                                if notes_info_vec_rel(v@, s) {
                                    assert(notes_info_rel(iv[i as int], s[i as int]));
                                }
                            }
                        }
                        return None;
                    },
                }
                i += 1;
            }
            Some(out)
        },
        _ => None,
    }
}

impl AnkiRequest for NotesInfoRequest {
    type Response = Vec<NotesInfoResponse>;

    open spec fn spec_action() -> Seq<char> {
        "notesInfo"@
    }

    open spec fn spec_params(&self) -> Option<JsonVal> {
        Some(
            JsonVal::Obj(seq![JsonMemberV { key: "notes"@, val: u64_seq_json(self.notes@) }]),
        )
    }

    open spec fn decodes(v: JsonVal, r: Vec<NotesInfoResponse>) -> bool {
        notes_info_vec_rel(v, r@)
    }

    open spec fn is_default(r: Vec<NotesInfoResponse>) -> bool {
        r@ == Seq::<NotesInfoResponse>::empty()
    }

    fn action() -> &'static str {
        "notesInfo"
    }

    fn params(&self) -> (p: Option<JsonValue>) {
        Some(obj1("notes", json_u64_vec(&self.notes)))
    }

    fn decode_response(v: &JsonValue) -> Option<Vec<NotesInfoResponse>> {
        decode_notes_info_vec(v)
    }

    fn default_response() -> Vec<NotesInfoResponse> {
        Vec::new()
    }
}

/// Returns a list of objects containing for each note ID the note fields,
/// tags, note type and the cards belonging to the note.
pub fn notes_info(params: NotesInfoRequest) -> (r: Result<Vec<NotesInfoResponse>, AnkiError>)
    ensures
        r matches Ok(t) ==> ((exists|rv: JsonVal| NotesInfoRequest::decodes(rv, t))
            || NotesInfoRequest::is_default(t)),
{
    dispatch(&params)
}

/// A media file attached to a note.
#[derive(Debug, Clone, PartialEq, Eq)]
pub struct NoteMedia {
    /// The URL the file can be fetched from.
    pub url: Option<String>,
    /// The path of the file on disk.
    pub path: Option<String>,
    /// The base64-encoded contents of the file.
    pub data: Option<String>,
    /// The filename to store the file under.
    pub filename: String,
    /// Skips the inclusion check by hash when set.
    pub skip_hash: Option<String>,
    /// The fields the file belongs to.
    pub fields: Vec<String>,
}

/// The optional member written for an optional string field: present
/// exactly when the field is present, absent entirely otherwise.
pub open spec fn opt_str_member(key: Seq<char>, o: Option<String>) -> Seq<JsonMemberV> {
    match o {
        Some(s) => seq![JsonMemberV { key: key, val: JsonVal::Str(s@) }],
        None => Seq::empty(),
    }
}

/// The JSON encoding of one media file.
pub open spec fn note_media_json(m: NoteMedia) -> JsonVal {
    JsonVal::Obj(
        opt_str_member("url"@, m.url) + opt_str_member("path"@, m.path) + opt_str_member(
            "data"@,
            m.data,
        ) + seq![JsonMemberV { key: "filename"@, val: JsonVal::Str(m.filename@) }]
            + opt_str_member("skip_hash"@, m.skip_hash) + seq![
            JsonMemberV { key: "fields"@, val: string_seq_json(m.fields@) },
        ],
    )
}

/// Encodes one media file; optional fields that are absent produce no
/// member at all.
pub(crate) fn json_note_media(m: &NoteMedia) -> (r: JsonValue)
    ensures
        r@ == note_media_json(*m),
{
    let mut pairs: Vec<(String, JsonValue)> = Vec::new();
    match &m.url {
        Some(s) => {
            crate::codec::push_member(&mut pairs, "url", JsonValue::Str(s.clone()));
        },
        None => {},
    }
    match &m.path {
        Some(s) => {
            crate::codec::push_member(&mut pairs, "path", JsonValue::Str(s.clone()));
        },
        None => {},
    }
    match &m.data {
        Some(s) => {
            crate::codec::push_member(&mut pairs, "data", JsonValue::Str(s.clone()));
        },
        None => {},
    }
    crate::codec::push_member(&mut pairs, "filename", JsonValue::Str(m.filename.clone()));
    match &m.skip_hash {
        Some(s) => {
            crate::codec::push_member(&mut pairs, "skip_hash", JsonValue::Str(s.clone()));
        },
        None => {},
    }
    crate::codec::push_member(&mut pairs, "fields", json_string_vec(&m.fields));
    let out = JsonValue::Obj(pairs);
    proof {
        lemma_obj_view(out);
        assert(members_view(Seq::<(String, JsonValue)>::empty()) =~= Seq::<JsonMemberV>::empty());
        assert(members_view(out->Obj_0@) =~= note_media_json(*m)->Obj_0);
    }
    out
}

/// The JSON encoding of a list of media files.
pub open spec fn note_media_seq_json(s: Seq<NoteMedia>) -> JsonVal {
    JsonVal::Arr(
        Seq::new(
            s.len(),
            |i: int|
                if 0 <= i < s.len() {
                    note_media_json(s[i])
                } else {
                    JsonVal::Null
                },
        ),
    )
}

/// Encodes a list of media files.
pub(crate) fn json_note_media_vec(v: &Vec<NoteMedia>) -> (r: JsonValue)
    ensures
        r@ == note_media_seq_json(v@),
{
    let n = v.len();
    let mut items: Vec<JsonValue> = Vec::new();
    let mut i: usize = 0;
    while i < n
        invariant
            i <= n,
            n == v@.len(),
            items@.len() == i,
            forall|j: int| 0 <= j < i ==> (#[trigger] items@[j])@ == note_media_json(v@[j]),
        decreases n - i,
    {
        items.push(json_note_media(&v[i]));
        i += 1;
    }
    let out = JsonValue::Arr(items);
    proof {
        lemma_arr_view(out);
        assert(crate::json::seq_view(out->Arr_0@) =~= note_media_seq_json(v@)->Arr_0);
    }
    out
}

/// The JSON object of the given key-value string pairs.
pub open spec fn string_pairs_json(s: Seq<(String, String)>) -> JsonVal {
    JsonVal::Obj(
        Seq::new(
            s.len(),
            |i: int|
                if 0 <= i < s.len() {
                    JsonMemberV { key: s[i].0@, val: JsonVal::Str(s[i].1@) }
                } else {
                    JsonMemberV { key: Seq::empty(), val: JsonVal::Null }
                },
        ),
    )
}

/// Encodes key-value string pairs as a JSON object, keeping their order.
pub(crate) fn json_string_pairs(v: &Vec<(String, String)>) -> (r: JsonValue)
    ensures
        r@ == string_pairs_json(v@),
{
    let n = v.len();
    let mut pairs: Vec<(String, JsonValue)> = Vec::new();
    let mut i: usize = 0;
    while i < n
        invariant
            i <= n,
            n == v@.len(),
            pairs@.len() == i,
            forall|j: int| 0 <= j < i ==> members_view(pairs@)[j] == (JsonMemberV {
                key: (#[trigger] v@[j]).0@,
                val: JsonVal::Str(v@[j].1@),
            }),
        decreases n - i,
    {
        pairs.push((v[i].0.clone(), JsonValue::Str(v[i].1.clone())));
        i += 1;
    }
    let out = JsonValue::Obj(pairs);
    proof {
        lemma_obj_view(out);
        assert(members_view(out->Obj_0@) =~= string_pairs_json(v@)->Obj_0);
    }
    out
}

/// The new field values of one note.
#[derive(Debug, Clone, PartialEq, Eq)]
pub struct UpdateNoteFields {
    /// The ID of the note to update.
    pub id: usize,
    /// The new values of the note's fields, keyed by field name.
    pub fields: Vec<(String, String)>,
    /// Audio files to attach.
    pub audio: Option<Vec<NoteMedia>>,
    /// Video files to attach.
    pub video: Option<Vec<NoteMedia>>,
    /// Pictures to attach.
    pub picture: Option<Vec<NoteMedia>>,
}

/// The optional member written for an optional media list: present exactly
/// when the list is present, absent entirely otherwise.
pub open spec fn opt_media_member(key: Seq<char>, o: Option<Vec<NoteMedia>>) -> Seq<JsonMemberV> {
    match o {
        Some(v) => seq![JsonMemberV { key: key, val: note_media_seq_json(v@) }],
        None => Seq::empty(),
    }
}

/// The JSON encoding of a note update.
pub open spec fn update_note_fields_json(u: UpdateNoteFields) -> JsonVal {
    JsonVal::Obj(
        seq![
            JsonMemberV { key: "id"@, val: JsonVal::Num(u.id as int) },
            JsonMemberV { key: "fields"@, val: string_pairs_json(u.fields@) },
        ] + opt_media_member("audio"@, u.audio) + opt_media_member("video"@, u.video)
            + opt_media_member("picture"@, u.picture),
    )
}

/// Encodes a note update; absent media lists produce no member at all.
pub(crate) fn json_update_note_fields(u: &UpdateNoteFields) -> (r: JsonValue)
    ensures
        r@ == update_note_fields_json(*u),
{
    let mut pairs: Vec<(String, JsonValue)> = Vec::new();
    crate::codec::push_member(&mut pairs, "id", JsonValue::Num(u.id as i128));
    crate::codec::push_member(&mut pairs, "fields", json_string_pairs(&u.fields));
    match &u.audio {
        Some(v) => {
            crate::codec::push_member(&mut pairs, "audio", json_note_media_vec(v));
        },
        None => {},
    }
    match &u.video {
        Some(v) => {
            crate::codec::push_member(&mut pairs, "video", json_note_media_vec(v));
        },
        None => {},
    }
    match &u.picture {
        Some(v) => {
            crate::codec::push_member(&mut pairs, "picture", json_note_media_vec(v));
        },
        None => {},
    }
    let out = JsonValue::Obj(pairs);
    proof {
        lemma_obj_view(out);
        assert(members_view(Seq::<(String, JsonValue)>::empty()) =~= Seq::<JsonMemberV>::empty());
        assert(members_view(out->Obj_0@) =~= update_note_fields_json(*u)->Obj_0);
    }
    out
}

/// Parameters for the "updateNoteFields" action.
#[derive(Debug, Clone, PartialEq, Eq)]
pub struct UpdateNoteFieldsRequest {
    /// The note to update.
    pub note: UpdateNoteFields,
}

impl AnkiRequest for UpdateNoteFieldsRequest {
    type Response = ();

    open spec fn spec_action() -> Seq<char> {
        "updateNoteFields"@
    }

    open spec fn spec_params(&self) -> Option<JsonVal> {
        Some(
            JsonVal::Obj(
                seq![JsonMemberV { key: "note"@, val: update_note_fields_json(self.note) }],
            ),
        )
    }

    open spec fn decodes(v: JsonVal, r: ()) -> bool {
        v is Null
    }

    open spec fn is_default(r: ()) -> bool {
        true
    }

    fn action() -> &'static str {
        "updateNoteFields"
    }

    fn params(&self) -> (p: Option<JsonValue>) {
        Some(obj1("note", json_update_note_fields(&self.note)))
    }

    fn decode_response(v: &JsonValue) -> Option<()> {
        match v {
            JsonValue::Null => Some(()),
            _ => None,
        }
    }

    fn default_response() -> () {
        ()
    }
}

/// Modifies the fields of an existing note. Media files can also be attached
/// to the updated note.
pub fn update_note_fields(params: UpdateNoteFieldsRequest) -> (r: Result<(), AnkiError>)
    ensures
        r matches Ok(t) ==> ((exists|rv: JsonVal| UpdateNoteFieldsRequest::decodes(rv, t))
            || UpdateNoteFieldsRequest::is_default(t)),
{
    dispatch(&params)
}

} // verus!
