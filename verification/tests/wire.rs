//! Wire-format tests: exact request envelopes, canonical serialization and
//! the text round trip.
use anki_connect::card_actions::{GetEaseFactorsParams, SetEaseFactorsParams};
use anki_connect::deck_actions::{CreateDeckParams, DeckNamesRequest};
use anki_connect::graphical_actions::{
    GuiAddCardsNote, GuiAddCardsNoteFields, GuiAddCardsNotePicture, GuiAddCardsParams,
};
use anki_connect::notes_actions::{NoteMedia, UpdateNoteFields, UpdateNoteFieldsRequest};
use anki_connect::json::{json_chars, string_from_chars, JsonValue};
use anki_connect::parse::parse_json_text;
use anki_connect::request::request_body;

fn render(v: &JsonValue) -> String {
    let cs = json_chars(v);
    string_from_chars(&cs)
}

fn round_trip(text: &str) -> String {
    let v = parse_json_text(text).expect("canonical text must parse");
    render(&v)
}

#[test]
fn request_without_params_omits_the_key() {
    let body = request_body(&DeckNamesRequest {});
    assert_eq!(body, "{\"action\":\"deckNames\",\"version\":6}");
    assert!(!body.contains("params"));
}

#[test]
fn request_with_params_carries_them() {
    let body = request_body(&GetEaseFactorsParams { cards: vec![1483959291685, 1483959293217] });
    assert_eq!(
        body,
        "{\"action\":\"getEaseFactors\",\"version\":6,\"params\":{\"cards\":[1483959291685,1483959293217]}}"
    );
}

#[test]
fn request_with_two_fields_keeps_field_order_and_wire_names() {
    let body = request_body(
        &SetEaseFactorsParams { cards: vec![1, 2], ease_factors: vec![4100, 4100] },
    );
    assert_eq!(
        body,
        "{\"action\":\"setEaseFactors\",\"version\":6,\"params\":{\"cards\":[1,2],\"easeFactors\":[4100,4100]}}"
    );
}

#[test]
fn string_params_are_quoted_and_escaped() {
    let body = request_body(&CreateDeckParams { deck: String::from("Jap\"an\\ese") });
    assert_eq!(
        body,
        "{\"action\":\"createDeck\",\"version\":6,\"params\":{\"deck\":\"Jap\\\"an\\\\ese\"}}"
    );
}

#[test]
fn control_characters_are_scalar_escaped() {
    let body = request_body(&CreateDeckParams { deck: String::from("a\nb\u{1}") });
    assert_eq!(
        body,
        "{\"action\":\"createDeck\",\"version\":6,\"params\":{\"deck\":\"a\\u000ab\\u0001\"}}"
    );
}

#[test]
fn canonical_text_round_trips_for_every_shape() {
    let samples = [
        "null",
        "true",
        "false",
        "0",
        "-1",
        "1483959289817",
        "-170141183460469231731687303715884105728",
        "170141183460469231731687303715884105727",
        "\"\"",
        "\"hello\"",
        "\"tab\\u0009and\\\"quote\\\"and\\\\slash\"",
        "[]",
        "[1]",
        "[1,2,3]",
        "[[1,-2],[],[3]]",
        "{}",
        "{\"a\":1}",
        "{\"result\":[1,2,3],\"error\":null}",
        "{\"mod\":1514652039,\"type\":0,\"deck\":\"D\"}",
        "[{\"x\":[true,false,null]},\"y\"]",
    ];
    for s in samples {
        assert_eq!(round_trip(s), *s);
    }
}

#[test]
fn unicode_content_round_trips() {
    let v = parse_json_text("\"caf\u{e9} \u{65e5}\u{672c}\"").expect("parses");
    match &v {
        JsonValue::Str(s) => assert_eq!(s, "caf\u{e9} \u{65e5}\u{672c}"),
        _ => panic!("expected a string"),
    }
    assert_eq!(render(&v), "\"caf\u{e9} \u{65e5}\u{672c}\"");
}

#[test]
fn parser_accepts_whitespace_between_tokens() {
    assert_eq!(round_trip(" { \"result\" : [ 1 , 2 ] , \"error\" : null } "),
        "{\"result\":[1,2],\"error\":null}");
    assert_eq!(round_trip("\t[ ]\r\n"), "[]");
}

#[test]
fn parser_decodes_short_and_scalar_escapes() {
    let v = parse_json_text("\"a\\n\\t\\r\\b\\f\\/\\u0041\"").expect("parses");
    match &v {
        JsonValue::Str(s) => assert_eq!(s, "a\n\t\r\u{8}\u{c}/A"),
        _ => panic!("expected a string"),
    }
}

#[test]
fn parser_decodes_surrogate_pairs() {
    let v = parse_json_text("\"\\ud83d\\ude00\"").expect("parses");
    match &v {
        JsonValue::Str(s) => assert_eq!(s, "\u{1f600}"),
        _ => panic!("expected a string"),
    }
}

#[test]
fn parser_rejects_garbage() {
    assert!(parse_json_text("").is_none());
    assert!(parse_json_text("nul").is_none());
    assert!(parse_json_text("[1,]").is_none());
    assert!(parse_json_text("{\"a\" 1}").is_none());
    assert!(parse_json_text("12x").is_none());
    assert!(parse_json_text("\"open").is_none());
    assert!(parse_json_text("[1] trailing").is_none());
    // Numbers beyond the machine width are refused rather than truncated.
    assert!(parse_json_text("170141183460469231731687303715884105728").is_none());
}

#[test]
fn parser_accepts_redundant_leading_zeros() {
    // Redundant leading zeros are accepted on input; the value is kept.
    assert_eq!(round_trip("007"), "7");
    assert_eq!(round_trip("-007"), "-7");
}

#[test]
fn gui_add_cards_encodes_the_nested_note() {
    let params = GuiAddCardsParams {
        note: GuiAddCardsNote {
            deck_name: String::from("Default"),
            model_name: String::from("Cloze"),
            fields: GuiAddCardsNoteFields {
                text: String::from("The capital of Romania is {{c1::Bucharest}}"),
                extra: String::from("Romania is a country in Europe"),
            },
            tags: vec![String::from("countries")],
            picture: vec![
                GuiAddCardsNotePicture {
                    url: String::from("https://upload.example/a.jpg"),
                    filename: String::from("romania.jpg"),
                    fields: vec![String::from("Extra")],
                },
            ],
        },
    };
    let body = request_body(&params);
    assert_eq!(
        body,
        "{\"action\":\"guiAddCards\",\"version\":6,\"params\":{\"note\":{\
        \"deckName\":\"Default\",\"modelName\":\"Cloze\",\
        \"fields\":{\"Text\":\"The capital of Romania is {{c1::Bucharest}}\",\
        \"Extra\":\"Romania is a country in Europe\"},\"tags\":[\"countries\"],\
        \"picture\":[{\"url\":\"https://upload.example/a.jpg\",\
        \"filename\":\"romania.jpg\",\"fields\":[\"Extra\"]}]}}}"
    );
}

#[test]
fn update_note_fields_omits_absent_media_members() {
    let params = UpdateNoteFieldsRequest {
        note: UpdateNoteFields {
            id: 1514547547030,
            fields: vec![
                (String::from("Front"), String::from("new front content")),
                (String::from("Back"), String::from("new back content")),
            ],
            audio: None,
            video: None,
            picture: None,
        },
    };
    let body = request_body(&params);
    assert_eq!(
        body,
        "{\"action\":\"updateNoteFields\",\"version\":6,\"params\":{\"note\":{\
        \"id\":1514547547030,\"fields\":{\"Front\":\"new front content\",\
        \"Back\":\"new back content\"}}}}"
    );
    assert!(!body.contains("audio"));
}

#[test]
fn update_note_fields_writes_present_media_members() {
    let params = UpdateNoteFieldsRequest {
        note: UpdateNoteFields {
            id: 1514547547030,
            fields: vec![(String::from("Back"), String::from("new back content"))],
            audio: Some(vec![
                NoteMedia {
                    url: Some(String::from("https://example.test/a.mp3")),
                    path: None,
                    data: None,
                    filename: String::from("a.mp3"),
                    skip_hash: Some(String::from("7e2c2f954ef6051373ba916f000168dc")),
                    fields: vec![String::from("Back")],
                },
            ]),
            video: None,
            picture: None,
        },
    };
    let body = request_body(&params);
    assert_eq!(
        body,
        "{\"action\":\"updateNoteFields\",\"version\":6,\"params\":{\"note\":{\
        \"id\":1514547547030,\"fields\":{\"Back\":\"new back content\"},\
        \"audio\":[{\"url\":\"https://example.test/a.mp3\",\"filename\":\"a.mp3\",\
        \"skip_hash\":\"7e2c2f954ef6051373ba916f000168dc\",\"fields\":[\"Back\"]}]}}}"
    );
}
