//! Typed decoding tests: one response body per result shape of the catalog.
use anki_connect::card_actions::{
    AreDueParams, CardsInfoParams, CardsModTimeParams, GetIntervalsAlternativeParams,
    GetIntervalsParams, SuspendParams,
};
use anki_connect::deck_actions::{
    CreateDeckParams, DeckNamesAndIdsRequest, GetDecksParams, GetDeckStatsParams,
};
use anki_connect::graphical_actions::GuiCurrentCardRequest;
use anki_connect::notes_actions::NotesInfoRequest;
use anki_connect::statistic_actions::{CardReviewsRequest, GetReviewsOfCardsRequest};
use anki_connect::request::dispatch_outcome;
use anki_connect::AnkiError;

fn ok_body(body: &str) -> Result<String, AnkiError> {
    Ok(String::from(body))
}

#[test]
fn decodes_a_boolean_result() {
    let r = dispatch_outcome::<SuspendParams>(ok_body("{\"result\": true, \"error\": null}"));
    assert_eq!(r.unwrap(), true);
}

#[test]
fn decodes_a_number_result() {
    let r = dispatch_outcome::<CreateDeckParams>(ok_body(
        "{\"result\": 1519323742721, \"error\": null}",
    ));
    assert_eq!(r.unwrap(), 1519323742721);
}

#[test]
fn decodes_signed_intervals() {
    let r = dispatch_outcome::<GetIntervalsParams>(ok_body(
        "{\"result\": [-14400, 3], \"error\": null}",
    ));
    assert_eq!(r.unwrap(), vec![-14400, 3]);
}

#[test]
fn decodes_nested_interval_lists() {
    let r = dispatch_outcome::<GetIntervalsAlternativeParams>(ok_body(
        "{\"result\": [[-120, -180, -240, -300, 1, 3], [-120, -180, -240, -300, 1, 3]], \"error\": null}",
    ));
    let v = r.unwrap();
    assert_eq!(v.len(), 2);
    assert_eq!(v[0], vec![-120, -180, -240, -300, 1, 3]);
}

#[test]
fn decodes_boolean_lists() {
    let r = dispatch_outcome::<AreDueParams>(ok_body("{\"result\": [false, true], \"error\": null}"));
    assert_eq!(r.unwrap(), vec![false, true]);
}

#[test]
fn decodes_mod_time_records() {
    let r = dispatch_outcome::<CardsModTimeParams>(ok_body(
        "{\"result\": [{\"cardId\": 1498938915662, \"mod\": 1629454092}], \"error\": null}",
    ));
    let v = r.unwrap();
    assert_eq!(v.len(), 1);
    assert_eq!(v[0].card_id, 1498938915662);
    assert_eq!(v[0].mod_, 1629454092);
}

#[test]
fn decodes_card_info_records() {
    let body = "{\"result\": [{\"answer\": \"back content\", \"question\": \"front content\", \
        \"deckName\": \"Default\", \"modelName\": \"Basic\", \"fieldOrder\": 1, \
        \"fields\": {\"Front\": {\"value\": \"front content\", \"order\": 0}, \
        \"Back\": {\"value\": \"back content\", \"order\": 1}}, \
        \"css\": \"p {font-family:Arial;}\", \"cardId\": 1498938915662, \"interval\": 16, \
        \"note\": 1502298033753, \"ord\": 1, \"type\": 0, \"queue\": 0, \"due\": 1, \
        \"reps\": 1, \"lapses\": 0, \"left\": 6, \"mod\": 1629454092}], \"error\": null}";
    let v = dispatch_outcome::<CardsInfoParams>(ok_body(body)).unwrap();
    assert_eq!(v.len(), 1);
    let c = &v[0];
    assert_eq!(c.answer, "back content");
    assert_eq!(c.deck_name, "Default");
    assert_eq!(c.field_order, 1);
    assert_eq!(c.fields.len(), 2);
    assert_eq!(c.fields[0].0, "Front");
    assert_eq!(c.fields[0].1.value, "front content");
    assert_eq!(c.fields[1].1.order, 1);
    assert_eq!(c.type_field, 0);
    assert_eq!(c.mod_, 1629454092);
}

#[test]
fn decodes_name_id_pairs() {
    let r = dispatch_outcome::<DeckNamesAndIdsRequest>(ok_body(
        "{\"result\": {\"Default\": 1}, \"error\": null}",
    ));
    assert_eq!(r.unwrap(), vec![(String::from("Default"), 1)]);
}

#[test]
fn decodes_deck_card_groupings() {
    let r = dispatch_outcome::<GetDecksParams>(ok_body(
        "{\"result\": {\"Default\": [1502298036657], \"Japanese::JLPT N3\": [1502298033753, 1502298036671]}, \"error\": null}",
    ));
    let v = r.unwrap();
    assert_eq!(v.len(), 2);
    assert_eq!(v[0], (String::from("Default"), vec![1502298036657]));
    assert_eq!(v[1].0, "Japanese::JLPT N3");
    assert_eq!(v[1].1, vec![1502298033753, 1502298036671]);
}

#[test]
fn decodes_deck_statistics() {
    let body = "{\"result\": {\"1651445861967\": {\"deck_id\": 1651445861967, \
        \"name\": \"Japanese::Romaji\", \"new_count\": 2, \"learn_count\": 3, \
        \"review_count\": 5, \"total_in_deck\": 60}}, \"error\": null}";
    let v = dispatch_outcome::<GetDeckStatsParams>(ok_body(body)).unwrap();
    assert_eq!(v.len(), 1);
    assert_eq!(v[0].0, "1651445861967");
    assert_eq!(v[0].1.name, "Japanese::Romaji");
    assert_eq!(v[0].1.total_in_deck, 60);
}

#[test]
fn decodes_the_current_card() {
    let body = "{\"result\": {\"answer\": \"back\", \"question\": \"front\", \
        \"deckName\": \"Default\", \"modelName\": \"Basic\", \"fieldOrder\": 0, \
        \"fields\": {\"Front\": {\"value\": \"front\", \"order\": 0}, \
        \"Back\": {\"value\": \"back\", \"order\": 1}}, \"template\": \"Forward\", \
        \"cardId\": 1498938915662, \"buttons\": [1, 2, 3], \
        \"nextReviews\": [\"<1m\", \"<10m\", \"4d\"]}, \"error\": null}";
    let c = dispatch_outcome::<GuiCurrentCardRequest>(ok_body(body)).unwrap();
    assert_eq!(c.question, "front");
    assert_eq!(c.fields.back.order, 1);
    assert_eq!(c.buttons, vec![1, 2, 3]);
    assert_eq!(c.next_reviews, vec!["<1m", "<10m", "4d"]);
}

#[test]
fn an_empty_current_card_response_is_the_default_card() {
    let c = dispatch_outcome::<GuiCurrentCardRequest>(ok_body(
        "{\"result\": null, \"error\": null}",
    ))
        .unwrap();
    assert_eq!(c.answer, "");
    assert_eq!(c.card_id, 0);
    assert_eq!(c.buttons, Vec::<isize>::new());
}

#[test]
fn decodes_note_info_records() {
    let body = "{\"result\": [{\"noteId\": 1502298033753, \"modelName\": \"Basic\", \
        \"tags\": [\"tag\", \"another_tag\"], \
        \"fields\": {\"Front\": {\"value\": \"front content\", \"order\": 0}}}], \"error\": null}";
    let v = dispatch_outcome::<NotesInfoRequest>(ok_body(body)).unwrap();
    assert_eq!(v.len(), 1);
    assert_eq!(v[0].note_id, 1502298033753);
    assert_eq!(v[0].tags, vec!["tag", "another_tag"]);
    assert_eq!(v[0].fields[0].0, "Front");
    assert_eq!(v[0].fields[0].1.value, "front content");
}

#[test]
fn decodes_review_rows_positionally() {
    let body = "{\"result\": [[1594194095746, 1485369733217, -1, 3, 4, -60, 2500, 6157, 0], \
        [1594201393292, 1485369902086, -1, 1, -60, -60, 0, 4846, 0]], \"error\": null}";
    let v = dispatch_outcome::<CardReviewsRequest>(ok_body(body)).unwrap();
    assert_eq!(v.len(), 2);
    assert_eq!(v[0].review_time, 1594194095746);
    assert_eq!(v[0].usn, -1);
    assert_eq!(v[0].new_interval, 4);
    assert_eq!(v[0].previous_interval, -60);
    assert_eq!(v[1].button_pressed, 1);
}

#[test]
fn a_short_review_row_is_the_wrong_shape() {
    let body = "{\"result\": [[1594194095746, 1485369733217]], \"error\": null}";
    let r = dispatch_outcome::<CardReviewsRequest>(ok_body(body));
    assert!(r.is_err());
}

#[test]
fn decodes_reviews_keyed_by_card() {
    let body = "{\"result\": {\"1485369733217\": [{\"id\": 1594194095746, \"usn\": -1, \
        \"ease\": 1, \"ivl\": -60, \"lastIvl\": -60, \"factor\": 0, \"time\": 3740, \
        \"type\": 0}]}, \"error\": null}";
    let v = dispatch_outcome::<GetReviewsOfCardsRequest>(ok_body(body)).unwrap();
    assert_eq!(v.len(), 1);
    assert_eq!(v[0].0, "1485369733217");
    assert_eq!(v[0].1[0].ivl, -60);
    assert_eq!(v[0].1[0].type_field, 0);
}
