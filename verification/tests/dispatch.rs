//! Outcome-resolution tests: the three-way envelope resolution, transport
//! failures, and the error taxonomy.
use anki_connect::card_actions::{ForgetCardsParams, GetEaseFactorsParams};
use anki_connect::deck_actions::{deck_names, DeckNamesRequest};
use anki_connect::request::{dispatch_outcome, interpret_response};
use anki_connect::{AnkiError, DecodeError};

fn ok_body(body: &str) -> Result<String, AnkiError> {
    Ok(String::from(body))
}

#[test]
fn list_result_is_returned_as_typed_list() {
    let r = dispatch_outcome::<GetEaseFactorsParams>(ok_body(
        "{\"result\": [1,2,3], \"error\": null}",
    ));
    assert_eq!(r.unwrap(), vec![1, 2, 3]);
}

#[test]
fn error_string_is_surfaced_verbatim() {
    let r = dispatch_outcome::<GetEaseFactorsParams>(ok_body(
        "{\"result\": null, \"error\": \"deck was not found\"}",
    ));
    match r {
        Err(AnkiError::Anki(m)) => assert_eq!(m, "deck was not found"),
        _ => panic!("expected the application error"),
    }
}

#[test]
fn error_takes_priority_over_a_present_result() {
    let r = dispatch_outcome::<GetEaseFactorsParams>(ok_body(
        "{\"result\": [1,2,3], \"error\": \"both present\"}",
    ));
    match r {
        Err(AnkiError::Anki(m)) => assert_eq!(m, "both present"),
        _ => panic!("the error must win over the result"),
    }
}

#[test]
fn null_result_yields_the_unit_default() {
    let r = dispatch_outcome::<ForgetCardsParams>(ok_body("{\"result\": null, \"error\": null}"));
    assert_eq!(r.unwrap(), ());
}

#[test]
fn null_result_yields_the_empty_list_default() {
    let r = dispatch_outcome::<GetEaseFactorsParams>(ok_body(
        "{\"result\": null, \"error\": null}",
    ));
    assert_eq!(r.unwrap(), Vec::<usize>::new());
}

#[test]
fn missing_keys_count_as_absent() {
    let r = dispatch_outcome::<GetEaseFactorsParams>(ok_body("{}"));
    assert_eq!(r.unwrap(), Vec::<usize>::new());
}

#[test]
fn transport_failure_passes_through_untouched() {
    let io = std::io::Error::new(std::io::ErrorKind::ConnectionRefused, "refused");
    let r = dispatch_outcome::<GetEaseFactorsParams>(Err(AnkiError::Serde(io)));
    assert!(matches!(r, Err(AnkiError::Serde(_))));
}

#[test]
fn connection_failure_is_a_transport_error() {
    // Nothing listens on the fixed local endpoint here, so the real
    // dispatch path must surface the transport failure.
    let r = deck_names();
    assert!(matches!(r, Err(AnkiError::Ureq(_))));
}

#[test]
fn a_body_that_is_not_json_is_a_decode_error() {
    let r = dispatch_outcome::<GetEaseFactorsParams>(ok_body("this is not json"));
    assert!(matches!(r, Err(AnkiError::Decode(DecodeError::NotJson))));
}

#[test]
fn a_non_object_body_is_the_wrong_shape() {
    let r = dispatch_outcome::<GetEaseFactorsParams>(ok_body("[1,2,3]"));
    assert!(matches!(r, Err(AnkiError::Decode(DecodeError::WrongShape))));
}

#[test]
fn a_non_string_error_value_is_the_wrong_shape() {
    let r = dispatch_outcome::<GetEaseFactorsParams>(ok_body(
        "{\"result\": null, \"error\": 5}",
    ));
    assert!(matches!(r, Err(AnkiError::Decode(DecodeError::WrongShape))));
}

#[test]
fn a_result_of_the_wrong_shape_is_a_decode_error() {
    let r = dispatch_outcome::<GetEaseFactorsParams>(ok_body(
        "{\"result\": [1,\"two\",3], \"error\": null}",
    ));
    assert!(matches!(r, Err(AnkiError::Decode(DecodeError::WrongShape))));
}

#[test]
fn interpreting_a_body_directly_matches_the_outcome_path() {
    let r = interpret_response::<DeckNamesRequest>("{\"result\": [\"Default\"], \"error\": null}");
    assert_eq!(r.unwrap(), vec![String::from("Default")]);
}

#[test]
fn repeated_keys_resolve_to_the_first_occurrence() {
    let r = dispatch_outcome::<GetEaseFactorsParams>(ok_body(
        "{\"result\": [7], \"result\": null, \"error\": null}",
    ));
    assert_eq!(r.unwrap(), vec![7]);
}
