use mailclient::envelope::{extract, Outcome};

#[test]
fn a_result_is_handed_on() {
    match extract("{\"jsonrpc\":\"2.0\",\"id\":1,\"result\":{\"x\":[1,2]}}") {
        Outcome::Done(Some(value)) => {
            assert_eq!(value.to_string(), "{\"x\":[1,2]}");
        }
        _ => panic!("a result was expected"),
    }
}

#[test]
fn an_answer_without_a_result_is_done_with_nothing() {
    assert!(matches!(extract("{\"id\":1}"), Outcome::Done(None)));
}

#[test]
fn a_refusal_says_its_words() {
    match extract("{\"error\":{\"code\":-1,\"message\":\"inconnu\"}}") {
        Outcome::Refused(words) => assert_eq!(words, "inconnu"),
        _ => panic!("a refusal was expected"),
    }
    match extract("{\"error\":{\"code\":-1}}") {
        Outcome::Refused(words) => assert_eq!(words, "erreur sans message"),
        _ => panic!("a refusal was expected"),
    }
    match extract("{\"error\":{\"message\":12}}") {
        Outcome::Refused(words) => assert_eq!(words, "erreur sans message"),
        _ => panic!("a refusal was expected"),
    }
}

#[test]
fn an_unreadable_answer_is_a_failure_of_the_transport() {
    match extract("{") {
        Outcome::Down(words) => {
            assert!(words.starts_with("réponse illisible : "), "{words}");
            assert!(words.contains("EOF"), "{words}");
        }
        _ => panic!("a failure was expected"),
    }
}
