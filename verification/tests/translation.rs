use voicepipe::translate::{classify_response, classify_text, termination_phrase_bytes, TranslateOutcome};

#[test]
fn termination_phrase_is_finish() {
    assert_eq!(termination_phrase_bytes(), b"finish".to_vec());
}

#[test]
fn plain_text_is_spoken_unchanged() {
    match classify_response("{\"text\": \"hola\"}") {
        TranslateOutcome::Speak(t) => assert_eq!(t, b"hola".to_vec()),
        _ => panic!("expected text to speak"),
    }
}

#[test]
fn finish_phrase_terminates() {
    match classify_response("{\"text\": \"please finish now\"}") {
        TranslateOutcome::Terminate => {}
        _ => panic!("expected termination"),
    }
}

#[test]
fn phrase_inside_word_also_terminates() {
    // The detection is a raw substring check.
    match classify_text(b"unfinished business".to_vec()) {
        TranslateOutcome::Terminate => {}
        _ => panic!("expected termination"),
    }
}

#[test]
fn near_miss_is_spoken() {
    match classify_text(b"finis coronat opus".to_vec()) {
        TranslateOutcome::Speak(t) => assert_eq!(t, b"finis coronat opus".to_vec()),
        _ => panic!("expected text to speak"),
    }
}

#[test]
fn non_json_is_malformed() {
    match classify_response("not json at all") {
        TranslateOutcome::Malformed => {}
        _ => panic!("expected malformed"),
    }
}

#[test]
fn missing_text_member_is_malformed() {
    match classify_response("{\"other\": \"hola\"}") {
        TranslateOutcome::Malformed => {}
        _ => panic!("expected malformed"),
    }
}

#[test]
fn non_string_text_member_is_malformed() {
    match classify_response("{\"text\": 5}") {
        TranslateOutcome::Malformed => {}
        _ => panic!("expected malformed"),
    }
}

#[test]
fn top_level_array_is_malformed() {
    match classify_response("[\"text\"]") {
        TranslateOutcome::Malformed => {}
        _ => panic!("expected malformed"),
    }
}

#[test]
fn unicode_text_is_spoken_as_utf8() {
    match classify_response("{\"text\": \"se\\u00f1or\"}") {
        TranslateOutcome::Speak(t) => assert_eq!(t, "se\u{00f1}or".as_bytes().to_vec()),
        _ => panic!("expected text to speak"),
    }
}
