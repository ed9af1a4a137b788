use llama_chat::reducer::{reduce, ResponseReducer, StopKind};

fn toks(parts: &[&str]) -> Vec<String> {
    parts.iter().map(|p| String::from(*p)).collect()
}

#[test]
fn truncates_at_the_stop_marker() {
    let tokens = toks(&["Hello the", "re\n### Human: what"]);
    let o = reduce(&tokens, "### Human");
    assert_eq!(o.text, "Hello there");
    assert_eq!(o.stop, StopKind::MarkerFound);
}

#[test]
fn natural_stop_keeps_the_whole_trimmed_text() {
    let tokens = toks(&["Hi ", "there, I can help", " with that.\n"]);
    let o = reduce(&tokens, "### Human");
    assert_eq!(o.text, "Hi there, I can help with that.");
    assert_eq!(o.stop, StopKind::NaturalEnd);
}

#[test]
fn marker_split_across_two_tokens_is_still_found() {
    let tokens = toks(&["Sure thing\n### ", "Human: more?"]);
    let o = reduce(&tokens, "### Human");
    assert_eq!(o.text, "Sure thing");
    assert_eq!(o.stop, StopKind::MarkerFound);
}

#[test]
fn marker_split_one_character_per_token_is_still_found() {
    let tokens = toks(&["Done.\n", "#", "#", "#", " ", "H", "u", "m", "a", "n", ": next"]);
    let o = reduce(&tokens, "### Human");
    assert_eq!(o.text, "Done.");
    assert_eq!(o.stop, StopKind::MarkerFound);
}

#[test]
fn empty_stream_gives_an_empty_natural_outcome() {
    let tokens: Vec<String> = Vec::new();
    let o = reduce(&tokens, "### Human");
    assert_eq!(o.text, "");
    assert_eq!(o.stop, StopKind::NaturalEnd);
}

#[test]
fn marker_at_the_very_start_gives_an_empty_reply() {
    let tokens = toks(&["### Human: hi there"]);
    let o = reduce(&tokens, "### Human");
    assert_eq!(o.text, "");
    assert_eq!(o.stop, StopKind::MarkerFound);
}

#[test]
fn partial_line_before_the_marker_is_discarded() {
    let tokens = toks(&["Okay\nI think ", "### Human: go on"]);
    let o = reduce(&tokens, "### Human");
    assert_eq!(o.text, "Okay");
    assert_eq!(o.stop, StopKind::MarkerFound);
}

#[test]
fn surrounding_blanks_are_trimmed() {
    let tokens = toks(&["  \t", " spaced out ", " \r\n"]);
    let o = reduce(&tokens, "### Human");
    assert_eq!(o.text, "spaced out");
    assert_eq!(o.stop, StopKind::NaturalEnd);
}

#[test]
fn only_the_first_occurrence_cuts_the_reply() {
    let tokens = toks(&["One\n### Human: a\nTwo\n### Human: b"]);
    let o = reduce(&tokens, "### Human");
    assert_eq!(o.text, "One");
    assert_eq!(o.stop, StopKind::MarkerFound);
}

#[test]
fn a_near_miss_is_not_matched_fuzzily() {
    let tokens = toks(&["Costs ### 100, really.\nMore detail.\n"]);
    let o = reduce(&tokens, "### Human");
    assert_eq!(o.text, "Costs ### 100, really.\nMore detail.");
    assert_eq!(o.stop, StopKind::NaturalEnd);
}

#[test]
fn streaming_reducer_reports_done_exactly_at_the_marker() {
    let mut red = ResponseReducer::new("### Human");
    assert!(!red.done());
    assert!(!red.feed("All good so far\n"));
    assert!(!red.feed("### Hum"));
    assert!(red.feed("an: and then"));
    assert!(red.done());
    let o = red.finish();
    assert_eq!(o.text, "All good so far");
    assert_eq!(o.stop, StopKind::MarkerFound);
}

#[test]
fn streaming_reducer_natural_finish() {
    let mut red = ResponseReducer::new("### Human");
    assert!(!red.feed("A reply that "));
    assert!(!red.feed("just ends."));
    let o = red.finish();
    assert_eq!(o.text, "A reply that just ends.");
    assert_eq!(o.stop, StopKind::NaturalEnd);
}
