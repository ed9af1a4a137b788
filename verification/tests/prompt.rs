use llama_chat::compiler::{assistant_marker_text, compile, user_marker_text};
use llama_chat::conversation::{Conversation, Message};

const SEED: &str = "### Assistant: Hello - How may I help you?\n\
### Human: How can you help me?\n\
### Assistant: I am here to provide answers to your questions\n";

#[test]
fn markers_are_the_fixed_literals() {
    assert_eq!(assistant_marker_text(), "### Assistant");
    assert_eq!(user_marker_text(), "### Human");
}

#[test]
fn empty_conversation_compiles_to_persona_seed_and_cue() {
    let c = Conversation::new();
    let p = compile(&c);
    let expected = format!("A chat between a human and an assistant\n{SEED}\n### Assistant:");
    assert_eq!(p, expected);
}

#[test]
fn prompt_always_ends_with_the_trailing_cue() {
    let mut c = Conversation::new();
    assert!(compile(&c).ends_with("\n### Assistant:"));
    c.push_user_message(String::from("What is Rust?"));
    assert!(compile(&c).ends_with("\n### Assistant:"));
    c.push_placeholder();
    assert!(compile(&c).ends_with("\n### Assistant:"));
}

#[test]
fn turns_render_in_order_with_their_markers() {
    let mut c = Conversation::new();
    c.push_user_message(String::from("What is Rust?"));
    c.push_message(Message {
        text: String::from("A systems programming language."),
        from_user: false,
    });
    let p = compile(&c);
    let expected = format!(
        "A chat between a human and an assistant\n{SEED}\
### Human: What is Rust?\n\
### Assistant: A systems programming language.\n\
\n### Assistant:"
    );
    assert_eq!(p, expected);
}

#[test]
fn history_line_count_is_seed_plus_turns() {
    let mut c = Conversation::new();
    c.push_user_message(String::from("one"));
    c.push_user_message(String::from("two"));
    let p = compile(&c);
    let head = "A chat between a human and an assistant\n";
    let cue = "\n### Assistant:";
    let history = &p[head.len()..p.len() - cue.len()];
    let lines: Vec<&str> = history.split_inclusive('\n').collect();
    assert_eq!(lines.len(), 3 + 2);
    assert!(lines[3].starts_with("### Human: one"));
    assert!(lines[4].starts_with("### Human: two"));
}

#[test]
fn appending_a_turn_extends_the_prompt_without_touching_earlier_turns() {
    let mut c = Conversation::new();
    c.push_user_message(String::from("first question"));
    let p1 = compile(&c);
    c.push_user_message(String::from("second question"));
    let p2 = compile(&c);
    let cue = "\n### Assistant:";
    let body1 = &p1[..p1.len() - cue.len()];
    assert!(p2.starts_with(body1));
    assert_eq!(
        p2,
        format!("{body1}### Human: second question\n{cue}")
    );
}

#[test]
fn replacing_the_placeholder_keeps_earlier_turns() {
    let mut c = Conversation::new();
    c.push_user_message(String::from("hello?"));
    c.push_placeholder();
    let before = compile(&c);
    assert!(before.contains("### Assistant: ...\n"));
    c.set_last_text(String::from("Hello to you."));
    let after = compile(&c);
    assert!(after.contains("### Human: hello?\n"));
    assert!(after.contains("### Assistant: Hello to you.\n"));
    assert!(!after.contains("### Assistant: ...\n"));
    assert_eq!(c.len(), 2);
}
