//! The prompt compiler: renders the persona preamble, a fixed seed dialogue,
//! every turn of the conversation in order, and a trailing assistant cue into
//! the single text prompt the model consumes. The marker strings framed here
//! are the same values the response reducer later watches for, so the two
//! sides agree on where a turn begins and ends.
use crate::conversation::{Conversation, MessageV};
use crate::text::{concat_text, lemma_concat_text_push};
use vstd::prelude::*;
use vstd::string::StringExecFns;

verus! {

/// The marker prefixed to assistant lines, and the marker of the trailing cue.
pub open spec fn assistant_marker() -> Seq<char> {
    "### Assistant"@
}

/// The marker prefixed to user lines. Its appearance in generated text is
/// what ends the assistant's turn, so it doubles as the stop marker.
pub open spec fn user_marker() -> Seq<char> {
    "### Human"@
}

/// The persona description that opens every prompt.
pub open spec fn persona_text() -> Seq<char> {
    "A chat between a human and an assistant"@
}

/// The marker of the given speaker.
pub open spec fn marker_of(from_user: bool) -> Seq<char> {
    if from_user {
        user_marker()
    } else {
        assistant_marker()
    }
}

/// One rendered dialogue line: `"{marker}: {text}\n"`.
pub open spec fn render_line(from_user: bool, text: Seq<char>) -> Seq<char> {
    marker_of(from_user) + ": "@ + text + "\n"@
}

/// The canned seed exchange prepended to every prompt to bias the model's
/// style, rendered exactly like ordinary turns.
pub open spec fn seed_turns() -> Seq<MessageV> {
    seq![
        MessageV { text: "Hello - How may I help you?"@, from_user: false },
        MessageV { text: "How can you help me?"@, from_user: true },
        MessageV { text: "I am here to provide answers to your questions"@, from_user: false },
    ]
}

/// Every line of the rendered history: the seed dialogue followed by the
/// conversation's turns, one line per turn, in dialogue order.
pub open spec fn history_lines(c: Seq<MessageV>) -> Seq<Seq<char>> {
    (seed_turns() + c).map_values(|m: MessageV| render_line(m.from_user, m.text))
}

/// The full compiled prompt for conversation `c`: persona, rendered history,
/// trailing cue.
pub open spec fn compile_spec(c: Seq<MessageV>) -> Seq<char> {
    persona_text() + "\n"@ + concat_text(history_lines(c)) + "\n"@ + assistant_marker() + ":"@
}

/// The assistant marker as text.
pub fn assistant_marker_text() -> (s: &'static str)
    ensures
        s@ == assistant_marker(),
{
    "### Assistant"
}

/// The user marker as text; the reducer's stop marker.
pub fn user_marker_text() -> (s: &'static str)
    ensures
        s@ == user_marker(),
{
    "### Human"
}

/// Appends one rendered dialogue line to the prompt being built.
fn append_line(p: &mut String, from_user: bool, text: &str)
    ensures
        final(p)@ == old(p)@ + render_line(from_user, text@),
{
    if from_user {
        p.append("### Human");
    } else {
        p.append("### Assistant");
    }
    p.append(": ");
    p.append(text);
    p.append("\n");
    proof {
        assert(p@ =~= old(p)@ + render_line(from_user, text@));
    }
}

/// Renders the whole conversation, never truncating or windowing: the entire
/// history is re-rendered on every call, in the given order, and the result
/// always ends with the cue that prompts the model to continue as the
/// assistant. Pure: the conversation itself is left untouched.
pub fn compile(c: &Conversation) -> (p: String)
    ensures
        p@ == compile_spec(c@),
{
    let mut p = String::new();
    p.append("A chat between a human and an assistant");
    p.append("\n");
    append_line(&mut p, false, "Hello - How may I help you?");
    append_line(&mut p, true, "How can you help me?");
    append_line(&mut p, false, "I am here to provide answers to your questions");
    proof {
        let hl0 = history_lines(c@.take(0));
        assert(hl0 =~= seq![
            render_line(false, "Hello - How may I help you?"@),
            render_line(true, "How can you help me?"@),
            render_line(false, "I am here to provide answers to your questions"@),
        ]);
        lemma_concat_text_push(hl0.take(2), hl0[2]);
        lemma_concat_text_push(hl0.take(1), hl0[1]);
        lemma_concat_text_push(hl0.take(0), hl0[0]);
        assert(hl0.take(2).push(hl0[2]) =~= hl0);
        assert(hl0.take(1).push(hl0[1]) =~= hl0.take(2));
        assert(hl0.take(0).push(hl0[0]) =~= hl0.take(1));
        assert(concat_text(hl0.take(0)) =~= Seq::<char>::empty());
        assert(p@ =~= persona_text() + "\n"@ + concat_text(hl0));
    }
    let n = c.messages.len();
    let mut i: usize = 0;
    while i < n
        invariant
            n == c@.len(),
            0 <= i <= n,
            p@ == persona_text() + "\n"@ + concat_text(history_lines(c@.take(i as int))),
        decreases n - i,
    {
        let m = &c.messages[i];
        append_line(&mut p, m.from_user, m.text.as_str());
        proof {
            let line = render_line(c@[i as int].from_user, c@[i as int].text);
            assert(history_lines(c@.take(i + 1)) =~= history_lines(c@.take(i as int)).push(line));
            lemma_concat_text_push(history_lines(c@.take(i as int)), line);
            assert(p@ =~= persona_text() + "\n"@ + concat_text(history_lines(c@.take(i + 1))));
        }
        i += 1;
    }
    p.append("\n");
    p.append("### Assistant");
    p.append(":");
    proof {
        assert(c@.take(n as int) =~= c@);
        assert(p@ =~= compile_spec(c@));
    }
    p
}

/// Every compiled prompt ends with the exact trailing cue
/// `"\n{assistant marker}:"`, however long the conversation is.
pub proof fn lemma_compile_trailing_cue(c: Seq<MessageV>)
    ensures
        ({
            let p = compile_spec(c);
            let cue = "\n"@ + assistant_marker() + ":"@;
            p.len() >= cue.len() && p.subrange(p.len() - cue.len(), p.len() as int) == cue
        }),
{
    let p = compile_spec(c);
    let cue = "\n"@ + assistant_marker() + ":"@;
    let head = persona_text() + "\n"@ + concat_text(history_lines(c));
    assert(p =~= head + cue);
    assert((head + cue).subrange(head.len() as int, (head.len() + cue.len()) as int) =~= cue);
}

/// The rendered history holds one line per seed turn and one line per
/// conversation turn: `len(seed dialogue) + len(conversation)` lines in all.
pub proof fn lemma_history_line_count(c: Seq<MessageV>)
    ensures
        history_lines(c).len() == seed_turns().len() + c.len(),
        seed_turns().len() == 3,
{
}

/// Growing the conversation by one turn only appends to the rendered
/// history: every earlier turn is re-rendered identically and in the same
/// order, and the text before the cue in the old prompt is a prefix of the
/// text before the cue in the new one.
pub proof fn lemma_compile_append_turn(c: Seq<MessageV>, m: MessageV)
    ensures
        history_lines(c.push(m)) == history_lines(c).push(render_line(m.from_user, m.text)),
        compile_spec(c.push(m)) == persona_text() + "\n"@ + concat_text(history_lines(c))
            + render_line(m.from_user, m.text) + "\n"@ + assistant_marker() + ":"@,
        (persona_text() + "\n"@ + concat_text(history_lines(c))).is_prefix_of(
            compile_spec(c.push(m)),
        ),
        (persona_text() + "\n"@ + concat_text(history_lines(c))).is_prefix_of(compile_spec(c)),
{
    let line = render_line(m.from_user, m.text);
    let head = persona_text() + "\n"@ + concat_text(history_lines(c));
    assert(history_lines(c.push(m)) =~= history_lines(c).push(line));
    lemma_concat_text_push(history_lines(c), line);
    assert(compile_spec(c.push(m)) =~= head + line + "\n"@ + assistant_marker() + ":"@);
    assert(compile_spec(c.push(m)).subrange(0, head.len() as int) =~= head);
    assert(compile_spec(c).subrange(0, head.len() as int) =~= head);
}

} // verus!
