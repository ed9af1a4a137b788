//! The conversation data model: an ordered dialogue of turns, each tagged by
//! its speaker, grown by appending and never reordered.
use vstd::prelude::*;
use vstd::string::StringExecFns;

verus! {

/// One utterance: who spoke and what was said. Immutable once created.
pub struct Message {
    pub text: String,
    pub from_user: bool,
}

/// The mathematical value of a `Message`.
pub ghost struct MessageV {
    pub text: Seq<char>,
    pub from_user: bool,
}

impl View for Message {
    type V = MessageV;

    open spec fn view(&self) -> MessageV {
        MessageV { text: self.text@, from_user: self.from_user }
    }
}

/// An ordered dialogue; insertion order is chronological order. Speakers need
/// not strictly alternate: the caller may append a second user turn before a
/// reply arrives.
pub struct Conversation {
    pub messages: Vec<Message>,
}

impl View for Conversation {
    type V = Seq<MessageV>;

    open spec fn view(&self) -> Seq<MessageV> {
        self.messages@.map_values(|m: Message| m@)
    }
}

impl Conversation {
    /// A conversation with no turns yet.
    pub fn new() -> (c: Conversation)
        ensures
            c@ == Seq::<MessageV>::empty(),
    {
        let c = Conversation { messages: Vec::new() };
        proof {
            assert(c@ =~= Seq::<MessageV>::empty());
        }
        c
    }

    /// How many turns the dialogue holds.
    pub fn len(&self) -> (n: usize)
        ensures
            n == self@.len(),
    {
        self.messages.len()
    }

    /// Appends one turn at the end of the dialogue.
    pub fn push_message(&mut self, m: Message)
        ensures
            final(self)@ == old(self)@.push(m@),
    {
        let ghost mv = m@;
        self.messages.push(m);
        proof {
            assert(self@ =~= old(self)@.push(mv));
        }
    }

    /// Appends the turn the user just typed.
    pub fn push_user_message(&mut self, text: String)
        ensures
            final(self)@ == old(self)@.push(MessageV { text: text@, from_user: true }),
    {
        self.push_message(Message { text, from_user: true });
    }

    /// Appends the interim assistant placeholder shown while a reply is
    /// still being generated.
    pub fn push_placeholder(&mut self)
        ensures
            final(self)@ == old(self)@.push(MessageV { text: "..."@, from_user: false }),
    {
        let text = String::from_str("...");
        self.push_message(Message { text, from_user: false });
    }

    /// Replaces the text of the newest turn (the placeholder) with the real
    /// reply, keeping its speaker tag and every earlier turn untouched.
    pub fn set_last_text(&mut self, text: String)
        requires
            old(self)@.len() > 0,
        ensures
            final(self)@ == old(self)@.update(
                old(self)@.len() - 1,
                MessageV { text: text@, from_user: old(self)@.last().from_user },
            ),
    {
        let last = self.messages.pop().unwrap();
        let from_user = last.from_user;
        self.messages.push(Message { text, from_user });
        proof {
            assert(self@ =~= old(self)@.update(
                old(self)@.len() - 1,
                MessageV { text: text@, from_user: old(self)@.last().from_user },
            ));
        }
    }
}

} // verus!
