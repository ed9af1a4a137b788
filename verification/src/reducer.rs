//! The response reducer: a two-state machine (`Accumulating`, `Done`) that
//! folds the model's token stream into the assistant's reply. It appends each
//! token's text to an output buffer and scans for the next speaker's marker;
//! a marker split across token boundaries is still found, because every
//! window position is examined once it is wholly inside the buffer. When the
//! marker appears, the output is cut just before it, pared back to whole
//! lines, trimmed, and the rest of the stream is abandoned. The marker is
//! matched as the literal configured string, never fuzzily.
use crate::text::{
    complete_len, complete_lines, concat_text, has_occurrence, is_first_occurrence,
    first_occurrence, lemma_complete_lines_len_bounds, lemma_concat_text_append,
    lemma_first_occurrence_exists, lemma_first_occurrence_unique, lemma_occurs_at_append,
    occurs_at, occurs_here, str_chars, trim_spec, trimmed_string,
};
use vstd::prelude::*;

verus! {

/// Why token consumption stopped.
#[derive(Clone, Copy, Debug, PartialEq, Eq, Structural)]
pub enum StopKind {
    /// The stop marker (the next speaker's marker) appeared in the output:
    /// the model had started the next human turn, so the reply ends here.
    MarkerFound,
    /// The stream ended first: a natural end of sequence, or the session's
    /// token cap. Not an error.
    NaturalEnd,
}

/// The finished product of one inference pass: the accumulated reply text
/// and how the pass ended. An empty reply is a successful outcome, not an
/// error; a failed pass yields no outcome at all.
pub struct InferenceOutcome {
    pub text: String,
    pub stop: StopKind,
}

/// The reply that a token stream concatenating to `s` reduces to under stop
/// marker `m`: cut just before the first occurrence of `m` and pared back to
/// whole lines when `m` occurs, the whole of `s` otherwise; either way
/// trimmed of leading and trailing blanks.
pub open spec fn reply_text(s: Seq<char>, m: Seq<char>) -> Seq<char> {
    if has_occurrence(s, m) {
        trim_spec(complete_lines(s.take(first_occurrence(s, m))))
    } else {
        trim_spec(s)
    }
}

/// Once the marker has occurred in the consumed prefix, the rest of the
/// stream no longer matters: the reply of the extended stream equals the
/// reply of the prefix, so abandoning the tail is sound.
pub proof fn lemma_reply_text_stable(s: Seq<char>, rest: Seq<char>, m: Seq<char>)
    requires
        has_occurrence(s, m),
    ensures
        has_occurrence(s + rest, m),
        reply_text(s + rest, m) == reply_text(s, m),
{
    lemma_first_occurrence_exists(s, m);
    let i = first_occurrence(s, m);
    lemma_occurs_at_append(s, rest, m, i);
    assert forall|q: int| 0 <= q < i implies !occurs_at(s + rest, m, q) by {
        lemma_occurs_at_append(s, rest, m, q);
    }
    assert(is_first_occurrence(s + rest, m, i));
    lemma_first_occurrence_unique(s + rest, m, i);
    assert((s + rest).take(i) =~= s.take(i));
}

/// A stream in which the stop marker never occurs ends naturally: the reply
/// is the whole concatenation, trimmed and uncut.
pub proof fn lemma_natural_stop(ts: Seq<Seq<char>>, m: Seq<char>)
    requires
        !has_occurrence(concat_text(ts), m),
    ensures
        reply_text(concat_text(ts), m) == trim_spec(concat_text(ts)),
{
}

/// The reducer state machine. `done == false` is the `Accumulating` state,
/// `done == true` is `Done`.
pub struct ResponseReducer {
    marker: Vec<char>,
    buf: Vec<char>,
    checked: usize,
    done: bool,
    fed: Ghost<Seq<char>>,
    hit: Ghost<int>,
}

impl ResponseReducer {
    /// The stop marker being watched for.
    pub closed spec fn marker_seq(self) -> Seq<char> {
        self.marker@
    }

    /// The concatenation of all token text fed so far.
    pub closed spec fn fed_seq(self) -> Seq<char> {
        self.fed@
    }

    /// Whether the machine has left `Accumulating` for `Done`.
    pub closed spec fn is_done(self) -> bool {
        self.done
    }

    /// The machine's invariant. While accumulating, the buffer holds exactly
    /// the fed text, no occurrence of the marker lies wholly inside it, and
    /// `checked` counts the window positions already ruled out; once done,
    /// the buffer is the fed text cut just before the marker's first
    /// occurrence.
    pub closed spec fn wf(self) -> bool {
        &&& self.marker@.len() >= 1
        &&& if self.done {
            &&& is_first_occurrence(self.fed@, self.marker@, self.hit@)
            &&& self.buf@ == self.fed@.take(self.hit@)
        } else {
            &&& self.buf@ == self.fed@
            &&& self.checked == if self.buf@.len() + 1 >= self.marker@.len() {
                self.buf@.len() + 1 - self.marker@.len()
            } else {
                0int
            }
            &&& !has_occurrence(self.fed@, self.marker@)
        }
    }

    /// A fresh reducer in `Accumulating`, with empty buffers, watching for
    /// `stop_marker`.
    pub fn new(stop_marker: &str) -> (r: ResponseReducer)
        requires
            stop_marker@.len() >= 1,
        ensures
            r.wf(),
            !r.is_done(),
            r.marker_seq() == stop_marker@,
            r.fed_seq() == Seq::<char>::empty(),
    {
        let marker = str_chars(stop_marker);
        ResponseReducer {
            marker,
            buf: Vec::new(),
            checked: 0,
            done: false,
            fed: Ghost(Seq::empty()),
            hit: Ghost(0),
        }
    }

    /// Whether the machine has stopped at the marker.
    pub fn done(&self) -> (d: bool)
        ensures
            d == self.is_done(),
    {
        self.done
    }

    /// Feeds one token: appends its text to the output buffer, then scans
    /// every window position newly contained in the buffer for the stop
    /// marker. Returns whether the machine is now `Done`; once it is, the
    /// output buffer has been truncated to just before the marker and no
    /// further token may be fed.
    pub fn feed(&mut self, token: &str) -> (done: bool)
        requires
            old(self).wf(),
            !old(self).is_done(),
        ensures
            final(self).wf(),
            final(self).marker_seq() == old(self).marker_seq(),
            final(self).fed_seq() == old(self).fed_seq() + token@,
            done == final(self).is_done(),
            final(self).is_done() <==> has_occurrence(final(self).fed_seq(), final(self).marker_seq()),
    {
        let ghost oldfed = self.fed@;
        let ghost tok = token@;
        let ghost m0 = self.marker@;
        let ghost c0: int = self.checked as int;
        let n = token.unicode_len();
        let mut k: usize = 0;
        while k < n
            invariant
                n == tok.len(),
                0 <= k <= n,
                tok == token@,
                self.buf@ == oldfed + tok.take(k as int),
                self.marker@ == m0,
                self.checked == c0,
                self.done == false,
                self.fed@ == oldfed,
                self.hit == old(self).hit,
            decreases n - k,
        {
            let c = token.get_char(k);
            self.buf.push(c);
            proof {
                assert(tok.take(k + 1) =~= tok.take(k as int).push(tok[k as int]));
                assert(self.buf@ =~= oldfed + tok.take(k + 1));
            }
            k += 1;
        }
        proof {
            assert(tok.take(n as int) =~= tok);
        }
        self.fed = Ghost(oldfed + tok);
        let ghost fed1 = oldfed + tok;
        proof {
            assert forall|q: int| 0 <= q < c0 implies !occurs_at(fed1, m0, q) by {
                assert(!occurs_at(oldfed, m0, q));
                lemma_occurs_at_append(oldfed, tok, m0, q);
            }
        }
        let m = self.marker.len();
        let len = self.buf.len();
        if len >= m {
            let stop = len - m + 1;
            let mut j = self.checked;
            while j < stop
                invariant
                    m0 == old(self).marker@,
                    oldfed == old(self).fed@,
                    tok == token@,
                    fed1 == oldfed + tok,
                    m0.len() >= 1,
                    self.marker@ == m0,
                    self.done == false,
                    self.fed@ == fed1,
                    self.buf@ == fed1,
                    m == m0.len(),
                    len == self.buf@.len(),
                    len >= m,
                    stop == len - m + 1,
                    0 <= j <= stop,
                    forall|q: int| 0 <= q < j ==> !occurs_at(fed1, m0, q),
                decreases stop - j,
            {
                if occurs_here(&self.buf, &self.marker, j) {
                    self.buf.truncate(j);
                    self.done = true;
                    self.hit = Ghost(j as int);
                    self.checked = 0;
                    proof {
                        assert(is_first_occurrence(fed1, m0, j as int));
                        assert(self.buf@ =~= fed1.take(j as int));
                    }
                    return true;
                }
                j += 1;
            }
            self.checked = stop;
        }
        proof {
            assert forall|q: int| !occurs_at(fed1, m0, q) by {
                if 0 <= q && q + m0.len() <= fed1.len() {
                    assert(q < self.checked);
                }
            }
            assert(!has_occurrence(fed1, m0));
        }
        false
    }

    /// Ends the reduction and yields the outcome: the reply text before the
    /// marker (pared back to whole lines) when the marker was found, the
    /// whole accumulated text when the stream ended first; trimmed either
    /// way. The outcome carries which of the two happened.
    pub fn finish(&self) -> (o: InferenceOutcome)
        requires
            self.wf(),
        ensures
            o.text@ == reply_text(self.fed_seq(), self.marker_seq()),
            o.stop is MarkerFound <==> self.is_done(),
            self.is_done() <==> has_occurrence(self.fed_seq(), self.marker_seq()),
    {
        if self.done {
            proof {
                lemma_first_occurrence_unique(self.fed@, self.marker@, self.hit@);
                lemma_complete_lines_len_bounds(self.buf@);
            }
            let j = complete_len(&self.buf);
            let text = trimmed_string(&self.buf, j);
            proof {
                assert(self.buf@.take(j as int) == complete_lines(self.fed@.take(self.hit@)));
            }
            InferenceOutcome { text, stop: StopKind::MarkerFound }
        } else {
            let end = self.buf.len();
            let text = trimmed_string(&self.buf, end);
            proof {
                assert(self.buf@.take(end as int) =~= self.buf@);
            }
            InferenceOutcome { text, stop: StopKind::NaturalEnd }
        }
    }
}

/// Folds a complete token stream into an outcome: feeds the tokens in order
/// and stops consuming at the first token that completes an occurrence of
/// the stop marker. The result is exactly the reply the whole concatenation
/// reduces to, whether or not the tail was consumed, and the outcome says
/// whether the marker was found or the stream ended naturally.
pub fn reduce(tokens: &Vec<String>, stop_marker: &str) -> (o: InferenceOutcome)
    requires
        stop_marker@.len() >= 1,
    ensures
        o.text@ == reply_text(concat_text(tokens.deep_view()), stop_marker@),
        o.stop is MarkerFound <==> has_occurrence(concat_text(tokens.deep_view()), stop_marker@),
{
    let ghost ts = tokens.deep_view();
    let mut red = ResponseReducer::new(stop_marker);
    let n = tokens.len();
    let mut i: usize = 0;
    let mut done = false;
    while i < n && !done
        invariant
            n == tokens@.len(),
            ts == tokens.deep_view(),
            ts.len() == n,
            0 <= i <= n,
            red.wf(),
            red.marker_seq() == stop_marker@,
            red.fed_seq() == concat_text(ts.take(i as int)),
            done == red.is_done(),
        decreases n - i,
    {
        let t = &tokens[i];
        done = red.feed(t.as_str());
        proof {
            assert(ts.take(i + 1).drop_last() =~= ts.take(i as int));
            assert(ts.take(i + 1).last() == ts[i as int]);
            assert(ts[i as int] == tokens@[i as int]@);
        }
        i += 1;
    }
    proof {
        if done {
            lemma_concat_text_append(ts.take(i as int), ts.skip(i as int));
            assert(ts.take(i as int) + ts.skip(i as int) =~= ts);
            lemma_reply_text_stable(
                red.fed_seq(),
                concat_text(ts.skip(i as int)),
                stop_marker@,
            );
        } else {
            assert(ts.take(i as int) =~= ts);
        }
    }
    red.finish()
}

} // verus!
