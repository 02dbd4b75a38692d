//! The retry protocol around a model stage: each reply is validated; a
//! refused reply is sent back with feedback until the retries run out.
//!
//! Calling the model happens outside the library; this is the state the
//! loop keeps between calls and the step it takes on each reply.
use vstd::prelude::*;
use crate::text::owned;
use crate::validation::ValidationError;

verus! {

broadcast use vstd::string::group_string_axioms;

/// One message of a chat transcript.
#[derive(Debug)]
pub struct ChatMessage {
    pub role: String,
    pub content: String,
}

/// The role and text of a message.
pub open spec fn message_view(m: ChatMessage) -> (Seq<char>, Seq<char>) {
    (m.role@, m.content@)
}

/// The texts of a transcript.
pub open spec fn transcript(ms: Seq<ChatMessage>) -> Seq<(Seq<char>, Seq<char>)> {
    ms.map_values(|m: ChatMessage| message_view(m))
}

/// The state of a validated stage between model calls.
#[derive(Debug)]
pub struct RetryLoop {
    /// The call about to be made, counting from 0.
    pub attempt: usize,
    pub max_retries: usize,
    /// The transcript sent with the next call.
    pub messages: Vec<ChatMessage>,
    /// The message of the last refusal.
    pub last_error: Option<String>,
}

/// What to do after a reply.
#[derive(Debug)]
pub enum RetryAction {
    /// The reply passed; the transcript now ends with it.
    Accept,
    /// The reply was refused and fed back; call the model again.
    AskAgain,
    /// The reply was refused and no retry is left; the last refusal's
    /// message, if any.
    GiveUp(Option<String>),
}

/// A loop whose next call is within its budget.
pub open spec fn loop_wf(l: RetryLoop) -> bool {
    l.attempt <= l.max_retries
}

impl RetryLoop {
    /// A loop that starts from `messages` and allows `max_retries` retries.
    pub fn new(messages: Vec<ChatMessage>, max_retries: usize) -> (l: Self)
        ensures
            l.attempt == 0,
            l.max_retries == max_retries,
            transcript(l.messages@) == transcript(messages@),
            l.last_error is None,
            loop_wf(l),
    {
        RetryLoop { attempt: 0, max_retries, messages, last_error: None }
    }

    /// Takes the step after a reply: accept it, or record the refusal and
    /// either feed it back with `feedback` for another call or give up.
    pub fn on_reply(&mut self, reply: &str, verdict: &Result<(), ValidationError>, feedback: &str) -> (a: RetryAction)
        requires
            loop_wf(*old(self)),
        ensures
            final(self).max_retries == old(self).max_retries,
            match *verdict {
                Ok(()) => a is Accept && transcript(final(self).messages@) == transcript(old(self).messages@).push(
                    ("assistant"@, reply@),
                ) && final(self).attempt == old(self).attempt,
                Err(e) => if old(self).attempt < old(self).max_retries {
                    a is AskAgain && final(self).attempt == old(self).attempt + 1 && transcript(final(self).messages@)
                        == transcript(old(self).messages@).push(("assistant"@, reply@)).push(("user"@, feedback@))
                        && (final(self).last_error matches Some(m) && m@ == e.message@)
                } else {
                    (a matches RetryAction::GiveUp(Some(m)) && m@ == e.message@) && final(self).attempt == old(
                        self,
                    ).attempt
                },
            },
            loop_wf(*final(self)),
    {
        match verdict {
            Ok(()) => {
                let ghost before = transcript(self.messages@);
                self.messages.push(ChatMessage { role: String::from_str("assistant"), content: owned(reply) });
                proof {
                    assert(transcript(self.messages@) =~= before.push(("assistant"@, reply@)));
                }
                RetryAction::Accept
            },
            Err(e) => {
                self.last_error = Some(owned(e.message.as_str()));
                if self.attempt < self.max_retries {
                    let ghost before = transcript(self.messages@);
                    self.messages.push(ChatMessage { role: String::from_str("assistant"), content: owned(reply) });
                    self.messages.push(ChatMessage { role: String::from_str("user"), content: owned(feedback) });
                    proof {
                        assert(transcript(self.messages@) =~= before.push(("assistant"@, reply@)).push(
                            ("user"@, feedback@),
                        ));
                    }
                    self.attempt = self.attempt + 1;
                    RetryAction::AskAgain
                } else {
                    RetryAction::GiveUp(Some(owned(e.message.as_str())))
                }
            },
        }
    }
}

} // verus!
