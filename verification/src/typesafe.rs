//! The TypeSafe "System One" service: how a client is configured and how its
//! typed questions are put. The HTTP exchange itself happens outside the
//! library.
use vstd::prelude::*;
use crate::labels::QuestionType;
use crate::okx::{base_url, strip_trailing_slashes};
use crate::text::{concat2, ends_with, is_blank, owned, str_ends_with, trim, trim_str};

verus! {

broadcast use vstd::string::group_string_axioms;

/// The model used when none is configured.
pub const DEFAULT_TYPESAFE_MODEL: &'static str = "jev-latest";

/// The service address used when none is configured.
pub const DEFAULT_TYPESAFE_BASE_URL: &'static str = "https://api.typesafe.ai/v1";

/// The connection settings of a TypeSafe client.
#[derive(Debug)]
pub struct TypeSafeClient {
    pub model: String,
    pub base_url: String,
    pub api_key: String,
    pub timeout_seconds: u64,
}

/// The model a client uses: the configured one, trimmed, or the default
/// when blank.
pub open spec fn client_model(model: Seq<char>) -> Seq<char> {
    if trim(model).len() == 0 {
        DEFAULT_TYPESAFE_MODEL@
    } else {
        trim(model)
    }
}

/// The address a client uses: the configured one without trailing
/// slashes, or the default when blank.
pub open spec fn client_base_url(base: Seq<char>) -> Seq<char> {
    if trim(base).len() == 0 {
        DEFAULT_TYPESAFE_BASE_URL@
    } else {
        strip_trailing_slashes(base)
    }
}

/// The evaluation endpoint under a base address.
pub open spec fn spec_endpoint(base: Seq<char>) -> Seq<char> {
    if ends_with(base, "/systemone"@) {
        base
    } else {
        base + "/systemone"@
    }
}

impl TypeSafeClient {
    /// A client from configured values: model and address fall back to
    /// their defaults when blank, the key is trimmed, and the timeout is at
    /// least five seconds.
    pub fn new(model: &str, base_url_raw: &str, api_key: &str, timeout_seconds: u64) -> (c: Self)
        ensures
            c.model@ == client_model(model@),
            c.base_url@ == client_base_url(base_url_raw@),
            c.api_key@ == trim(api_key@),
            c.timeout_seconds == if timeout_seconds > 5 {
                timeout_seconds
            } else {
                5
            },
    {
        let model = if is_blank(model) {
            owned(DEFAULT_TYPESAFE_MODEL)
        } else {
            trim_str(model)
        };
        let base = if is_blank(base_url_raw) {
            owned(DEFAULT_TYPESAFE_BASE_URL)
        } else {
            base_url(base_url_raw)
        };
        TypeSafeClient {
            model,
            base_url: base,
            api_key: trim_str(api_key),
            timeout_seconds: if timeout_seconds > 5 {
                timeout_seconds
            } else {
                5
            },
        }
    }

    /// Whether the client has a non-blank API key.
    pub fn has_api_key(&self) -> (r: bool)
        ensures
            r == (trim(self.api_key@).len() > 0),
    {
        !is_blank(self.api_key.as_str())
    }

    /// The evaluation endpoint: the base address with `/systemone`, unless
    /// it already ends so.
    pub fn endpoint(&self) -> (r: String)
        ensures
            r@ == spec_endpoint(self.base_url@),
    {
        if str_ends_with(self.base_url.as_str(), "/systemone") {
            owned(self.base_url.as_str())
        } else {
            concat2(self.base_url.as_str(), "/systemone")
        }
    }

    /// The `Authorization` header value, when the client has a key.
    pub fn authorization(&self) -> (r: Option<String>)
        ensures
            match r {
                Some(h) => trim(self.api_key@).len() > 0 && h@ == "Bearer "@ + self.api_key@,
                None => trim(self.api_key@).len() == 0,
            },
    {
        if self.has_api_key() {
            Some(concat2("Bearer ", self.api_key.as_str()))
        } else {
            None
        }
    }
}

// ---------------------------------------------------------------------------
// Questions.
// ---------------------------------------------------------------------------

/// What a question offers to choose from or to judge by.
#[derive(Debug)]
pub enum QuestionCriteria {
    /// No criteria.
    Unstated,
    /// What a true and a false answer to a proposition mean.
    Verdicts { true_meaning: String, false_meaning: String },
    /// The options of a choice, each with its description.
    Options(Vec<(String, String)>),
    /// The levels of a score, lowest first.
    Levels(Vec<String>),
}

/// A typed question put to the service.
#[derive(Debug)]
pub struct TypeSafeQuestion {
    pub question_type: QuestionType,
    pub instructions: String,
    pub criteria: QuestionCriteria,
}

impl TypeSafeQuestion {
    /// A yes/no proposition, answered with the probability that it holds.
    pub fn noul(instructions: &str) -> (q: Self)
        ensures
            q.question_type == QuestionType::Noul,
            q.instructions@ == instructions@,
            q.criteria is Unstated,
    {
        TypeSafeQuestion { question_type: QuestionType::Noul, instructions: owned(instructions), criteria: QuestionCriteria::Unstated }
    }

    /// A yes/no proposition with what a true and a false answer mean.
    pub fn noul_with_criteria(instructions: &str, true_meaning: &str, false_meaning: &str) -> (q: Self)
        ensures
            q.question_type == QuestionType::Noul,
            q.instructions@ == instructions@,
            q.criteria matches QuestionCriteria::Verdicts { true_meaning: t, false_meaning: f } && t@ == true_meaning@
                && f@ == false_meaning@,
    {
        TypeSafeQuestion {
            question_type: QuestionType::Noul,
            instructions: owned(instructions),
            criteria: QuestionCriteria::Verdicts { true_meaning: owned(true_meaning), false_meaning: owned(false_meaning) },
        }
    }

    /// A choice among described options.
    pub fn choice(instructions: &str, options: Vec<(String, String)>) -> (q: Self)
        ensures
            q.question_type == QuestionType::Choice,
            q.instructions@ == instructions@,
            q.criteria == QuestionCriteria::Options(options),
    {
        TypeSafeQuestion { question_type: QuestionType::Choice, instructions: owned(instructions), criteria: QuestionCriteria::Options(options) }
    }

    /// A score over ordered levels.
    pub fn score(instructions: &str, levels: Vec<String>) -> (q: Self)
        ensures
            q.question_type == QuestionType::Score,
            q.instructions@ == instructions@,
            q.criteria == QuestionCriteria::Levels(levels),
    {
        TypeSafeQuestion { question_type: QuestionType::Score, instructions: owned(instructions), criteria: QuestionCriteria::Levels(levels) }
    }
}

} // verus!
