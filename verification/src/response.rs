//! Parsing of the model's reply: a JSON document whose `suggestions` array
//! yields the commands offered to the user. A suggestion whose command is
//! blank rejects the whole reply.

use vstd::prelude::*;
use crate::text;

verus! {

/// How risky a suggested command is.
#[derive(Debug, Clone, Copy, PartialEq, Eq, Default)]
pub enum RiskLevel {
    /// Read-only, no side effects.
    #[default]
    Safe,
    /// Changes files, but recoverably.
    Moderate,
    /// Irreversible.
    Destructive,
}

/// One suggestion offered to the user.
#[derive(Debug, Clone, PartialEq)]
pub struct CommandSuggestion {
    /// The exact command to run.
    pub command: String,
    /// A short title.
    pub title: String,
    /// Why the command helps.
    pub explanation: String,
    /// How risky running it is.
    pub risk_level: RiskLevel,
}

/// The fields of one entry of the reply's `suggestions` array, before
/// validation.
#[derive(Debug, Clone)]
pub struct RawSuggestion {
    /// The `command` field.
    pub command: String,
    /// The `title` field.
    pub title: String,
    /// The `explanation` field.
    pub explanation: String,
    /// The `risk_level` field, when present as a string.
    pub risk: Option<String>,
}

/// What parsing a reply yields: `None` when the text is not a JSON object
/// with a `suggestions` array of objects carrying string `command`,
/// `title` and `explanation` fields; else those fields per entry, with the
/// `risk_level` string when one is present.
pub uninterp spec fn json_suggestions_of(s: Seq<char>) -> Option<
    Seq<(Seq<char>, Seq<char>, Seq<char>, Option<Seq<char>>)>,
>;

/// Relies on serde_json (from_str to a Value, Value::get, as_array,
/// as_str): pulls the fields of each entry of the reply's `suggestions`
/// array out of the JSON document; the outcome is a function of the text
/// alone, named by [`json_suggestions_of`].
#[verifier::external_body]
fn decode_suggestions(s: &str) -> (r: Option<Vec<RawSuggestion>>)
    ensures
        r is Some <==> json_suggestions_of(s@) is Some,
        r is Some ==> {
            let rs = json_suggestions_of(s@)->0;
            &&& r->0@.len() == rs.len()
            &&& forall|i: int|
                0 <= i < rs.len() ==> (#[trigger] r->0@[i]).command@ == rs[i].0
                    && r->0@[i].title@ == rs[i].1 && r->0@[i].explanation@ == rs[i].2
                    && r->0@[i].risk.deep_view() == rs[i].3
        },
{
    let v: serde_json::Value = serde_json::from_str(s).ok()?;
    let arr = v.get("suggestions")?.as_array()?;
    let mut out: Vec<RawSuggestion> = Vec::new();
    for e in arr {
        out.push(RawSuggestion {
            command: e.get("command")?.as_str()?.to_string(),
            title: e.get("title")?.as_str()?.to_string(),
            explanation: e.get("explanation")?.as_str()?.to_string(),
            risk: e.get("risk_level").and_then(|x| x.as_str()).map(str::to_string),
        });
    }
    Some(out)
}

/// The risk a `risk_level` string names; anything unknown or absent is
/// taken as safe.
pub open spec fn spec_risk_of(r: Option<Seq<char>>) -> RiskLevel {
    match r {
        Some(s) => if s == "moderate"@ {
            RiskLevel::Moderate
        } else if s == "destructive"@ {
            RiskLevel::Destructive
        } else {
            RiskLevel::Safe
        },
        None => RiskLevel::Safe,
    }
}

/// Runtime risk parsing matching [`spec_risk_of`].
pub fn risk_from_str(r: &Option<String>) -> (out: RiskLevel)
    ensures
        out == spec_risk_of(r.deep_view()),
{
    match r {
        Some(s) => {
            if text::str_eq(s.as_str(), "moderate") {
                RiskLevel::Moderate
            } else if text::str_eq(s.as_str(), "destructive") {
                RiskLevel::Destructive
            } else {
                RiskLevel::Safe
            }
        },
        None => RiskLevel::Safe,
    }
}

/// Why a reply was rejected.
#[derive(Debug, Clone, PartialEq, Eq)]
pub enum ResponseError {
    /// The reply was not the expected JSON document.
    MalformedJson,
    /// The suggestion at `index` has a blank command.
    EmptyCommand {
        /// Position of the offending suggestion.
        index: usize,
    },
}

/// Index of the first entry whose command is blank after trimming, from
/// position `i` on; the length when there is none.
pub open spec fn spec_first_blank_from(
    rs: Seq<(Seq<char>, Seq<char>, Seq<char>, Option<Seq<char>>)>,
    i: int,
) -> int
    decreases rs.len() - i,
{
    if i < 0 || i >= rs.len() {
        rs.len() as int
    } else if text::spec_trim(rs[i].0).len() == 0 {
        i
    } else {
        spec_first_blank_from(rs, i + 1)
    }
}

/// Parses the model's reply into suggestions. The reply is rejected when
/// it is not the expected JSON document, or when any suggestion's command
/// is blank after trimming — the first such suggestion is named. Every
/// suggestion of an accepted reply keeps its fields, with its risk read by
/// [`spec_risk_of`].
pub fn parse_suggestions(response: &str) -> (r: Result<Vec<CommandSuggestion>, ResponseError>)
    ensures
        match json_suggestions_of(response@) {
            None => r == Err::<Vec<CommandSuggestion>, ResponseError>(ResponseError::MalformedJson),
            Some(rs) => {
                let fb = spec_first_blank_from(rs, 0);
                if fb < rs.len() {
                    r == Err::<Vec<CommandSuggestion>, ResponseError>(
                        ResponseError::EmptyCommand { index: fb as usize },
                    )
                } else {
                    &&& r is Ok
                    &&& r->Ok_0@.len() == rs.len()
                    &&& forall|i: int|
                        0 <= i < rs.len() ==> (#[trigger] r->Ok_0@[i]).command@ == rs[i].0
                            && r->Ok_0@[i].title@ == rs[i].1 && r->Ok_0@[i].explanation@ == rs[i].2
                            && r->Ok_0@[i].risk_level == spec_risk_of(rs[i].3)
                }
            },
        },
{
    let raw = match decode_suggestions(response) {
        Some(v) => v,
        None => {
            return Err(ResponseError::MalformedJson);
        },
    };
    let ghost rs = json_suggestions_of(response@)->0;
    let mut out: Vec<CommandSuggestion> = Vec::new();
    for i in 0..raw.len()
        invariant
            raw@.len() == rs.len(),
            forall|j: int|
                0 <= j < rs.len() ==> (#[trigger] raw@[j]).command@ == rs[j].0 && raw@[j].title@
                    == rs[j].1 && raw@[j].explanation@ == rs[j].2 && raw@[j].risk.deep_view()
                    == rs[j].3,
            json_suggestions_of(response@) == Some(rs),
            spec_first_blank_from(rs, 0) == spec_first_blank_from(rs, i as int),
            out@.len() == i,
            forall|j: int|
                0 <= j < i ==> (#[trigger] out@[j]).command@ == rs[j].0
                    && out@[j].title@ == rs[j].1
                    && out@[j].explanation@ == rs[j].2
                    && out@[j].risk_level == spec_risk_of(rs[j].3),
    {
        let t = text::trim_str(raw[i].command.as_str());
        if t.unicode_len() == 0 {
            return Err(ResponseError::EmptyCommand { index: i });
        }
        out.push(
            CommandSuggestion {
                command: raw[i].command.clone(),
                title: raw[i].title.clone(),
                explanation: raw[i].explanation.clone(),
                risk_level: risk_from_str(&raw[i].risk),
            },
        );
    }
    Ok(out)
}

} // verus!
