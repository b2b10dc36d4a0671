//! Wire types of the model-server client and the decisions around them:
//! request construction, pull-progress events, and URL normalisation.

use vstd::prelude::*;
use crate::text;

verus! {

/// Request body for an embedding call.
#[derive(Debug, Clone)]
pub struct EmbeddingRequest {
    /// Model that embeds.
    pub model: String,
    /// Text to embed.
    pub prompt: String,
}

/// Request body for a generation call.
#[derive(Debug, Clone)]
pub struct GenerateRequest {
    /// Model that generates.
    pub model: String,
    /// The prompt document.
    pub prompt: String,
    /// Whether the reply is streamed; generation here never streams.
    pub stream: bool,
    /// Output format constraint; `json` when a JSON reply is demanded.
    pub format: Option<String>,
}

/// Reply body of a generation call.
#[derive(Debug, Clone)]
pub struct GenerateResponse {
    /// The generated text.
    pub response: String,
}

/// One installed model as the server lists it.
#[derive(Debug, Clone)]
pub struct ModelInfo {
    /// Model name, e.g. `llama3:latest`.
    pub name: String,
    /// Model size in bytes.
    pub size: u64,
}

/// Reply body of the model-list call.
#[derive(Debug, Clone)]
pub struct TagsResponse {
    /// The installed models.
    pub models: Vec<ModelInfo>,
}

/// One progress event of a streamed model pull.
#[derive(Debug, Clone)]
pub struct PullProgress {
    /// Phase of the pull, `success` when it is done.
    pub status: String,
    /// Digest of the layer being fetched, when one is.
    pub digest: Option<String>,
    /// Total bytes of the current layer.
    pub total: Option<u64>,
    /// Bytes of the current layer already fetched.
    pub completed: Option<u64>,
}

impl GenerateRequest {
    /// A generation request: never streamed, and constrained to JSON
    /// output exactly when a JSON reply is demanded.
    pub fn new(model: String, prompt: String, json_format: bool) -> (r: GenerateRequest)
        ensures
            r.model == model,
            r.prompt == prompt,
            r.stream == false,
            json_format ==> (r.format matches Some(f) && f@ == "json"@),
            !json_format ==> r.format is None,
    {
        GenerateRequest {
            model,
            prompt,
            stream: false,
            format: if json_format {
                Some("json".to_owned())
            } else {
                None
            },
        }
    }
}

/// `s` with every trailing slash removed.
pub open spec fn spec_strip_trailing_slashes(s: Seq<char>) -> Seq<char>
    decreases s.len(),
{
    if s.len() > 0 && s.last() == '/' {
        spec_strip_trailing_slashes(s.drop_last())
    } else {
        s
    }
}

/// Normalises a server URL by dropping trailing slashes, matching
/// [`spec_strip_trailing_slashes`].
pub fn normalize_base_url(url: &str) -> (r: String)
    ensures
        r@ == spec_strip_trailing_slashes(url@),
{
    let n = url.unicode_len();
    proof {
        assert(url@.take(n as int) =~= url@);
    }
    let mut b: usize = n;
    while b > 0 && url.get_char(b - 1) == '/'
        invariant
            b <= n,
            n == url@.len(),
            spec_strip_trailing_slashes(url@) == spec_strip_trailing_slashes(
                url@.take(b as int),
            ),
        decreases b,
    {
        proof {
            assert(url@.take(b as int).last() == url@[b - 1]);
            assert(url@.take(b as int).drop_last() =~= url@.take(b as int - 1));
        }
        b = b - 1;
    }
    proof {
        if b > 0 {
            assert(url@.take(b as int).last() == url@[b - 1]);
        }
        assert(spec_strip_trailing_slashes(url@.take(b as int)) == url@.take(b as int));
    }
    url.substring_char(0, b).to_owned()
}

impl PullProgress {
    /// Whether this event reports the pull as finished.
    pub fn is_success(&self) -> (r: bool)
        ensures
            r == (self.status@ == "success"@),
    {
        text::str_eq(self.status.as_str(), "success")
    }
}

/// The progress of a layer in hundredths, as shown to the user.
pub fn pull_percent(completed: u64, total: u64) -> (r: u64)
    requires
        total > 0,
        completed <= total,
    ensures
        r == completed as int * 100 / total as int,
{
    let r128 = (completed as u128) * 100 / (total as u128);
    proof {
        assert(completed as int * 100 / total as int <= 100) by (nonlinear_arith)
            requires
                total as int > 0,
                0 <= completed as int <= total as int,
        ;
    }
    r128 as u64
}

/// Whether any event of a pull reported success: the pull went through.
pub fn pull_completed(events: &Vec<PullProgress>) -> (r: bool)
    ensures
        r == exists|i: int| 0 <= i < events@.len() && (#[trigger] events@[i].status@) == "success"@,
{
    for i in 0..events.len()
        invariant
            forall|j: int| 0 <= j < i ==> (#[trigger] events@[j].status@) != "success"@,
    {
        if text::str_eq(events[i].status.as_str(), "success") {
            return true;
        }
    }
    false
}

/// What parsing one pull-progress line yields: `None` when the line is
/// not a JSON object with a string `status`; else the status with the
/// optional `digest`, `total` and `completed` fields.
pub uninterp spec fn pull_event_of(s: Seq<char>) -> Option<
    (Seq<char>, Option<Seq<char>>, Option<u64>, Option<u64>),
>;

/// Relies on serde_json (from_str to a Value, Value::get, as_str,
/// as_u64): reads one newline-delimited progress event of a streamed
/// pull; the outcome is a function of the line alone, named by
/// [`pull_event_of`].
#[verifier::external_body]
pub fn parse_pull_event(line: &str) -> (r: Option<PullProgress>)
    ensures
        r is Some <==> pull_event_of(line@) is Some,
        r is Some ==> {
            let e = pull_event_of(line@)->0;
            &&& r->0.status@ == e.0
            &&& r->0.digest.deep_view() == e.1
            &&& r->0.total == e.2
            &&& r->0.completed == e.3
        },
{
    let v: serde_json::Value = serde_json::from_str(line).ok()?;
    let status = v.get("status")?.as_str()?.to_string();
    Some(
        PullProgress {
            status,
            digest: v.get("digest").and_then(|x| x.as_str()).map(str::to_string),
            total: v.get("total").and_then(serde_json::Value::as_u64),
            completed: v.get("completed").and_then(serde_json::Value::as_u64),
        },
    )
}

} // verus!
