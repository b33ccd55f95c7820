//! The settings a run is made with: which backend, how to authenticate, which
//! part of the pipeline is switched off, and the budgets the pipeline keeps.

use vstd::prelude::*;
use crate::text::{concat2, same_text};

verus! {

/// Which model backend to talk to.
#[derive(Debug, Clone, Copy, PartialEq, Eq, Structural)]
pub enum Provider {
    /// Google Vertex AI (Gemini).
    Vertex,
    /// Deterministic offline stub. Used by tests and by `--dry-run`; never
    /// used to produce reported results.
    Mock,
}

/// How to authenticate against Vertex AI.
#[derive(Debug, Clone, Copy, PartialEq, Eq, Structural)]
pub enum VertexAuth {
    /// `x-goog-api-key` header.
    ApiKey,
    /// `Authorization: Bearer <token>` using a token supplied in the
    /// environment.
    AccessToken,
    /// Ask the gcloud CLI for an access token at client construction.
    GcloudCli,
}

/// Which part of the advanced pipeline to switch off, so its contribution can
/// be measured rather than argued about.
#[derive(Debug, Clone, Copy, PartialEq, Eq, Structural)]
pub enum Ablation {
    /// The complete pipeline.
    Full,
    /// Skip the falsification question and the fresh-context verifier.
    /// Any candidate backed by investigation evidence is reported.
    NoFalsification,
    /// Keep falsification, but never send an "Insufficient" verdict back for
    /// a second targeted look.
    NoFollowup,
    /// Skip investigation and verification; candidates are reported as
    /// produced.
    CandidatesOnly,
    /// Never take a second look at a case that finished with nothing to
    /// report.
    NoSecondLook,
}

/// The name of an ablation, as it appears on the command line and in output.
pub open spec fn ablation_name(a: Ablation) -> Seq<char> {
    match a {
        Ablation::Full => "none"@,
        Ablation::NoFalsification => "no-falsification"@,
        Ablation::NoFollowup => "no-followup"@,
        Ablation::CandidatesOnly => "candidates-only"@,
        Ablation::NoSecondLook => "no-second-look"@,
    }
}

impl Ablation {
    pub fn as_str(&self) -> (s: &'static str)
        ensures
            s@ == ablation_name(*self),
    {
        match self {
            Ablation::Full => "none",
            Ablation::NoFalsification => "no-falsification",
            Ablation::NoFollowup => "no-followup",
            Ablation::CandidatesOnly => "candidates-only",
            Ablation::NoSecondLook => "no-second-look",
        }
    }

    /// Suffix for output filenames, empty for a full run so the default
    /// artifacts keep their names.
    pub fn suffix(&self) -> (s: String)
        ensures
            *self == Ablation::Full ==> s@ == Seq::<char>::empty(),
            *self != Ablation::Full ==> s@ == "-"@ + ablation_name(*self),
    {
        match self {
            Ablation::Full => String::new(),
            other => concat2("-", other.as_str()),
        }
    }

    /// The ablation a command-line name selects, if any.
    pub fn named(name: &str) -> (r: Option<Ablation>)
        ensures
            match r {
                Some(a) => ablation_name(a) == name@,
                None => forall|a: Ablation| ablation_name(a) != name@,
            },
    {
        let all = [
            Ablation::Full,
            Ablation::NoFalsification,
            Ablation::NoFollowup,
            Ablation::CandidatesOnly,
            Ablation::NoSecondLook,
        ];
        let mut i: usize = 0;
        while i < 5
            invariant
                i <= 5,
                all@ == seq![
                    Ablation::Full,
                    Ablation::NoFalsification,
                    Ablation::NoFollowup,
                    Ablation::CandidatesOnly,
                    Ablation::NoSecondLook,
                ],
                forall|j: int| 0 <= j < i ==> ablation_name(#[trigger] all@[j]) != name@,
            decreases 5 - i,
        {
            if same_text(all[i].as_str(), name) {
                return Some(all[i]);
            }
            i = i + 1;
        }
        proof {
            assert forall|a: Ablation| ablation_name(a) != name@ by {
                match a {
                    Ablation::Full => assert(ablation_name(all@[0]) != name@),
                    Ablation::NoFalsification => assert(ablation_name(all@[1]) != name@),
                    Ablation::NoFollowup => assert(ablation_name(all@[2]) != name@),
                    Ablation::CandidatesOnly => assert(ablation_name(all@[3]) != name@),
                    Ablation::NoSecondLook => assert(ablation_name(all@[4]) != name@),
                }
            }
        }
        None
    }
}

/// How many follow-up investigations an "Insufficient" verdict may trigger
/// when a recorded configuration does not say.
pub fn default_followups() -> (n: u32)
    ensures
        n == 1,
{
    1
}

/// How many second looks a case that reported nothing gets when a recorded
/// configuration does not say. Off by default: the shipped figures were
/// measured without it.
pub fn default_second_looks() -> (n: u32)
    ensures
        n == 0,
{
    0
}

/// Why a provider or authentication setting was refused.
#[derive(Debug, Clone, PartialEq, Eq)]
pub struct SettingError(pub String);

/// The provider `VCR_PROVIDER` names: unset or `vertex` is Vertex, `mock` is
/// the offline stub, anything else is refused.
pub fn provider_named(value: Option<&str>) -> (r: Result<Provider, SettingError>)
    ensures
        match value {
            None => r == Ok::<Provider, SettingError>(Provider::Vertex),
            Some(v) => if v@ == "vertex"@ {
                r == Ok::<Provider, SettingError>(Provider::Vertex)
            } else if v@ == "mock"@ {
                r == Ok::<Provider, SettingError>(Provider::Mock)
            } else {
                r is Err
            },
        },
{
    match value {
        None => Ok(Provider::Vertex),
        Some(v) => {
            if same_text(v, "vertex") {
                Ok(Provider::Vertex)
            } else if same_text(v, "mock") {
                Ok(Provider::Mock)
            } else {
                let mut m = String::from_str("VCR_PROVIDER: expected `vertex` or `mock`, got ");
                let q = crate::text::debug_quoted(v);
                m.append(q.as_str());
                Err(SettingError(m))
            }
        },
    }
}

/// The authentication `VERTEX_AUTH` names: unset or `api_key`, `access_token`,
/// `gcloud`; anything else is refused.
pub fn auth_named(value: Option<&str>) -> (r: Result<VertexAuth, SettingError>)
    ensures
        match value {
            None => r == Ok::<VertexAuth, SettingError>(VertexAuth::ApiKey),
            Some(v) => if v@ == "api_key"@ {
                r == Ok::<VertexAuth, SettingError>(VertexAuth::ApiKey)
            } else if v@ == "access_token"@ {
                r == Ok::<VertexAuth, SettingError>(VertexAuth::AccessToken)
            } else if v@ == "gcloud"@ {
                r == Ok::<VertexAuth, SettingError>(VertexAuth::GcloudCli)
            } else {
                r is Err
            },
        },
{
    match value {
        None => Ok(VertexAuth::ApiKey),
        Some(v) => {
            if same_text(v, "api_key") {
                Ok(VertexAuth::ApiKey)
            } else if same_text(v, "access_token") {
                Ok(VertexAuth::AccessToken)
            } else if same_text(v, "gcloud") {
                Ok(VertexAuth::GcloudCli)
            } else {
                let mut m = String::from_str(
                    "VERTEX_AUTH: expected `api_key`, `access_token`, or `gcloud`, got ",
                );
                let q = crate::text::debug_quoted(v);
                m.append(q.as_str());
                Err(SettingError(m))
            }
        },
    }
}

/// Whether the settings leave Vertex without the project it needs: a project
/// id is required unless authentication is by API key.
pub fn needs_project_id(provider: Provider, auth: VertexAuth, project_id_set: bool) -> (b: bool)
    ensures
        b == (provider == Provider::Vertex && auth != VertexAuth::ApiKey && !project_id_set),
{
    provider == Provider::Vertex && auth != VertexAuth::ApiKey && !project_id_set
}

/// The budgets and switches of a run that the pipeline's decisions read.
#[derive(Debug, Clone, Copy, PartialEq, Eq, Structural)]
pub struct RunLimits {
    /// Line-range slack used when matching a prediction to ground truth.
    pub match_line_tolerance: u32,
    /// Upper bound on investigation tool calls per candidate finding.
    pub max_tool_calls_per_finding: u32,
    /// How many times an "Insufficient" verdict may send the investigation
    /// back for more evidence.
    pub max_followup_investigations: u32,
    /// Upper bound on lines returned by a single bounded file read.
    pub max_read_lines: u32,
    /// Upper bound on matches returned by a single search.
    pub max_search_results: u32,
    /// How many times a case that reported nothing may be looked at again.
    pub max_second_looks: u32,
    /// Whether within-case memory carries the content of regions already read.
    pub memory_carries_content: bool,
    /// Which stage, if any, is switched off for this run.
    pub ablation: Ablation,
}

} // verus!
