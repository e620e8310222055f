//! Settings of the streaming service that the library's rules read: ASR
//! pipeline timing, audio formats, clients the service accepts, signaling and
//! token parameters, and the engine model.
use vstd::prelude::*;
use crate::text::{eq_ignore_ascii_case, str_eq_ignore_ascii_case};

verus! {

/// The `Duration` of `ms` milliseconds (the value `Duration::from_millis(ms)` builds).
pub uninterp spec fn millis_duration(ms: u64) -> std::time::Duration;

/// `Duration::from_millis`: a duration of `ms` milliseconds.
#[verifier::external_body]
fn duration_from_millis(ms: u64) -> (d: std::time::Duration)
    ensures
        d == millis_duration(ms),
{
    std::time::Duration::from_millis(ms)
}

/// The ASR service, streaming and model settings.
#[derive(Debug, Clone)]
pub struct AsrPipelineConfig {
    pub service: ServiceConfig,
    pub streaming: StreamingConfig,
    pub model: ModelConfig,
}

impl AsrPipelineConfig {
    /// How long a request to the ASR service may take.
    pub fn request_timeout(&self) -> (d: std::time::Duration)
        ensures
            d == millis_duration(self.service.request_timeout_ms),
    {
        duration_from_millis(self.service.request_timeout_ms)
    }

    /// How often partial results are reported.
    pub fn partial_result_interval(&self) -> (d: std::time::Duration)
        ensures
            d == millis_duration(self.streaming.partial_result_interval_ms),
    {
        duration_from_millis(self.streaming.partial_result_interval_ms)
    }

    /// How much silence finalises an utterance.
    pub fn finalization_silence(&self) -> (d: std::time::Duration)
        ensures
            d == millis_duration(self.streaming.finalization_silence_ms),
    {
        duration_from_millis(self.streaming.finalization_silence_ms)
    }
}

#[derive(Debug, Clone)]
pub struct ServiceConfig {
    pub endpoint: String,
    pub request_timeout_ms: u64,
    pub max_stream_duration_s: u64,
}

#[derive(Debug, Clone)]
pub struct StreamingConfig {
    pub partial_result_interval_ms: u64,
    pub finalization_silence_ms: u64,
    pub max_pending_requests: u32,
}

#[derive(Debug, Clone)]
pub struct ModelConfig {
    pub name: String,
    pub language: String,
    pub enable_vad: bool,
}

/// Format of the PCM the service receives.
#[derive(Debug, Clone)]
pub struct InputFormat {
    pub sample_rate_hz: u32,
    pub channels: u8,
    pub frame_ms: u32,
}

/// Format of the PCM handed to the recogniser.
#[derive(Debug, Clone)]
pub struct TargetFormat {
    pub sample_rate_hz: u32,
    pub channels: u8,
}

/// Frame length and jitter buffer of the frame assembler.
#[derive(Debug, Clone)]
pub struct FrameAssembler {
    pub frame_duration_ms: u32,
    pub jitter_buffer_ms: u32,
}

/// Where metrics are exported.
#[derive(Debug, Clone)]
pub struct MetricsExporter {
    pub exporter: String,
    pub listen: String,
    pub scrape_path: String,
}

/// Where the signaling server listens.
#[derive(Debug, Clone)]
pub struct ServerConfig {
    pub ws_bind_addr: String,
}

/// Browsers and mobile systems the service accepts, with minimum versions.
#[derive(Debug, Clone)]
pub struct SupportedClients {
    pub browsers: Vec<BrowserClient>,
    pub mobile: Vec<MobileClient>,
}

#[derive(Debug, Clone)]
pub struct BrowserClient {
    pub name: String,
    pub min_version: String,
}

#[derive(Debug, Clone)]
pub struct MobileClient {
    pub os: String,
    pub min_version: String,
}

#[derive(Debug, Clone)]
pub struct NetworkRequirements {
    pub max_bandwidth_mbps: u32,
    pub preferred_codecs: CodecPreferences,
}

#[derive(Debug, Clone)]
pub struct CodecPreferences {
    pub audio: Vec<String>,
}

/// Bitrate offered to new sessions and the ICE servers they use.
#[derive(Debug, Clone)]
pub struct SignalingParameters {
    pub default_bitrate_kbps: u32,
    pub ice_servers: Vec<IceServerConfig>,
}

/// A configured ICE server; empty credentials count as absent.
#[derive(Debug, Clone)]
pub struct IceServerConfig {
    pub urls: Vec<String>,
    pub username: Option<String>,
    pub credential: Option<String>,
}

#[derive(Debug, Clone)]
pub struct GpuRequirement {
    pub model: String,
    pub count: u32,
}

/// The token issuer and audience sessions are authenticated against.
#[derive(Debug, Clone)]
pub struct TokenConfig {
    pub issuer: String,
    pub jwks_url: String,
    pub audience: String,
}

/// The local speech model and how it is run.
#[derive(Debug, Clone)]
pub struct WhisperModelConfig {
    pub model_path: String,
    pub threads: usize,
    pub language: String,
    pub translate: bool,
}

// =============================================================================
// Client version rules
// =============================================================================

/// How one version compares with another.
#[derive(Debug, Clone, Copy, PartialEq, Eq, Structural)]
pub enum VersionOrder {
    Less,
    Equal,
    Greater,
}

/// How version `a` compares with version `b` under the rules of the
/// `version-compare` crate; none when either does not parse as a version.
pub uninterp spec fn version_order(a: Seq<char>, b: Seq<char>) -> Option<VersionOrder>;

/// `version_compare::compare(a, b)`: the order of two version strings, or none
/// when one of them is not a version.
#[verifier::external_body]
fn compare_versions(a: &str, b: &str) -> (r: Option<VersionOrder>)
    ensures
        r == version_order(a@, b@),
{
    match version_compare::compare(a, b) {
        Ok(version_compare::Cmp::Lt) => Some(VersionOrder::Less),
        Ok(version_compare::Cmp::Eq) => Some(VersionOrder::Equal),
        Ok(version_compare::Cmp::Gt) => Some(VersionOrder::Greater),
        _ => None,
    }
}

/// `a` comes before `b` in character order (as `str` compares).
pub open spec fn lex_less(a: Seq<char>, b: Seq<char>) -> bool
    decreases a.len(),
{
    if a.len() == 0 {
        b.len() > 0
    } else if b.len() == 0 {
        false
    } else if (a[0] as u32) < (b[0] as u32) {
        true
    } else if (a[0] as u32) > (b[0] as u32) {
        false
    } else {
        lex_less(a.drop_first(), b.drop_first())
    }
}

fn str_lex_less(a: &str, b: &str) -> (r: bool)
    ensures
        r == lex_less(a@, b@),
{
    let n = a.unicode_len();
    let m = b.unicode_len();
    let mut i: usize = 0;
    assert(a@.subrange(0, n as int) =~= a@);
    assert(b@.subrange(0, m as int) =~= b@);
    while i < n && i < m && a.get_char(i) == b.get_char(i)
        invariant
            n == a@.len(),
            m == b@.len(),
            i <= n,
            i <= m,
            forall|k: int| 0 <= k < i ==> a@[k] == b@[k],
            lex_less(a@, b@) == lex_less(a@.subrange(i as int, n as int), b@.subrange(i as int, m as int)),
        decreases n - i,
    {
        proof {
            let sa = a@.subrange(i as int, n as int);
            let sb = b@.subrange(i as int, m as int);
            assert(sa.drop_first() =~= a@.subrange(i + 1, n as int));
            assert(sb.drop_first() =~= b@.subrange(i + 1, m as int));
        }
        i = i + 1;
    }
    if i == n {
        i < m
    } else if i == m {
        false
    } else {
        (a.get_char(i) as u32) < (b.get_char(i) as u32)
    }
}

/// Whether `current` is at least `min_required`, given how the two compare as
/// versions (`order`, none when one does not parse): by that order, else as strings.
pub open spec fn order_meets(order: Option<VersionOrder>, min_required: Seq<char>, current: Seq<char>) -> bool {
    match order {
        Some(VersionOrder::Less) => false,
        Some(_) => true,
        None => !lex_less(current, min_required),
    }
}

/// Whether `current` is at least `min_required`: compared as versions when both
/// parse, else as strings.
pub open spec fn version_meets(min_required: Seq<char>, current: Seq<char>) -> bool {
    order_meets(version_order(current, min_required), min_required, current)
}

/// The version rule once the version order of `current` against `min_required` is known.
pub fn meets_by_order(order: Option<VersionOrder>, min_required: &str, current: &str) -> (b: bool)
    ensures
        b == order_meets(order, min_required@, current@),
{
    match order {
        Some(VersionOrder::Less) => false,
        Some(_) => true,
        None => !str_lex_less(current, min_required),
    }
}

fn version_meets_exec(min_required: &str, current: &str) -> (b: bool)
    ensures
        b == version_meets(min_required@, current@),
{
    meets_by_order(compare_versions(current, min_required), min_required, current)
}

/// Some browser entry with this name (ASCII case ignored) has a minimum version `version` meets.
pub open spec fn browser_supported(browsers: Seq<BrowserClient>, name: Seq<char>, version: Seq<char>) -> bool {
    exists|i: int|
        0 <= i < browsers.len() && eq_ignore_ascii_case((#[trigger] browsers[i]).name@, name)
            && version_meets(browsers[i].min_version@, version)
}

/// Some mobile entry for this system (ASCII case ignored) has a minimum version `version` meets.
pub open spec fn mobile_supported(mobile: Seq<MobileClient>, os: Seq<char>, version: Seq<char>) -> bool {
    exists|i: int|
        0 <= i < mobile.len() && eq_ignore_ascii_case((#[trigger] mobile[i]).os@, os)
            && version_meets(mobile[i].min_version@, version)
}

impl SupportedClients {
    /// Whether the browser `name` at `version` meets a minimum requirement.
    pub fn is_browser_supported(&self, name: &str, version: &str) -> (b: bool)
        ensures
            b == browser_supported(self.browsers@, name@, version@),
    {
        let mut i: usize = 0;
        while i < self.browsers.len()
            invariant
                i <= self.browsers@.len(),
                forall|k: int|
                    0 <= k < i ==> !(eq_ignore_ascii_case((#[trigger] self.browsers@[k]).name@, name@)
                        && version_meets(self.browsers@[k].min_version@, version@)),
            decreases self.browsers.len() - i,
        {
            let c = &self.browsers[i];
            if str_eq_ignore_ascii_case(c.name.as_str(), name) && version_meets_exec(
                c.min_version.as_str(),
                version,
            ) {
                return true;
            }
            i = i + 1;
        }
        false
    }

    /// Whether the mobile system `os` at `version` meets a minimum requirement.
    pub fn is_mobile_supported(&self, os: &str, version: &str) -> (b: bool)
        ensures
            b == mobile_supported(self.mobile@, os@, version@),
    {
        let mut i: usize = 0;
        while i < self.mobile.len()
            invariant
                i <= self.mobile@.len(),
                forall|k: int|
                    0 <= k < i ==> !(eq_ignore_ascii_case((#[trigger] self.mobile@[k]).os@, os@)
                        && version_meets(self.mobile@[k].min_version@, version@)),
            decreases self.mobile.len() - i,
        {
            let c = &self.mobile[i];
            if str_eq_ignore_ascii_case(c.os.as_str(), os) && version_meets_exec(
                c.min_version.as_str(),
                version,
            ) {
                return true;
            }
            i = i + 1;
        }
        false
    }
}

} // verus!
