//! Audio helpers of the batch service that need no decoder: human-readable
//! file sizes, recognising a container format from a file name or its first
//! bytes, the checks on an upload, and the metadata of a file from what the
//! symphonia probe reports of its tracks and packets.
use vstd::prelude::*;
use vstd::arithmetic::div_mod::{
    lemma_div_denominator, lemma_fundamental_div_mod, lemma_div_is_ordered,
    lemma_div_is_ordered_by_denominator,
};
use vstd::arithmetic::mul::lemma_mul_inequality;
use crate::text::{decimal, digit_char, digit_str, push_decimal, push_str, owned, str_eq};
use crate::backend::config::{Config, file_size_exceeded_message};

verus! {

/// Two to the power `e`.
pub open spec fn pow2(e: nat) -> nat
    decreases e,
{
    if e == 0 {
        1
    } else {
        2 * pow2((e - 1) as nat)
    }
}

proof fn lemma_pow2_monotonic(a: nat, b: nat)
    requires
        a <= b,
    ensures
        1 <= pow2(a) <= pow2(b),
    decreases b,
{
    if b > a {
        lemma_pow2_monotonic(a, (b - 1) as nat);
    } else {
        lemma_pow2_positive(a);
    }
}

proof fn lemma_pow2_positive(a: nat)
    ensures
        pow2(a) >= 1,
    decreases a,
{
    if a > 0 {
        lemma_pow2_positive((a - 1) as nat);
    }
}

proof fn lemma_pow2_at_least(e: nat)
    requires
        e >= 11,
    ensures
        pow2(e) >= 2048,
    decreases e,
{
    if e == 11 {
        reveal_with_fuel(pow2, 12);
    } else {
        lemma_pow2_at_least((e - 1) as nat);
    }
}

/// `n / d` rounded to the nearest integer, ties to the even neighbour.
pub open spec fn round_half_even_div(n: nat, d: nat) -> nat {
    let q = n / d;
    let r = n % d;
    if 2 * r > d || (2 * r == d && q % 2 == 1) {
        q + 1
    } else {
        q
    }
}

/// How many low bits of `n` an IEEE-754 double cannot hold (its significand has 53 bits).
pub open spec fn f64_dropped_bits(n: nat) -> nat
    decreases n,
{
    if n < 0x20_0000_0000_0000 {
        0
    } else {
        1 + f64_dropped_bits(n / 2)
    }
}

/// The value of `n as f64`: `n` rounded to the nearest double, ties to even.
pub open spec fn nearest_f64(n: nat) -> nat {
    let d = pow2(f64_dropped_bits(n));
    round_half_even_div(n, d) * d
}

/// `v / d` printed with one decimal place, as `{:.1}` prints a double.
pub open spec fn one_decimal(v: nat, d: nat) -> Seq<char> {
    let t = round_half_even_div(v * 10, d);
    decimal(t / 10) + seq!['.'] + decimal(t % 10)
}

/// The text `format_file_size` gives for a byte count: bytes below 1 KiB as an
/// integer, larger sizes in KB, MB or GB (powers of 1024) with one decimal.
pub open spec fn file_size_text(bytes: nat) -> Seq<char> {
    let v = nearest_f64(bytes);
    if v < 1024 {
        decimal(v) + " B"@
    } else if v < 1048576 {
        one_decimal(v, 1024) + " KB"@
    } else if v < 1073741824 {
        one_decimal(v, 1048576) + " MB"@
    } else {
        one_decimal(v, 1073741824) + " GB"@
    }
}

/// `n / d` rounded half to even, computed.
fn round_div(n: u128, d: u128) -> (q: u128)
    requires
        d > 0,
        n / d < u128::MAX,
    ensures
        q == round_half_even_div(n as nat, d as nat),
{
    let q = n / d;
    let r = n % d;
    if r > d - r || (r == d - r && q % 2 == 1) {
        q + 1
    } else {
        q
    }
}

/// The double nearest to `bytes`, as an exact integer.
fn nearest_double(bytes: u64) -> (v: u128)
    ensures
        v == nearest_f64(bytes as nat),
        v <= 0x1_0000_0000_0000_0000u128,
        bytes < 0x20_0000_0000_0000 ==> v == bytes,
{
    let mut m: u64 = bytes;
    let mut d: u64 = 1;
    let ghost mut e: nat = 0;
    while m >= 0x20_0000_0000_0000
        invariant
            d == pow2(e),
            1 <= d <= 2048,
            e <= 11,
            m == bytes / d,
            f64_dropped_bits(bytes as nat) == e + f64_dropped_bits(m as nat),
        decreases m,
    {
        proof {
            lemma_fundamental_div_mod(bytes as int, d as int);
            lemma_mul_inequality(0x20_0000_0000_0000int, m as int, d as int);
            assert(d * 0x20_0000_0000_0000 <= bytes) by (nonlinear_arith)
                requires
                    d * m <= bytes,
                    0x20_0000_0000_0000 <= m,
                    d >= 1;
            assert(d < 2048);
            if e >= 11 {
                lemma_pow2_at_least(e);
            }
            assert(e < 11);
            assert(pow2((e + 1) as nat) == 2 * pow2(e));
            assert(pow2((e + 1) as nat) <= 2048) by {
                lemma_pow2_monotonic((e + 1) as nat, 11);
                reveal_with_fuel(pow2, 12);
            }
            lemma_div_denominator(bytes as int, d as int, 2);
        }
        m = m / 2;
        d = d * 2;
        proof { e = e + 1; }
    }
    proof {
        assert(f64_dropped_bits(bytes as nat) == e);
    }
    let q = round_div(bytes as u128, d as u128);
    proof {
        assert(q <= 0x20_0000_0000_0000);
        lemma_mul_inequality(q as int, 0x20_0000_0000_0000int, d as int);
    }
    let v = q * (d as u128);
    proof {
        if bytes < 0x20_0000_0000_0000 {
            assert(d == 1);
        }
    }
    v
}

/// Appends `v / d` with one decimal place.
fn push_one_decimal(out: &mut String, v: u128, d: u128)
    requires
        1024 <= d,
        v <= 0x1_0000_0000_0000_0000u128,
    ensures
        final(out)@ == old(out)@ + one_decimal(v as nat, d as nat),
{
    proof {
        lemma_div_is_ordered_by_denominator((v * 10) as int, 1024, d as int);
        lemma_div_is_ordered((v * 10) as int, 0xA_0000_0000_0000_0000int, 1024);
    }
    let t = round_div(v * 10, d);
    push_decimal(out, (t / 10) as u64);
    proof { reveal_strlit("."); }
    push_str(out, ".");
    let ds = digit_str((t % 10) as u64);
    push_str(out, ds);
    proof {
        assert(decimal((t % 10) as nat) == seq![digit_char((t % 10) as nat)]);
        assert(final(out)@ =~= old(out)@ + one_decimal(v as nat, d as nat));
    }
}

/// Human-readable size of `bytes`, e.g. `512 B`, `1.5 KB`, `1.0 GB`.
pub fn format_file_size(bytes: u64) -> (s: String)
    ensures
        s@ == file_size_text(bytes as nat),
{
    let v = nearest_double(bytes);
    let mut out = String::new();
    proof {
        reveal_strlit(" B");
        reveal_strlit(" KB");
        reveal_strlit(" MB");
        reveal_strlit(" GB");
    }
    if v < 1024 {
        push_decimal(&mut out, v as u64);
        push_str(&mut out, " B");
    } else if v < 1048576 {
        push_one_decimal(&mut out, v, 1024);
        push_str(&mut out, " KB");
    } else if v < 1073741824 {
        push_one_decimal(&mut out, v, 1048576);
        push_str(&mut out, " MB");
    } else {
        push_one_decimal(&mut out, v, 1073741824);
        push_str(&mut out, " GB");
    }
    proof {
        assert(out@ =~= file_size_text(bytes as nat));
    }
    out
}

// =============================================================================
// Container formats
// =============================================================================

/// Byte `i` of `h` is present and equals `b`.
pub open spec fn byte_is(h: Seq<u8>, i: int, b: u8) -> bool {
    i < h.len() && h[i] == b
}

/// The container format named by the first bytes of a file: RIFF/WAVE, an ID3
/// tag or an MPEG frame sync, an MP4 `ftyp` box, FLAC or Ogg, checked in that
/// order; each signature counts once the bytes it looks at are present.
pub open spec fn header_format(h: Seq<u8>) -> Option<Seq<char>> {
    if byte_is(h, 0, 0x52) && byte_is(h, 1, 0x49) && byte_is(h, 2, 0x46) && byte_is(h, 3, 0x46)
        && byte_is(h, 8, 0x57) && byte_is(h, 9, 0x41) && byte_is(h, 10, 0x56) && byte_is(h, 11, 0x45) {
        Some("wav"@)
    } else if (byte_is(h, 0, 0x49) && byte_is(h, 1, 0x44) && byte_is(h, 2, 0x33)) || (byte_is(h, 0, 0xFF)
        && byte_is(h, 1, 0xFB)) {
        Some("mp3"@)
    } else if byte_is(h, 4, 0x66) && byte_is(h, 5, 0x74) && byte_is(h, 6, 0x79) && byte_is(h, 7, 0x70) {
        Some("m4a"@)
    } else if byte_is(h, 0, 0x66) && byte_is(h, 1, 0x4C) && byte_is(h, 2, 0x61) && byte_is(h, 3, 0x43) {
        Some("flac"@)
    } else if byte_is(h, 0, 0x4F) && byte_is(h, 1, 0x67) && byte_is(h, 2, 0x67) && byte_is(h, 3, 0x53) {
        Some("ogg"@)
    } else {
        None
    }
}

fn byte_at_is(h: &[u8], i: usize, b: u8) -> (r: bool)
    ensures
        r == byte_is(h@, i as int, b),
{
    i < h.len() && h[i] == b
}

/// Recognises the container format from the first bytes of a file (up to twelve are looked at).
pub fn format_from_header(header: &[u8]) -> (f: Option<String>)
    ensures
        f is Some <==> header_format(header@) is Some,
        f matches Some(name) ==> header_format(header@) == Some(name@),
{
    let h = header;
    if byte_at_is(h, 0, 0x52) && byte_at_is(h, 1, 0x49) && byte_at_is(h, 2, 0x46) && byte_at_is(h, 3, 0x46)
        && byte_at_is(h, 8, 0x57) && byte_at_is(h, 9, 0x41) && byte_at_is(h, 10, 0x56) && byte_at_is(h, 11, 0x45) {
        Some(owned("wav"))
    } else if (byte_at_is(h, 0, 0x49) && byte_at_is(h, 1, 0x44) && byte_at_is(h, 2, 0x33)) || (byte_at_is(h, 0, 0xFF)
        && byte_at_is(h, 1, 0xFB)) {
        Some(owned("mp3"))
    } else if byte_at_is(h, 4, 0x66) && byte_at_is(h, 5, 0x74) && byte_at_is(h, 6, 0x79) && byte_at_is(h, 7, 0x70) {
        Some(owned("m4a"))
    } else if byte_at_is(h, 0, 0x66) && byte_at_is(h, 1, 0x4C) && byte_at_is(h, 2, 0x61) && byte_at_is(h, 3, 0x43) {
        Some(owned("flac"))
    } else if byte_at_is(h, 0, 0x4F) && byte_at_is(h, 1, 0x67) && byte_at_is(h, 2, 0x67) && byte_at_is(h, 3, 0x53) {
        Some(owned("ogg"))
    } else {
        None
    }
}

/// What `std::path::Path::extension` gives for a path: the part of its last
/// component after the final dot, if there is one.
pub uninterp spec fn path_extension(path: Seq<char>) -> Option<Seq<char>>;

/// What `str::to_lowercase` gives for a text.
pub uninterp spec fn unicode_lowercase(s: Seq<char>) -> Seq<char>;

/// Calls `std::path::Path::extension` on `path`. The contract claims only that
/// the result is `path_extension(path)`; an extension of a path that came from a
/// `&str` is always valid text.
#[verifier::external_body]
fn extension_of(path: &str) -> (r: Option<String>)
    ensures
        r is Some <==> path_extension(path@) is Some,
        r matches Some(e) ==> path_extension(path@) == Some(e@),
{
    let e = std::path::Path::new(path).extension()?;
    Some(e.to_string_lossy().into_owned())
}

/// Calls `str::to_lowercase`; the contract claims only that the result is
/// `unicode_lowercase(s)`.
#[verifier::external_body]
fn lowercase_of(s: &str) -> (r: String)
    ensures
        r@ == unicode_lowercase(s@),
{
    s.to_lowercase()
}

/// The lower-cased extension of `path`, the key the format checks go by; empty
/// when the path has none.
pub open spec fn extension_key(path: Seq<char>) -> Seq<char> {
    match path_extension(path) {
        Some(e) => unicode_lowercase(e),
        None => Seq::empty(),
    }
}

/// The format a file name announces: its extension, lower-cased.
pub fn format_from_extension(path: &str) -> (f: Option<String>)
    ensures
        f is Some <==> path_extension(path@) is Some,
        f matches Some(name) ==> name@ == extension_key(path@),
{
    match extension_of(path) {
        Some(e) => Some(lowercase_of(e.as_str())),
        None => None,
    }
}

/// Whether `key` is one of `formats`.
pub fn contains_format(formats: &Vec<String>, key: &str) -> (b: bool)
    ensures
        b <==> exists|i: int| 0 <= i < formats@.len() && (#[trigger] formats@[i])@ == key@,
{
    let mut i: usize = 0;
    while i < formats.len()
        invariant
            i <= formats@.len(),
            forall|j: int| 0 <= j < i ==> (#[trigger] formats@[j])@ != key@,
        decreases formats.len() - i,
    {
        if str_eq(formats[i].as_str(), key) {
            assert(formats@[i as int]@ == key@);
            return true;
        }
        i = i + 1;
    }
    false
}

/// The checks made on an upload before it is decoded.
#[derive(Debug, Clone)]
pub struct AudioProcessor {
    config: Config,
}

impl AudioProcessor {
    /// The configuration the checks go by.
    pub closed spec fn settings(&self) -> Config {
        self.config
    }

    pub fn new(config: Config) -> (p: Self)
        ensures
            p.settings() == config,
    {
        AudioProcessor { config }
    }

    /// Whether the extension of `filename`, lower-cased, is one of the
    /// configured formats.
    pub fn is_supported_format(&self, filename: &str) -> (b: bool)
        ensures
            b <==> exists|i: int|
                0 <= i < self.settings().audio.supported_formats@.len()
                    && (#[trigger] self.settings().audio.supported_formats@[i])@ == extension_key(
                    filename@,
                ),
    {
        let key = match format_from_extension(filename) {
            Some(k) => k,
            None => String::new(),
        };
        assert(key@ == extension_key(filename@));
        let found = contains_format(&self.config.audio.supported_formats, key.as_str());
        proof {
            let formats = self.settings().audio.supported_formats@;
            assert(formats == self.config.audio.supported_formats@);
            if found {
                let i = choose|i: int| 0 <= i < formats.len() && (#[trigger] formats[i])@ == key@;
                assert(formats[i]@ == extension_key(filename@));
            }
        }
        found
    }

    /// The upload size rule: at most `max_file_size_mb` megabytes.
    pub fn validate_file_size(&self, size_bytes: usize) -> (r: Result<(), String>)
        requires
            self.settings().limits.max_file_size_mb * 1024 * 1024 <= usize::MAX,
        ensures
            r is Ok <==> size_bytes <= self.settings().limits.max_file_size_mb * 1024 * 1024,
            r matches Err(m) ==> m@ == file_size_exceeded_message(
                size_bytes as nat,
                (self.settings().limits.max_file_size_mb * 1024 * 1024) as nat,
            ),
    {
        self.config.check_file_size(size_bytes)
    }
}

/// The format name recorded for a probed file: its extension lower-cased, or
/// `unknown`.
pub fn metadata_format_name(path: &str) -> (name: String)
    ensures
        path_extension(path@) is Some ==> name@ == extension_key(path@),
        path_extension(path@) is None ==> name@ == "unknown"@,
{
    match format_from_extension(path) {
        Some(f) => f,
        None => owned("unknown"),
    }
}

/// The suffix of the temporary file an upload is written to: a dot and the
/// upload's extension as given, or `.bin`.
pub fn temp_file_suffix(filename: &str) -> (suffix: String)
    ensures
        suffix@ == seq!['.'] + match path_extension(filename@) {
            Some(e) => e,
            None => "bin"@,
        },
{
    let mut suffix = owned(".");
    proof { reveal_strlit("."); }
    match extension_of(filename) {
        Some(e) => push_str(&mut suffix, e.as_str()),
        None => push_str(&mut suffix, "bin"),
    }
    suffix
}

/// `a + b`, or `u64::MAX` when that does not fit.
pub open spec fn saturating_sum(a: u64, b: u64) -> u64 {
    if a + b > u64::MAX {
        u64::MAX
    } else {
        (a + b) as u64
    }
}

/// Running totals of the packets of the probed track: their durations and
/// block durations, each saturating at `u64::MAX`.
#[derive(Debug, Clone, Copy)]
pub struct PacketTally {
    pub total_duration: u64,
    pub total_frames: u64,
}

impl PacketTally {
    pub fn new() -> (t: Self)
        ensures
            t.total_duration == 0,
            t.total_frames == 0,
    {
        PacketTally { total_duration: 0, total_frames: 0 }
    }

    /// Counts a packet read while probing; packets of other tracks are skipped.
    pub fn add(&mut self, track_id: u32, packet_track: u32, duration: u64, block_duration: u64)
        ensures
            packet_track == track_id ==> final(self).total_duration == saturating_sum(
                old(self).total_duration,
                duration,
            ) && final(self).total_frames == saturating_sum(old(self).total_frames, block_duration),
            packet_track != track_id ==> *final(self) == *old(self),
    {
        if packet_track != track_id {
            return;
        }
        self.total_duration = if self.total_duration > u64::MAX - duration {
            u64::MAX
        } else {
            self.total_duration + duration
        };
        self.total_frames = if self.total_frames > u64::MAX - block_duration {
            u64::MAX
        } else {
            self.total_frames + block_duration
        };
    }

    /// A file whose track has neither duration nor frames holds no audio.
    pub fn check_not_empty(&self) -> (r: Result<(), String>)
        ensures
            r is Ok <==> !(self.total_duration == 0 && self.total_frames == 0),
            r matches Err(m) ==> m@ == "音声データが空です"@,
    {
        if self.total_duration == 0 && self.total_frames == 0 {
            return Err(owned("音声データが空です"));
        }
        Ok(())
    }
}

// =============================================================================
// Probing
// =============================================================================

/// The number of symphonia's null codec (`CODEC_TYPE_NULL`), which a track
/// that carries no codec names.
pub const NULL_CODEC: u32 = 0;

/// A track of a probed file, as the probe describes it: its id, the number of
/// its codec, its sample rate, its channel count and its time base
/// (numerator, denominator), where known.
#[derive(Debug, Clone, Copy)]
pub struct ProbedTrack {
    pub id: u32,
    pub codec: u32,
    pub sample_rate: Option<u32>,
    pub channels: Option<usize>,
    pub time_base: Option<(u32, u32)>,
}

/// How reading the packets of a probed file stopped: the reader asked for a
/// reset, an input error (of kind unexpected end of input or another kind),
/// or another failure; the texts are the errors' messages.
#[derive(Debug, Clone)]
pub enum ReadStop {
    ResetRequired,
    Io { unexpected_eof: bool, text: String },
    Failed { text: String },
}

/// The error a stop of the packet reading is: none when the stream simply
/// ended (a reset request, or the input ending), else the error's text.
pub open spec fn stop_error(stop: ReadStop) -> Option<Seq<char>> {
    match stop {
        ReadStop::ResetRequired => None,
        ReadStop::Io { unexpected_eof, text } => if unexpected_eof {
            None
        } else {
            Some(text@)
        },
        ReadStop::Failed { text } => Some(text@),
    }
}

/// Whether the reading stopped because the stream ended, and if not, the
/// error's text.
pub fn read_error_of(stop: ReadStop) -> (e: Option<String>)
    ensures
        e is None <==> stop_error(stop) is None,
        e matches Some(t) ==> stop_error(stop) == Some(t@),
{
    match stop {
        ReadStop::ResetRequired => None,
        ReadStop::Io { unexpected_eof, text } => if unexpected_eof {
            None
        } else {
            Some(text)
        },
        ReadStop::Failed { text } => Some(text),
    }
}

/// Track `k` is the first track that names a codec.
pub open spec fn is_first_audio_track(tracks: Seq<ProbedTrack>, k: int) -> bool {
    &&& 0 <= k < tracks.len()
    &&& tracks[k].codec != NULL_CODEC
    &&& forall|j: int| 0 <= j < k ==> (#[trigger] tracks[j]).codec == NULL_CODEC
}

/// Some track names a codec.
pub open spec fn has_audio_track(tracks: Seq<ProbedTrack>) -> bool {
    exists|k: int| 0 <= k < tracks.len() && (#[trigger] tracks[k]).codec != NULL_CODEC
}

/// The index of the first track that names a codec.
pub open spec fn first_audio_track(tracks: Seq<ProbedTrack>) -> int {
    choose|k: int| is_first_audio_track(tracks, k)
}

/// The saturating totals of duration and block duration of the packets
/// (track id, duration, block duration) of track `track`.
pub open spec fn tally_of(packets: Seq<(u32, u64, u64)>, track: u32) -> (u64, u64)
    decreases packets.len(),
{
    if packets.len() == 0 {
        (0, 0)
    } else {
        let prev = tally_of(packets.drop_last(), track);
        let q = packets.last();
        if q.0 == track {
            (saturating_sum(prev.0, q.1), saturating_sum(prev.1, q.2))
        } else {
            prev
        }
    }
}

/// The channel count recorded for a track: its own, or one when unknown.
pub open spec fn channel_count(channels: Option<usize>) -> u16 {
    match channels {
        Some(c) => c as u16,
        None => 1,
    }
}

/// What a probe yields from the tracks and packets read: the sample rate,
/// channel count, time base and packet totals of the first track that names
/// a codec, or the message of the first rule the file breaks.
pub open spec fn probe_outcome(
    tracks: Seq<ProbedTrack>,
    packets: Seq<(u32, u64, u64)>,
    read_error: Option<Seq<char>>,
) -> Result<(u32, u16, Option<(u32, u32)>, (u64, u64)), Seq<char>> {
    if !has_audio_track(tracks) {
        Err("音声トラックが見つかりません"@)
    } else {
        let t = tracks[first_audio_track(tracks)];
        match t.sample_rate {
            None => Err("サンプリングレートが取得できません"@),
            Some(rate) => match read_error {
                Some(e) => Err("パケット読み込みエラー: "@ + e),
                None => {
                    let totals = tally_of(packets, t.id);
                    if totals.0 == 0 && totals.1 == 0 {
                        Err("音声データが空です"@)
                    } else {
                        Ok((rate, channel_count(t.channels), t.time_base, totals))
                    }
                },
            },
        }
    }
}

/// The format name recorded for a probed file: its lower-cased extension, or
/// `unknown`.
pub open spec fn metadata_format(path: Seq<char>) -> Seq<char> {
    if path_extension(path) is Some {
        extension_key(path)
    } else {
        "unknown"@
    }
}

/// The metadata of a probed file, all but its duration in seconds.
#[derive(Debug, Clone)]
pub struct ProbeSummary {
    pub sample_rate: u32,
    pub channels: u16,
    pub time_base: Option<(u32, u32)>,
    pub total_duration: u64,
    pub total_frames: u64,
    pub file_size_bytes: u64,
    pub format: String,
}

/// `s` carries `outcome`'s values, the file size and the path's format name.
pub open spec fn summary_matches(
    s: ProbeSummary,
    outcome: (u32, u16, Option<(u32, u32)>, (u64, u64)),
    path: Seq<char>,
    file_size_bytes: u64,
) -> bool {
    &&& s.sample_rate == outcome.0
    &&& s.channels == outcome.1
    &&& s.time_base == outcome.2
    &&& s.total_duration == outcome.3.0
    &&& s.total_frames == outcome.3.1
    &&& s.file_size_bytes == file_size_bytes
    &&& s.format@ == metadata_format(path)
}

fn find_audio_track(tracks: &Vec<ProbedTrack>) -> (k: usize)
    ensures
        k <= tracks@.len(),
        k == tracks@.len() <==> !has_audio_track(tracks@),
        k < tracks@.len() ==> is_first_audio_track(tracks@, k as int) && first_audio_track(tracks@) == k,
{
    let mut k: usize = 0;
    while k < tracks.len() && tracks[k].codec == NULL_CODEC
        invariant
            k <= tracks@.len(),
            forall|j: int| 0 <= j < k ==> (#[trigger] tracks@[j]).codec == NULL_CODEC,
        decreases tracks.len() - k,
    {
        k = k + 1;
    }
    if k < tracks.len() {
        assert(is_first_audio_track(tracks@, k as int));
        proof {
            let c = first_audio_track(tracks@);
            assert(is_first_audio_track(tracks@, c));
            if c < k as int {
                assert(tracks@[c].codec == NULL_CODEC);
            } else if c > k as int {
                assert(tracks@[k as int].codec == NULL_CODEC);
            }
        }
    }
    k
}

/// Sums the packets of track `track` as the probe does.
fn tally_packets(packets: &Vec<(u32, u64, u64)>, track: u32) -> (t: PacketTally)
    ensures
        (t.total_duration, t.total_frames) == tally_of(packets@, track),
{
    let mut t = PacketTally::new();
    let mut i: usize = 0;
    while i < packets.len()
        invariant
            i <= packets@.len(),
            (t.total_duration, t.total_frames) == tally_of(packets@.take(i as int), track),
        decreases packets.len() - i,
    {
        let q = packets[i];
        t.add(track, q.0, q.1, q.2);
        proof {
            assert(packets@.take(i + 1).drop_last() =~= packets@.take(i as int));
        }
        i = i + 1;
    }
    assert(packets@.take(i as int) =~= packets@);
    t
}

/// The metadata of a file from what its probe gave: the first track that
/// names a codec is described, with its sample rate (required), its channel
/// count (one when unknown) and the totals of its packets (a file whose totals
/// are both zero holds no audio); an error that stopped the packet reading
/// fails the probe.
pub fn summarize_probe(
    tracks: &Vec<ProbedTrack>,
    packets: &Vec<(u32, u64, u64)>,
    stop: ReadStop,
    path: &str,
    file_size_bytes: u64,
) -> (r: Result<ProbeSummary, String>)
    ensures
        r is Ok <==> probe_outcome(tracks@, packets@, stop_error(stop)) is Ok,
        r matches Ok(s) ==> summary_matches(
            s,
            probe_outcome(tracks@, packets@, stop_error(stop))->Ok_0,
            path@,
            file_size_bytes,
        ),
        r matches Err(m) ==> probe_outcome(tracks@, packets@, stop_error(stop))->Err_0 == m@,
{
    let k = find_audio_track(tracks);
    if k == tracks.len() {
        return Err(owned("音声トラックが見つかりません"));
    }
    let t = tracks[k];
    assert(tracks@[k as int].codec != NULL_CODEC && has_audio_track(tracks@));
    let sample_rate = match t.sample_rate {
        Some(rate) => rate,
        None => return Err(owned("サンプリングレートが取得できません")),
    };
    let channels: u16 = match t.channels {
        Some(c) => c as u16,
        None => 1,
    };
    if let Some(e) = read_error_of(stop) {
        let mut m = owned("パケット読み込みエラー: ");
        push_str(&mut m, e.as_str());
        return Err(m);
    }
    let tally = tally_packets(packets, t.id);
    match tally.check_not_empty() {
        Err(m) => return Err(m),
        Ok(()) => {},
    }
    Ok(ProbeSummary {
        sample_rate,
        channels,
        time_base: t.time_base,
        total_duration: tally.total_duration,
        total_frames: tally.total_frames,
        file_size_bytes,
        format: metadata_format_name(path),
    })
}

} // verus!
