//! API data models of the batch transcription service: segments and their
//! subtitle renderings, the model catalog, request statistics and error codes.
use vstd::prelude::*;
use crate::backend::handlers::{digits_value, is_digit};
use crate::text::{decimal, digit_char, zero_padded, push_decimal, push_zero_padded, push_str, owned, str_eq};

verus! {

// =============================================================================
// API request / response models
// =============================================================================

/// Options of a transcription request.
#[derive(Debug)]
pub struct TranscribeRequest {
    pub language: Option<String>,
    pub translate_to_english: Option<bool>,
    pub include_timestamps: Option<bool>,
}

/// Result of a transcription request.
#[derive(Debug)]
pub struct TranscribeResponse {
    pub text: String,
    pub language: Option<String>,
    pub duration_ms: Option<u64>,
    pub segments: Option<Vec<TranscriptionSegment>>,
    pub processing_time_ms: u64,
}

/// A model as listed by the models endpoint.
#[derive(Debug, Clone)]
pub struct ModelInfo {
    pub name: String,
    pub file_path: String,
    pub size_mb: u64,
    pub description: String,
    pub language_support: Vec<String>,
    pub is_available: bool,
}

/// Answer of the models endpoint.
#[derive(Debug)]
pub struct ModelsResponse {
    pub models: Vec<ModelInfo>,
    pub current_model: String,
}

/// Answer of the health endpoint.
#[derive(Debug)]
pub struct HealthResponse {
    pub status: String,
    pub version: String,
    pub model_loaded: bool,
    pub uptime_seconds: u64,
    pub memory_usage_mb: Option<u64>,
}

/// Body of an error answer.
#[derive(Debug)]
pub struct ErrorResponse {
    pub error: String,
    pub code: String,
    pub details: Option<String>,
}

// =============================================================================
// Transcription segments
// =============================================================================

/// A piece of recognised text with its start and end time in milliseconds.
#[derive(Debug, Clone)]
pub struct TranscriptionSegment {
    pub text: String,
    pub start_time_ms: u64,
    pub end_time_ms: u64,
}

/// `h:m:s<sep>mmm` for a time in milliseconds, each field zero-padded
/// (hours to at least two digits, milliseconds to three).
pub open spec fn clock_text(ms: nat, sep: char) -> Seq<char> {
    let total = ms / 1000;
    zero_padded(decimal(total / 3600), 2) + seq![':'] + zero_padded(decimal((total / 60) % 60), 2)
        + seq![':'] + zero_padded(decimal(total % 60), 2) + seq![sep] + zero_padded(
        decimal(ms % 1000),
        3,
    )
}

/// The SubRip (SRT) time stamp `HH:MM:SS,mmm`.
pub open spec fn srt_time(ms: nat) -> Seq<char> {
    clock_text(ms, ',')
}

/// The WebVTT time stamp `HH:MM:SS.mmm`.
pub open spec fn vtt_time(ms: nat) -> Seq<char> {
    clock_text(ms, '.')
}

proof fn lemma_digit_char(d: nat)
    requires
        d < 10,
    ensures
        is_digit(digit_char(d)),
        (digit_char(d) as u32) as int - 48 == d,
{
}

proof fn lemma_two_digits(n: nat)
    requires
        n < 100,
    ensures
        zero_padded(decimal(n), 2) == seq![digit_char(n / 10), digit_char(n % 10)],
{
    if n < 10 {
        assert(decimal(n) == seq![digit_char(n)]);
        assert(zero_padded(decimal(n), 2) =~= seq![digit_char(0), digit_char(n)]);
    } else {
        assert(decimal(n / 10) == seq![digit_char(n / 10)]);
        assert(decimal(n) =~= seq![digit_char(n / 10), digit_char(n % 10)]);
    }
}

proof fn lemma_three_digits(n: nat)
    requires
        n < 1000,
    ensures
        zero_padded(decimal(n), 3) == seq![digit_char(n / 100), digit_char((n / 10) % 10), digit_char(n % 10)],
{
    if n < 10 {
        assert(decimal(n) == seq![digit_char(n)]);
        assert(zero_padded(decimal(n), 3) =~= seq![digit_char(0), digit_char(0), digit_char(n)]);
    } else if n < 100 {
        assert(decimal(n / 10) == seq![digit_char(n / 10)]);
        assert(decimal(n) =~= seq![digit_char(n / 10), digit_char(n % 10)]);
        assert(zero_padded(decimal(n), 3) =~= seq![digit_char(0), digit_char(n / 10), digit_char(n % 10)]);
    } else {
        assert(decimal(n / 100) == seq![digit_char(n / 100)]);
        assert((n / 10) / 10 == n / 100);
        assert(decimal(n / 10) =~= seq![digit_char(n / 100), digit_char((n / 10) % 10)]);
        assert(decimal(n) =~= seq![digit_char(n / 100), digit_char((n / 10) % 10), digit_char(n % 10)]);
    }
}

proof fn lemma_digits_value2(a: nat, b: nat)
    requires
        a < 10,
        b < 10,
    ensures
        digits_value(seq![digit_char(a), digit_char(b)]) == 10 * a + b,
{
    lemma_digit_char(a);
    lemma_digit_char(b);
    let s = seq![digit_char(a), digit_char(b)];
    assert(digits_value(Seq::<char>::empty()) == 0);
    assert(seq![digit_char(a)].drop_last() =~= Seq::<char>::empty());
    assert(seq![digit_char(a)].last() == digit_char(a));
    assert(digits_value(seq![digit_char(a)]) == a);
    assert(s.drop_last() =~= seq![digit_char(a)]);
}

proof fn lemma_digits_value3(a: nat, b: nat, c: nat)
    requires
        a < 10,
        b < 10,
        c < 10,
    ensures
        digits_value(seq![digit_char(a), digit_char(b), digit_char(c)]) == 100 * a + 10 * b + c,
{
    lemma_digit_char(c);
    lemma_digits_value2(a, b);
    let s = seq![digit_char(a), digit_char(b), digit_char(c)];
    assert(s.drop_last() =~= seq![digit_char(a), digit_char(b)]);
}

/// An SRT time stamp of a time under a hundred hours reads back to its
/// milliseconds: it is `HH:MM:SS,mmm` with two-digit hours, minutes and
/// seconds (minutes and seconds below sixty) and three-digit milliseconds,
/// whose value is the time; the WebVTT stamp is the same with `.` for `,`.
pub proof fn law_srt_time_reads_back(ms: nat)
    requires
        ms < 360_000_000,
    ensures
        srt_time(ms).len() == 12,
        srt_time(ms)[2] == ':' && srt_time(ms)[5] == ':' && srt_time(ms)[8] == ',',
        forall|i: int|
            0 <= i < 12 && i != 2 && i != 5 && i != 8 ==> is_digit(#[trigger] srt_time(ms)[i]),
        digits_value(srt_time(ms).subrange(3, 5)) < 60,
        digits_value(srt_time(ms).subrange(6, 8)) < 60,
        digits_value(srt_time(ms).subrange(0, 2)) * 3_600_000 + digits_value(srt_time(ms).subrange(3, 5))
            * 60_000 + digits_value(srt_time(ms).subrange(6, 8)) * 1000 + digits_value(
            srt_time(ms).subrange(9, 12),
        ) == ms,
        vtt_time(ms) == srt_time(ms).update(8, '.'),
{
    let total = ms / 1000;
    let h = total / 3600;
    let m = (total / 60) % 60;
    let sec = total % 60;
    let milli = ms % 1000;
    assert(h < 100);
    lemma_two_digits(h);
    lemma_two_digits(m);
    lemma_two_digits(sec);
    lemma_three_digits(milli);
    let t = srt_time(ms);
    let hs = seq![digit_char(h / 10), digit_char(h % 10)];
    let ms2 = seq![digit_char(m / 10), digit_char(m % 10)];
    let ss = seq![digit_char(sec / 10), digit_char(sec % 10)];
    let mm = seq![digit_char(milli / 100), digit_char((milli / 10) % 10), digit_char(milli % 10)];
    assert(t =~= hs + seq![':'] + ms2 + seq![':'] + ss + seq![','] + mm);
    assert(t.subrange(0, 2) =~= hs);
    assert(t.subrange(3, 5) =~= ms2);
    assert(t.subrange(6, 8) =~= ss);
    assert(t.subrange(9, 12) =~= mm);
    lemma_digits_value2(h / 10, h % 10);
    lemma_digits_value2(m / 10, m % 10);
    lemma_digits_value2(sec / 10, sec % 10);
    lemma_digits_value3(milli / 100, (milli / 10) % 10, milli % 10);
    lemma_digit_char(h / 10);
    lemma_digit_char(h % 10);
    lemma_digit_char(m / 10);
    lemma_digit_char(m % 10);
    lemma_digit_char(sec / 10);
    lemma_digit_char(sec % 10);
    lemma_digit_char(milli / 100);
    lemma_digit_char((milli / 10) % 10);
    lemma_digit_char(milli % 10);
    assert(100 * (milli / 100) + 10 * ((milli / 10) % 10) + milli % 10 == milli) by {
        assert((milli / 10) / 10 == milli / 100);
    }
    assert(h * 3600 + m * 60 + sec == total) by {
        assert((total / 60) / 60 == total / 3600);
    }
    assert(total * 1000 + milli == ms);
    assert(vtt_time(ms) =~= t.update(8, '.'));
}

/// The SRT block of a segment with the given 1-based cue number.
pub open spec fn srt_block(text: Seq<char>, start: nat, end: nat, number: nat) -> Seq<char> {
    decimal(number) + seq!['\n'] + srt_time(start) + seq![' ', '-', '-', '>', ' '] + srt_time(end)
        + seq!['\n'] + text + seq!['\n', '\n']
}

/// The WebVTT cue of a segment.
pub open spec fn vtt_block(text: Seq<char>, start: nat, end: nat) -> Seq<char> {
    vtt_time(start) + seq![' ', '-', '-', '>', ' '] + vtt_time(end) + seq!['\n'] + text + seq![
        '\n',
        '\n',
    ]
}

impl TranscriptionSegment {
    pub fn new(text: String, start_time_ms: u64, end_time_ms: u64) -> (seg: Self)
        ensures
            seg.text == text,
            seg.start_time_ms == start_time_ms,
            seg.end_time_ms == end_time_ms,
    {
        TranscriptionSegment { text, start_time_ms, end_time_ms }
    }

    /// Length of the segment; zero when the end lies before the start.
    pub fn duration_ms(&self) -> (d: u64)
        ensures
            d == if self.end_time_ms >= self.start_time_ms {
                (self.end_time_ms - self.start_time_ms) as u64
            } else {
                0u64
            },
    {
        self.end_time_ms.saturating_sub(self.start_time_ms)
    }

    /// The SRT cue of this segment; `index` is 0-based, the cue number is `index + 1`.
    pub fn to_srt_format(&self, index: usize) -> (s: String)
        requires
            index < usize::MAX,
        ensures
            s@ == srt_block(
                self.text@,
                self.start_time_ms as nat,
                self.end_time_ms as nat,
                (index + 1) as nat,
            ),
    {
        let start_time = Self::ms_to_srt_time(self.start_time_ms);
        let end_time = Self::ms_to_srt_time(self.end_time_ms);
        let mut out = String::new();
        push_decimal(&mut out, (index + 1) as u64);
        proof { reveal_strlit("\n"); reveal_strlit(" --> "); reveal_strlit("\n\n"); }
        push_str(&mut out, "\n");
        push_str(&mut out, start_time.as_str());
        push_str(&mut out, " --> ");
        push_str(&mut out, end_time.as_str());
        push_str(&mut out, "\n");
        push_str(&mut out, self.text.as_str());
        push_str(&mut out, "\n\n");
        proof {
            assert(out@ =~= srt_block(
                self.text@,
                self.start_time_ms as nat,
                self.end_time_ms as nat,
                (index + 1) as nat,
            ));
        }
        out
    }

    /// The WebVTT cue of this segment.
    pub fn to_vtt_format(&self) -> (s: String)
        ensures
            s@ == vtt_block(self.text@, self.start_time_ms as nat, self.end_time_ms as nat),
    {
        let start_time = Self::ms_to_vtt_time(self.start_time_ms);
        let end_time = Self::ms_to_vtt_time(self.end_time_ms);
        let mut out = String::new();
        proof { reveal_strlit("\n"); reveal_strlit(" --> "); reveal_strlit("\n\n"); }
        push_str(&mut out, start_time.as_str());
        push_str(&mut out, " --> ");
        push_str(&mut out, end_time.as_str());
        push_str(&mut out, "\n");
        push_str(&mut out, self.text.as_str());
        push_str(&mut out, "\n\n");
        proof {
            assert(out@ =~= vtt_block(self.text@, self.start_time_ms as nat, self.end_time_ms as nat));
        }
        out
    }

    fn ms_to_clock(ms: u64, comma: bool) -> (s: String)
        ensures
            s@ == clock_text(ms as nat, if comma { ',' } else { '.' }),
    {
        let total_seconds = ms / 1000;
        let milliseconds = ms % 1000;
        let seconds = total_seconds % 60;
        let minutes = (total_seconds / 60) % 60;
        let hours = total_seconds / 3600;
        let mut out = String::new();
        proof { reveal_strlit(":"); reveal_strlit(","); reveal_strlit("."); }
        push_zero_padded(&mut out, hours, 2);
        push_str(&mut out, ":");
        push_zero_padded(&mut out, minutes, 2);
        push_str(&mut out, ":");
        push_zero_padded(&mut out, seconds, 2);
        if comma {
            push_str(&mut out, ",");
        } else {
            push_str(&mut out, ".");
        }
        push_zero_padded(&mut out, milliseconds, 3);
        proof {
            assert(out@ =~= clock_text(ms as nat, if comma { ',' } else { '.' }));
        }
        out
    }

    fn ms_to_srt_time(ms: u64) -> (s: String)
        ensures
            s@ == srt_time(ms as nat),
    {
        Self::ms_to_clock(ms, true)
    }

    fn ms_to_vtt_time(ms: u64) -> (s: String)
        ensures
            s@ == vtt_time(ms as nat),
    {
        Self::ms_to_clock(ms, false)
    }
}


// =============================================================================
// Model catalog
// =============================================================================

/// Size class of a Whisper model.
#[derive(Debug, Clone, Copy, PartialEq, Eq, Structural)]
pub enum ModelQuality {
    Tiny,
    Base,
    Small,
    Medium,
    Large,
    LargeV2,
    LargeV3,
}

/// The lower-case name of a quality class.
pub open spec fn quality_name(q: ModelQuality) -> Seq<char> {
    match q {
        ModelQuality::Tiny => "tiny"@,
        ModelQuality::Base => "base"@,
        ModelQuality::Small => "small"@,
        ModelQuality::Medium => "medium"@,
        ModelQuality::Large => "large"@,
        ModelQuality::LargeV2 => "large-v2"@,
        ModelQuality::LargeV3 => "large-v3"@,
    }
}

impl ModelQuality {
    pub fn to_string(&self) -> (s: &'static str)
        ensures
            s@ == quality_name(*self),
    {
        match self {
            ModelQuality::Tiny => "tiny",
            ModelQuality::Base => "base",
            ModelQuality::Small => "small",
            ModelQuality::Medium => "medium",
            ModelQuality::Large => "large",
            ModelQuality::LargeV2 => "large-v2",
            ModelQuality::LargeV3 => "large-v3",
        }
    }
}

/// A downloadable model of the catalog.
#[derive(Debug, Clone)]
pub struct ModelDefinition {
    pub name: String,
    pub file_name: String,
    pub download_url: String,
    pub size_mb: u64,
    pub description: String,
    pub language_support: Vec<String>,
    pub quality: ModelQuality,
}

/// The definition stored for `key` in an entry list: the first entry with that key.
pub open spec fn lookup_entry(entries: Seq<(Seq<char>, ModelDefinition)>, key: Seq<char>) -> Option<
    ModelDefinition,
>
    decreases entries.len(),
{
    if entries.len() == 0 {
        None
    } else if entries[0].0 == key {
        Some(entries[0].1)
    } else {
        lookup_entry(entries.drop_first(), key)
    }
}

/// The keys of an entry list, in order.
pub open spec fn entry_keys(entries: Seq<(Seq<char>, ModelDefinition)>) -> Seq<Seq<char>> {
    entries.map_values(|e: (Seq<char>, ModelDefinition)| e.0)
}

/// Model definitions keyed by model name, in insertion order, each key at most once.
#[derive(Debug)]
pub struct ModelMap {
    entries: Vec<(String, ModelDefinition)>,
}

impl View for ModelMap {
    type V = Seq<(Seq<char>, ModelDefinition)>;

    closed spec fn view(&self) -> Seq<(Seq<char>, ModelDefinition)> {
        self.entries@.map_values(|e: (String, ModelDefinition)| (e.0@, e.1))
    }
}

proof fn lemma_lookup_index(entries: Seq<(Seq<char>, ModelDefinition)>, key: Seq<char>, i: int)
    requires
        0 <= i < entries.len(),
        entries[i].0 == key,
        forall|j: int| 0 <= j < i ==> entries[j].0 != key,
    ensures
        lookup_entry(entries, key) == Some(entries[i].1),
    decreases i,
{
    if i > 0 {
        lemma_lookup_index(entries.drop_first(), key, i - 1);
    }
}

proof fn lemma_lookup_absent(entries: Seq<(Seq<char>, ModelDefinition)>, key: Seq<char>)
    requires
        forall|j: int| 0 <= j < entries.len() ==> entries[j].0 != key,
    ensures
        lookup_entry(entries, key) is None,
    decreases entries.len(),
{
    if entries.len() > 0 {
        lemma_lookup_absent(entries.drop_first(), key);
    }
}

proof fn lemma_lookup_push(
    entries: Seq<(Seq<char>, ModelDefinition)>,
    e: (Seq<char>, ModelDefinition),
    key: Seq<char>,
)
    ensures
        lookup_entry(entries.push(e), key) == if lookup_entry(entries, key) is Some {
            lookup_entry(entries, key)
        } else if e.0 == key {
            Some(e.1)
        } else {
            None
        },
    decreases entries.len(),
{
    if entries.len() == 0 {
        assert(entries.push(e).drop_first() =~= Seq::<(Seq<char>, ModelDefinition)>::empty());
        assert(lookup_entry(entries.push(e).drop_first(), key) is None);
    } else {
        assert(entries.push(e).drop_first() =~= entries.drop_first().push(e));
        assert(entries.push(e)[0] == entries[0]);
        lemma_lookup_push(entries.drop_first(), e, key);
    }
}

proof fn lemma_lookup_update(
    entries: Seq<(Seq<char>, ModelDefinition)>,
    i: int,
    d: ModelDefinition,
    key: Seq<char>,
)
    requires
        0 <= i < entries.len(),
    ensures
        lookup_entry(entries.update(i, (entries[i].0, d)), key) == if entries[i].0 == key && (
        forall|j: int| 0 <= j < i ==> entries[j].0 != key) {
            Some(d)
        } else {
            lookup_entry(entries, key)
        },
    decreases i,
{
    let u = entries.update(i, (entries[i].0, d));
    if i == 0 {
        assert(u.drop_first() =~= entries.drop_first());
    } else {
        assert(u.drop_first() =~= entries.drop_first().update(i - 1, (entries[i].0, d)));
        assert(u[0] == entries[0]);
        assert(entries.drop_first()[i - 1] == entries[i]);
        lemma_lookup_update(entries.drop_first(), i - 1, d, key);
        if entries[0].0 != key {
            assert((forall|j: int| 0 <= j < i ==> entries[j].0 != key) == (forall|j: int|
                0 <= j < i - 1 ==> entries.drop_first()[j].0 != key)) by {
                if forall|j: int| 0 <= j < i - 1 ==> entries.drop_first()[j].0 != key {
                    assert forall|j: int| 0 <= j < i implies entries[j].0 != key by {
                        if j > 0 {
                            assert(entries[j] == entries.drop_first()[j - 1]);
                        }
                    }
                }
            }
        }
    }
}

impl Clone for ModelMap {
    /// A copy holding the same keys in the same order, each with a copy of its
    /// definition.
    fn clone(&self) -> (c: Self)
        ensures
            entry_keys(c@) == entry_keys(self@),
    {
        proof { use_type_invariant(self); }
        let mut entries: Vec<(String, ModelDefinition)> = Vec::new();
        let mut i: usize = 0;
        while i < self.entries.len()
            invariant
                i <= self.entries@.len(),
                entries@.len() == i,
                forall|j: int| 0 <= j < i ==> (#[trigger] entries@[j]).0@ == self.entries@[j].0@,
            decreases self.entries.len() - i,
        {
            entries.push((self.entries[i].0.clone(), self.entries[i].1.clone()));
            i = i + 1;
        }
        let ghost nv = entries@.map_values(|e: (String, ModelDefinition)| (e.0@, e.1));
        assert(entry_keys(nv) =~= entry_keys(self@));
        ModelMap { entries }
    }
}

impl ModelMap {
    /// Each key is stored at most once.
    #[verifier::type_invariant]
    spec fn keys_distinct(&self) -> bool {
        entry_keys(self@).no_duplicates()
    }

    /// The definition stored under `key`.
    pub open spec fn spec_lookup(&self, key: Seq<char>) -> Option<ModelDefinition> {
        lookup_entry(self@, key)
    }

    /// An empty map.
    pub fn new() -> (m: Self)
        ensures
            m@ == Seq::<(Seq<char>, ModelDefinition)>::empty(),
    {
        let ghost empty = Seq::<(Seq<char>, ModelDefinition)>::empty();
        let entries: Vec<(String, ModelDefinition)> = Vec::new();
        assert(entries@.map_values(|e: (String, ModelDefinition)| (e.0@, e.1)) =~= empty);
        assert(entry_keys(empty) =~= Seq::<Seq<char>>::empty());
        let m = ModelMap { entries };
        assert(m@ =~= empty);
        m
    }

    fn find(&self, key: &str) -> (r: Option<usize>)
        ensures
            match r {
                Some(i) => i < self@.len() && self@[i as int].0 == key@ && forall|j: int|
                    0 <= j < i ==> self@[j].0 != key@,
                None => forall|j: int| 0 <= j < self@.len() ==> self@[j].0 != key@,
            },
    {
        let mut i: usize = 0;
        while i < self.entries.len()
            invariant
                i <= self.entries@.len(),
                self@.len() == self.entries@.len(),
                forall|j: int| 0 <= j < i ==> self@[j].0 != key@,
            decreases self.entries.len() - i,
        {
            if str_eq(self.entries[i].0.as_str(), key) {
                return Some(i);
            }
            i = i + 1;
        }
        None
    }

    /// Stores `definition` under `key`, replacing an earlier definition of that key.
    pub fn insert(&mut self, key: String, definition: ModelDefinition)
        ensures
            forall|k: Seq<char>|
                #![trigger lookup_entry(final(self)@, k)]
                final(self).spec_lookup(k) == if k == key@ {
                    Some(definition)
                } else {
                    old(self).spec_lookup(k)
                },
            entry_keys(final(self)@) == if old(self).spec_lookup(key@) is Some {
                entry_keys(old(self)@)
            } else {
                entry_keys(old(self)@).push(key@)
            },
    {
        proof { use_type_invariant(&*self); }
        let ghost old_view = self@;
        let found = self.find(key.as_str());
        let mut entries: Vec<(String, ModelDefinition)> = Vec::new();
        std::mem::swap(&mut entries, &mut self.entries);
        assert(entries@.map_values(|e: (String, ModelDefinition)| (e.0@, e.1)) == old_view);
        match found {
            Some(i) => {
                let ghost i_int = i as int;
                proof { lemma_lookup_index(old_view, key@, i_int); }
                entries.set(i, (key, definition));
                let ghost nv = entries@.map_values(|e: (String, ModelDefinition)| (e.0@, e.1));
                proof {
                    assert(nv =~= old_view.update(i_int, (old_view[i_int].0, definition)));
                    assert forall|k: Seq<char>| #![trigger lookup_entry(nv, k)]
                        lookup_entry(nv, k) == if k == key@ {
                            Some(definition)
                        } else {
                            lookup_entry(old_view, k)
                        } by {
                        lemma_lookup_update(old_view, i_int, definition, k);
                    }
                    assert(entry_keys(nv) =~= entry_keys(old_view));
                }
                self.entries = entries;
            },
            None => {
                proof { lemma_lookup_absent(old_view, key@); }
                let ghost kv = key@;
                entries.push((key, definition));
                let ghost nv = entries@.map_values(|e: (String, ModelDefinition)| (e.0@, e.1));
                proof {
                    assert(nv =~= old_view.push((kv, definition)));
                    assert forall|k: Seq<char>| #![trigger lookup_entry(nv, k)]
                        lookup_entry(nv, k) == if k == kv {
                            Some(definition)
                        } else {
                            lookup_entry(old_view, k)
                        } by {
                        lemma_lookup_push(old_view, (kv, definition), k);
                    }
                    assert(entry_keys(nv) =~= entry_keys(old_view).push(kv));
                    assert forall|a: int, b: int|
                        0 <= a < entry_keys(nv).len() && 0 <= b < entry_keys(nv).len() && a != b implies
                        entry_keys(nv)[a] != entry_keys(nv)[b] by {
                        if a < old_view.len() && b < old_view.len() {
                            assert(entry_keys(old_view)[a] != entry_keys(old_view)[b]);
                        } else if a < old_view.len() {
                            assert(old_view[a].0 != kv);
                        } else if b < old_view.len() {
                            assert(old_view[b].0 != kv);
                        }
                    }
                }
                self.entries = entries;
            },
        }
    }

    /// Whether a definition is stored under `key`.
    pub fn contains_key(&self, key: &str) -> (r: bool)
        ensures
            r == self.spec_lookup(key@) is Some,
    {
        match self.find(key) {
            Some(i) => {
                proof { lemma_lookup_index(self@, key@, i as int); }
                true
            },
            None => {
                proof { lemma_lookup_absent(self@, key@); }
                false
            },
        }
    }

    /// The definition stored under `key`.
    pub fn get(&self, key: &str) -> (r: Option<&ModelDefinition>)
        ensures
            r matches Some(d) ==> self.spec_lookup(key@) == Some(*d),
            r is None ==> self.spec_lookup(key@) is None,
    {
        match self.find(key) {
            Some(i) => {
                proof { lemma_lookup_index(self@, key@, i as int); }
                Some(&self.entries[i].1)
            },
            None => {
                proof { lemma_lookup_absent(self@, key@); }
                None
            },
        }
    }

    /// Number of stored definitions.
    pub fn len(&self) -> (n: usize)
        ensures
            n == self@.len(),
    {
        self.entries.len()
    }

    /// Whether no definition is stored.
    pub fn is_empty(&self) -> (b: bool)
        ensures
            b == (self@.len() == 0),
    {
        self.entries.len() == 0
    }

    /// The stored `(key, definition)` pairs in insertion order.
    pub fn entries(&self) -> (e: &Vec<(String, ModelDefinition)>)
        ensures
            e@.len() == self@.len(),
            forall|i: int| 0 <= i < e@.len() ==> (#[trigger] e@[i]).0@ == self@[i].0 && e@[i].1 == self@[i].1,
    {
        &self.entries
    }
}


/// The download location of a catalog model file.
pub open spec fn model_download_url(file_name: Seq<char>) -> Seq<char> {
    "https://huggingface.co/ggerganov/whisper.cpp/resolve/main/"@ + file_name
}

/// `d` is the catalog definition with the given fields, available in every language.
pub open spec fn is_definition(
    d: ModelDefinition,
    name: Seq<char>,
    file_name: Seq<char>,
    size_mb: u64,
    description: Seq<char>,
    quality: ModelQuality,
) -> bool {
    &&& d.name@ == name
    &&& d.file_name@ == file_name
    &&& d.download_url@ == model_download_url(file_name)
    &&& d.size_mb == size_mb
    &&& d.description@ == description
    &&& d.language_support@.len() == 1
    &&& d.language_support@[0]@ == "multilingual"@
    &&& d.quality == quality
}

/// The keys of the built-in catalog, in order.
pub open spec fn default_catalog_keys() -> Seq<Seq<char>> {
    seq!["tiny"@, "base"@, "small"@, "medium"@, "large-v3-turbo-q5_0"@]
}

/// The models known to the service.
#[derive(Debug, Clone)]
pub struct ModelCatalog {
    pub models: ModelMap,
}

fn model_definition(
    name: &str,
    file_name: &str,
    size_mb: u64,
    description: &str,
    quality: ModelQuality,
) -> (d: ModelDefinition)
    ensures
        is_definition(d, name@, file_name@, size_mb, description@, quality),
{
    let mut url = owned("https://huggingface.co/ggerganov/whisper.cpp/resolve/main/");
    push_str(&mut url, file_name);
    let mut language_support: Vec<String> = Vec::new();
    language_support.push(owned("multilingual"));
    ModelDefinition {
        name: owned(name),
        file_name: owned(file_name),
        download_url: url,
        size_mb,
        description: owned(description),
        language_support,
        quality,
    }
}

impl Default for ModelCatalog {
    /// The built-in catalog: tiny, base, small, medium and the quantised large-v3-turbo model.
    fn default() -> (c: Self)
        ensures
            entry_keys(c.models@) == default_catalog_keys(),
            c.models.spec_lookup("tiny"@) matches Some(d) && is_definition(
                d,
                "Whisper Tiny"@,
                "ggml-tiny.bin"@,
                39,
                "最小モデル（39MB）- 高速だが精度は低い"@,
                ModelQuality::Tiny,
            ),
            c.models.spec_lookup("base"@) matches Some(d) && is_definition(
                d,
                "Whisper Base"@,
                "ggml-base.bin"@,
                142,
                "基本モデル（142MB）- バランスの取れた速度と精度"@,
                ModelQuality::Base,
            ),
            c.models.spec_lookup("small"@) matches Some(d) && is_definition(
                d,
                "Whisper Small"@,
                "ggml-small.bin"@,
                244,
                "小型モデル（244MB）- 良好な精度と実用的な速度"@,
                ModelQuality::Small,
            ),
            c.models.spec_lookup("medium"@) matches Some(d) && is_definition(
                d,
                "Whisper Medium"@,
                "ggml-medium.bin"@,
                769,
                "中型モデル（769MB）- 高精度だが処理時間が長い"@,
                ModelQuality::Medium,
            ),
            c.models.spec_lookup("large-v3-turbo-q5_0"@) matches Some(d) && is_definition(
                d,
                "Whisper Large V3 Turbo Q5_0"@,
                "ggml-large-v3-turbo-q5_0.bin"@,
                809,
                "最新の大型モデル（809MB）- 最高精度、量子化により高速化"@,
                ModelQuality::LargeV3,
            ),
    {
        proof {
            reveal_strlit("tiny");
            reveal_strlit("base");
            reveal_strlit("small");
            reveal_strlit("medium");
            reveal_strlit("large-v3-turbo-q5_0");
            assert("tiny"@[0] == 't' && "base"@[0] == 'b' && "small"@[0] == 's');
            assert("medium"@[0] == 'm' && "large-v3-turbo-q5_0"@[0] == 'l');
        }
        let mut models = ModelMap::new();
        proof {
            lemma_lookup_absent(models@, "tiny"@);
            lemma_lookup_absent(models@, "base"@);
            lemma_lookup_absent(models@, "small"@);
            lemma_lookup_absent(models@, "medium"@);
            lemma_lookup_absent(models@, "large-v3-turbo-q5_0"@);
        }
        models.insert(
            owned("tiny"),
            model_definition(
                "Whisper Tiny",
                "ggml-tiny.bin",
                39,
                "最小モデル（39MB）- 高速だが精度は低い",
                ModelQuality::Tiny,
            ),
        );
        assert(models.spec_lookup("base"@) is None);
        models.insert(
            owned("base"),
            model_definition(
                "Whisper Base",
                "ggml-base.bin",
                142,
                "基本モデル（142MB）- バランスの取れた速度と精度",
                ModelQuality::Base,
            ),
        );
        assert(models.spec_lookup("small"@) is None);
        models.insert(
            owned("small"),
            model_definition(
                "Whisper Small",
                "ggml-small.bin",
                244,
                "小型モデル（244MB）- 良好な精度と実用的な速度",
                ModelQuality::Small,
            ),
        );
        assert(models.spec_lookup("medium"@) is None);
        models.insert(
            owned("medium"),
            model_definition(
                "Whisper Medium",
                "ggml-medium.bin",
                769,
                "中型モデル（769MB）- 高精度だが処理時間が長い",
                ModelQuality::Medium,
            ),
        );
        assert(models.spec_lookup("large-v3-turbo-q5_0"@) is None);
        models.insert(
            owned("large-v3-turbo-q5_0"),
            model_definition(
                "Whisper Large V3 Turbo Q5_0",
                "ggml-large-v3-turbo-q5_0.bin",
                809,
                "最新の大型モデル（809MB）- 最高精度、量子化により高速化",
                ModelQuality::LargeV3,
            ),
        );
        ModelCatalog { models }
    }
}

// =============================================================================
// Server statistics
// =============================================================================

/// Request counters of the service. The average processing time is
/// `total_processing_time_ms / successful_transcriptions` once a request succeeded.
#[derive(Debug, Clone)]
pub struct ServerStats {
    pub total_requests: u64,
    pub successful_transcriptions: u64,
    pub failed_transcriptions: u64,
    pub total_processing_time_ms: u64,
    pub active_requests: usize,
    pub uptime_seconds: u64,
}

/// The statistics once a request has started.
pub open spec fn request_started(s: ServerStats) -> ServerStats {
    ServerStats {
        total_requests: (s.total_requests + 1) as u64,
        active_requests: (s.active_requests + 1) as usize,
        ..s
    }
}

/// The active count once a request has ended, never below zero.
pub open spec fn one_less_active(n: usize) -> usize {
    if n > 0 {
        (n - 1) as usize
    } else {
        0usize
    }
}

/// The statistics once a request has ended: with its processing time when it
/// succeeded (`Some`), or as a failure (`None`).
pub open spec fn request_ended(s: ServerStats, outcome: Option<u64>) -> ServerStats {
    match outcome {
        Some(t) => ServerStats {
            successful_transcriptions: (s.successful_transcriptions + 1) as u64,
            total_processing_time_ms: (s.total_processing_time_ms + t) as u64,
            active_requests: one_less_active(s.active_requests),
            ..s
        },
        None => ServerStats {
            failed_transcriptions: (s.failed_transcriptions + 1) as u64,
            active_requests: one_less_active(s.active_requests),
            ..s
        },
    }
}

/// A request accounted from start to end adds one to the requests, leaves
/// the active count as it was, and adds one success with its processing time
/// or one failure.
pub proof fn law_request_accounting(s: ServerStats, outcome: Option<u64>)
    requires
        s.total_requests < u64::MAX,
        s.active_requests < usize::MAX,
        outcome matches Some(t) ==> s.successful_transcriptions < u64::MAX
            && s.total_processing_time_ms + t <= u64::MAX,
        outcome is None ==> s.failed_transcriptions < u64::MAX,
    ensures
        request_ended(request_started(s), outcome).total_requests == s.total_requests + 1,
        request_ended(request_started(s), outcome).active_requests == s.active_requests,
        request_ended(request_started(s), outcome).uptime_seconds == s.uptime_seconds,
        outcome matches Some(t) ==> request_ended(request_started(s), outcome).successful_transcriptions
            == s.successful_transcriptions + 1 && request_ended(request_started(s), outcome).total_processing_time_ms
            == s.total_processing_time_ms + t && request_ended(request_started(s), outcome).failed_transcriptions
            == s.failed_transcriptions,
        outcome is None ==> request_ended(request_started(s), outcome).failed_transcriptions
            == s.failed_transcriptions + 1 && request_ended(request_started(s), outcome).successful_transcriptions
            == s.successful_transcriptions && request_ended(request_started(s), outcome).total_processing_time_ms
            == s.total_processing_time_ms,
{
}

impl Default for ServerStats {
    /// All counters at zero.
    fn default() -> (s: Self)
        ensures
            s.total_requests == 0,
            s.successful_transcriptions == 0,
            s.failed_transcriptions == 0,
            s.total_processing_time_ms == 0,
            s.active_requests == 0,
            s.uptime_seconds == 0,
    {
        ServerStats {
            total_requests: 0,
            successful_transcriptions: 0,
            failed_transcriptions: 0,
            total_processing_time_ms: 0,
            active_requests: 0,
            uptime_seconds: 0,
        }
    }
}

impl ServerStats {
    /// A request arrived: it is counted and is active until it succeeds or fails.
    pub fn record_request(&mut self)
        requires
            old(self).total_requests < u64::MAX,
            old(self).active_requests < usize::MAX,
        ensures
            final(self).total_requests == old(self).total_requests + 1,
            final(self).active_requests == old(self).active_requests + 1,
            final(self).successful_transcriptions == old(self).successful_transcriptions,
            final(self).failed_transcriptions == old(self).failed_transcriptions,
            final(self).total_processing_time_ms == old(self).total_processing_time_ms,
            final(self).uptime_seconds == old(self).uptime_seconds,
            *final(self) == request_started(*old(self)),
    {
        self.total_requests = self.total_requests + 1;
        self.active_requests = self.active_requests + 1;
    }

    /// A request succeeded after `processing_time_ms`.
    pub fn record_success(&mut self, processing_time_ms: u64)
        requires
            old(self).successful_transcriptions < u64::MAX,
            old(self).total_processing_time_ms + processing_time_ms <= u64::MAX,
        ensures
            final(self).successful_transcriptions == old(self).successful_transcriptions + 1,
            final(self).active_requests == if old(self).active_requests > 0 {
                (old(self).active_requests - 1) as usize
            } else {
                0usize
            },
            final(self).total_processing_time_ms == old(self).total_processing_time_ms
                + processing_time_ms,
            final(self).total_requests == old(self).total_requests,
            final(self).failed_transcriptions == old(self).failed_transcriptions,
            final(self).uptime_seconds == old(self).uptime_seconds,
            *final(self) == request_ended(*old(self), Some(processing_time_ms)),
    {
        self.successful_transcriptions = self.successful_transcriptions + 1;
        self.active_requests = self.active_requests.saturating_sub(1);
        self.total_processing_time_ms = self.total_processing_time_ms + processing_time_ms;
    }

    /// A request failed.
    pub fn record_failure(&mut self)
        requires
            old(self).failed_transcriptions < u64::MAX,
        ensures
            final(self).failed_transcriptions == old(self).failed_transcriptions + 1,
            final(self).active_requests == if old(self).active_requests > 0 {
                (old(self).active_requests - 1) as usize
            } else {
                0usize
            },
            final(self).total_requests == old(self).total_requests,
            final(self).successful_transcriptions == old(self).successful_transcriptions,
            final(self).total_processing_time_ms == old(self).total_processing_time_ms,
            final(self).uptime_seconds == old(self).uptime_seconds,
            *final(self) == request_ended(*old(self), None),
    {
        self.failed_transcriptions = self.failed_transcriptions + 1;
        self.active_requests = self.active_requests.saturating_sub(1);
    }

    /// The average processing time of the successful requests as a fraction
    /// (total milliseconds, number of successes); none before the first success.
    pub fn average_processing_terms(&self) -> (r: Option<(u64, u64)>)
        ensures
            self.successful_transcriptions > 0 ==> r == Some(
                (self.total_processing_time_ms, self.successful_transcriptions),
            ),
            self.successful_transcriptions == 0 ==> r is None,
    {
        if self.successful_transcriptions > 0 {
            Some((self.total_processing_time_ms, self.successful_transcriptions))
        } else {
            None
        }
    }

    /// The share of successful requests as a fraction (successes, requests),
    /// to be read in percent; none before the first request.
    pub fn success_rate_terms(&self) -> (r: Option<(u64, u64)>)
        ensures
            self.total_requests > 0 ==> r == Some((self.successful_transcriptions, self.total_requests)),
            self.total_requests == 0 ==> r is None,
    {
        if self.total_requests > 0 {
            Some((self.successful_transcriptions, self.total_requests))
        } else {
            None
        }
    }
}

// =============================================================================
// Error codes
// =============================================================================

/// Machine-readable error categories of the API.
#[derive(Debug, Clone, Copy, PartialEq, Eq, Structural)]
pub enum ApiErrorCode {
    InvalidInput,
    FileTooLarge,
    UnsupportedFormat,
    ProcessingFailed,
    ModelNotLoaded,
    ServerOverloaded,
    InternalError,
}

/// The wire name of an error code.
pub open spec fn error_code_name(c: ApiErrorCode) -> Seq<char> {
    match c {
        ApiErrorCode::InvalidInput => "INVALID_INPUT"@,
        ApiErrorCode::FileTooLarge => "FILE_TOO_LARGE"@,
        ApiErrorCode::UnsupportedFormat => "UNSUPPORTED_FORMAT"@,
        ApiErrorCode::ProcessingFailed => "PROCESSING_FAILED"@,
        ApiErrorCode::ModelNotLoaded => "MODEL_NOT_LOADED"@,
        ApiErrorCode::ServerOverloaded => "SERVER_OVERLOADED"@,
        ApiErrorCode::InternalError => "INTERNAL_ERROR"@,
    }
}

/// The HTTP status an error code is answered with.
pub open spec fn error_code_status(c: ApiErrorCode) -> u16 {
    match c {
        ApiErrorCode::InvalidInput => 400,
        ApiErrorCode::FileTooLarge => 413,
        ApiErrorCode::UnsupportedFormat => 415,
        ApiErrorCode::ProcessingFailed => 500,
        ApiErrorCode::ModelNotLoaded => 503,
        ApiErrorCode::ServerOverloaded => 429,
        ApiErrorCode::InternalError => 500,
    }
}

impl ApiErrorCode {
    pub fn as_str(&self) -> (s: &'static str)
        ensures
            s@ == error_code_name(*self),
    {
        match self {
            ApiErrorCode::InvalidInput => "INVALID_INPUT",
            ApiErrorCode::FileTooLarge => "FILE_TOO_LARGE",
            ApiErrorCode::UnsupportedFormat => "UNSUPPORTED_FORMAT",
            ApiErrorCode::ProcessingFailed => "PROCESSING_FAILED",
            ApiErrorCode::ModelNotLoaded => "MODEL_NOT_LOADED",
            ApiErrorCode::ServerOverloaded => "SERVER_OVERLOADED",
            ApiErrorCode::InternalError => "INTERNAL_ERROR",
        }
    }

    /// The HTTP status code of an error answer carrying this code.
    pub fn http_status(&self) -> (s: u16)
        ensures
            s == error_code_status(*self),
    {
        match self {
            ApiErrorCode::InvalidInput => 400,
            ApiErrorCode::FileTooLarge => 413,
            ApiErrorCode::UnsupportedFormat => 415,
            ApiErrorCode::ProcessingFailed => 500,
            ApiErrorCode::ModelNotLoaded => 503,
            ApiErrorCode::ServerOverloaded => 429,
            ApiErrorCode::InternalError => 500,
        }
    }
}

} // verus!
