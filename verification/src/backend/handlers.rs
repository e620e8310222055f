//! Request-handling rules of the batch service that do not touch the network:
//! the error type and its construction, the upload size rule, the language
//! list, the model list entries, reading the resident memory from a process
//! status text, and the fields of upload forms.
use vstd::prelude::*;
use crate::text::{owned, push_str, is_white_space, char_is_white_space, find_char, find_char_in, str_eq};
use crate::backend::audio::{format_file_size, file_size_text};
use crate::backend::models::{ApiErrorCode, ModelDefinition, ModelInfo, TranscribeRequest, TranscribeResponse, TranscriptionSegment};
use crate::backend::whisper::{get_supported_languages, get_language_name, language_entry, language_name, LANGUAGE_COUNT, supported_language_codes};

verus! {

/// `anyhow::Error`, carried as an opaque value.
#[verifier::external_type_specification]
#[verifier::external_body]
pub struct ExAnyhowError(anyhow::Error);

/// An error answer: category, message and optional details.
#[derive(Debug)]
pub struct ApiError {
    pub code: ApiErrorCode,
    pub message: String,
    pub details: Option<String>,
}

impl ApiError {
    pub fn new(code: ApiErrorCode, message: &str) -> (e: Self)
        ensures
            e.code == code,
            e.message@ == message@,
            e.details is None,
    {
        ApiError { code, message: owned(message), details: None }
    }

    pub fn with_details(self, details: &str) -> (e: Self)
        ensures
            e.code == self.code,
            e.message == self.message,
            e.details matches Some(d) && d@ == details@,
    {
        ApiError { code: self.code, message: self.message, details: Some(owned(details)) }
    }
}

impl From<anyhow::Error> for ApiError {
    /// Any other failure is an internal error carrying the failure's text.
    fn from(err: anyhow::Error) -> (e: Self)
        ensures
            e.code == ApiErrorCode::InternalError,
            e.details is None,
    {
        ApiError { code: ApiErrorCode::InternalError, message: err.to_string(), details: None }
    }
}

impl vstd::std_specs::convert::FromSpecImpl<anyhow::Error> for ApiError {
    open spec fn obeys_from_spec() -> bool {
        false
    }

    open spec fn from_spec(v: anyhow::Error) -> ApiError {
        ApiError { code: ApiErrorCode::InternalError, message: arbitrary(), details: None }
    }
}

/// The message of an upload rejected for its size.
pub open spec fn upload_too_large_message(len: nat, max: nat) -> Seq<char> {
    "ファイルサイズが制限を超えています: "@ + file_size_text(len) + " > "@ + file_size_text(max)
}

/// The size rule of a transcription request: uploads larger than `max_size`
/// bytes are refused as too large.
pub fn check_upload_size(len: usize, max_size: usize) -> (r: Result<(), ApiError>)
    ensures
        r is Ok <==> len <= max_size,
        r matches Err(e) ==> e.code == ApiErrorCode::FileTooLarge && e.details is None
            && e.message@ == upload_too_large_message(len as nat, max_size as nat),
{
    if len > max_size {
        let mut m = owned("ファイルサイズが制限を超えています: ");
        let a = format_file_size(len as u64);
        push_str(&mut m, a.as_str());
        push_str(&mut m, " > ");
        let b = format_file_size(max_size as u64);
        push_str(&mut m, b.as_str());
        return Err(ApiError { code: ApiErrorCode::FileTooLarge, message: m, details: None });
    }
    Ok(())
}

/// A supported language as listed by the languages endpoint.
#[derive(Debug, Clone)]
pub struct LanguageInfo {
    pub code: String,
    pub name: String,
}

/// The languages endpoint's list: every supported code with its name, in order.
pub fn language_infos() -> (infos: Vec<LanguageInfo>)
    ensures
        infos@.len() == LANGUAGE_COUNT,
        forall|i: int|
            0 <= i < infos@.len() ==> (#[trigger] infos@[i]).code@ == language_entry(i).0
                && infos@[i].name@ == language_name(language_entry(i).0),
{
    let codes = get_supported_languages();
    let ghost views = codes@.map_values(|s: &'static str| s@);
    assert(views == supported_language_codes());
    assert(codes@.len() == LANGUAGE_COUNT) by {
        assert(views.len() == codes@.len());
    }
    let mut infos: Vec<LanguageInfo> = Vec::new();
    let mut i: usize = 0;
    while i < codes.len()
        invariant
            i <= codes@.len(),
            views == codes@.map_values(|s: &'static str| s@),
            views == supported_language_codes(),
            codes@.len() == LANGUAGE_COUNT,
            infos@.len() == i,
            forall|k: int|
                0 <= k < i ==> (#[trigger] infos@[k]).code@ == language_entry(k).0
                    && infos@[k].name@ == language_name(language_entry(k).0),
        decreases codes.len() - i,
    {
        let code = codes[i];
        assert(code@ == views[i as int]);
        assert(views[i as int] == language_entry(i as int).0) by {
            assert(supported_language_codes()[i as int] == language_entry(i as int).0);
        }
        let name = get_language_name(code);
        infos.push(LanguageInfo { code: owned(code), name: owned(name) });
        i = i + 1;
    }
    infos
}

impl ModelInfo {
    /// The models endpoint's entry for a catalog model stored at `file_path`:
    /// a model present on disk reports its size on disk in whole megabytes when
    /// that size is known, otherwise the catalog size.
    pub fn from_definition(
        definition: &ModelDefinition,
        file_path: String,
        is_available: bool,
        size_on_disk_bytes: Option<u64>,
    ) -> (m: ModelInfo)
        ensures
            m.name@ == definition.name@,
            m.file_path == file_path,
            m.size_mb == if is_available && size_on_disk_bytes is Some {
                (size_on_disk_bytes->0 / 1048576) as u64
            } else {
                definition.size_mb
            },
            m.description@ == definition.description@,
            m.language_support@.len() == definition.language_support@.len(),
            forall|i: int|
                0 <= i < m.language_support@.len() ==> (#[trigger] m.language_support@[i])@
                    == definition.language_support@[i]@,
            m.is_available == is_available,
    {
        let size_mb = if is_available {
            match size_on_disk_bytes {
                Some(b) => b / (1024 * 1024),
                None => definition.size_mb,
            }
        } else {
            definition.size_mb
        };
        let mut language_support: Vec<String> = Vec::new();
        let mut i: usize = 0;
        while i < definition.language_support.len()
            invariant
                i <= definition.language_support@.len(),
                language_support@.len() == i,
                forall|k: int|
                    0 <= k < i ==> (#[trigger] language_support@[k])@
                        == definition.language_support@[k]@,
            decreases definition.language_support.len() - i,
        {
            language_support.push(owned(definition.language_support[i].as_str()));
            i = i + 1;
        }
        ModelInfo {
            name: owned(definition.name.as_str()),
            file_path,
            size_mb,
            description: owned(definition.description.as_str()),
            language_support,
            is_available,
        }
    }
}

// =============================================================================
// Memory usage
// =============================================================================

/// The first position at or after `i` that is not white space, or the length.
pub open spec fn ws_end(l: Seq<char>, i: nat) -> nat
    decreases l.len() - i,
{
    if i < l.len() && is_white_space(l[i as int]) {
        ws_end(l, i + 1)
    } else {
        i
    }
}

/// The first position at or after `i` that is white space, or the length.
pub open spec fn tok_end(l: Seq<char>, i: nat) -> nat
    decreases l.len() - i,
{
    if i < l.len() && !is_white_space(l[i as int]) {
        tok_end(l, i + 1)
    } else {
        i
    }
}

/// The second white-space separated word of `l` (as `split_whitespace().nth(1)`).
pub open spec fn second_word(l: Seq<char>) -> Option<Seq<char>> {
    let i0 = ws_end(l, 0);
    let i2 = ws_end(l, tok_end(l, i0));
    if i0 < l.len() && i2 < l.len() {
        Some(l.subrange(i2 as int, tok_end(l, i2) as int))
    } else {
        None
    }
}

/// The switches of a transcription request: translation to English and time
/// stamps, each off unless the request sets it.
pub fn transcribe_switches(request: &TranscribeRequest) -> (s: (bool, bool))
    ensures
        s.0 == (request.translate_to_english == Some(true)),
        s.1 == (request.include_timestamps == Some(true)),
{
    let translate = match request.translate_to_english {
        Some(b) => b,
        None => false,
    };
    let timestamps = match request.include_timestamps {
        Some(b) => b,
        None => false,
    };
    (translate, timestamps)
}

/// The message refusing an upload whose format is not configured.
pub open spec fn unsupported_format_message(filename: Seq<char>) -> Seq<char> {
    "サポートされていないファイル形式: "@ + filename
}

/// The failure of an upload in a format that is not configured.
pub fn unsupported_format(filename: &str) -> (m: String)
    ensures
        m@ == unsupported_format_message(filename@),
{
    let mut m = owned("サポートされていないファイル形式: ");
    push_str(&mut m, filename);
    m
}

/// What a transcription run produced: the text, the segments when time
/// stamps were asked for, the language, the audio's length and the time the
/// run took, in milliseconds.
pub struct TranscriptionOutput {
    pub text: String,
    pub segments: Option<Vec<TranscriptionSegment>>,
    pub language: Option<String>,
    pub duration_ms: u64,
    pub processing_time_ms: u64,
}

/// The answer to a transcription request from the outcome of its run: the
/// run's output, or a processing failure carrying the run's error text.
pub fn transcription_response(outcome: Result<TranscriptionOutput, String>) -> (r: Result<TranscribeResponse, ApiError>)
    ensures
        r is Ok <==> outcome is Ok,
        outcome matches Ok(o) ==> r matches Ok(resp) && resp.text == o.text && resp.segments == o.segments
            && resp.language == o.language && resp.duration_ms == Some(o.duration_ms)
            && resp.processing_time_ms == o.processing_time_ms,
        outcome matches Err(m) ==> r matches Err(e) && e.code == ApiErrorCode::ProcessingFailed
            && e.message@ == m@ && e.details is None,
{
    match outcome {
        Ok(o) => Ok(TranscribeResponse {
            text: o.text,
            language: o.language,
            duration_ms: Some(o.duration_ms),
            segments: o.segments,
            processing_time_ms: o.processing_time_ms,
        }),
        Err(m) => Err(ApiError::new(ApiErrorCode::ProcessingFailed, m.as_str())),
    }
}

/// The message of a transcription whose worker thread failed.
pub open spec fn worker_failure_message(reason: Seq<char>) -> Seq<char> {
    "処理スレッドエラー: "@ + reason
}

/// The answer when the worker thread of a transcription failed: an internal error.
pub fn worker_failure(reason: &str) -> (e: ApiError)
    ensures
        e.code == ApiErrorCode::InternalError,
        e.message@ == worker_failure_message(reason@),
        e.details is None,
{
    let mut m = owned("処理スレッドエラー: ");
    push_str(&mut m, reason);
    ApiError::new(ApiErrorCode::InternalError, m.as_str())
}

/// Whether `c` is an ASCII digit.
pub open spec fn is_digit(c: char) -> bool {
    '0' <= c <= '9'
}

/// The number the decimal digits `d` spell.
pub open spec fn digits_value(d: Seq<char>) -> nat
    decreases d.len(),
{
    if d.len() == 0 {
        0
    } else {
        digits_value(d.drop_last()) * 10 + ((d.last() as u32) as int - 48) as nat
    }
}

/// The digits of a number text: the text without a leading `+`.
pub open spec fn unsigned_digits(t: Seq<char>) -> Seq<char> {
    if t.len() > 0 && t[0] == '+' {
        t.drop_first()
    } else {
        t
    }
}

/// Whether every character of `d` is an ASCII digit.
pub open spec fn all_digits(d: Seq<char>) -> bool {
    forall|k: int| 0 <= k < d.len() ==> is_digit(#[trigger] d[k])
}

/// The value of `t` as `str::parse::<u64>` reads it: an optional `+`, then one
/// or more digits, at most `u64::MAX`.
pub open spec fn parse_u64(t: Seq<char>) -> Option<u64> {
    let d = unsigned_digits(t);
    if d.len() > 0 && all_digits(d) && digits_value(d) <= u64::MAX {
        Some(digits_value(d) as u64)
    } else {
        None
    }
}

/// The resident set size a `VmRSS:` line of a process status reports, in MiB;
/// none for other lines or an unreadable amount.
pub open spec fn rss_line_mb(l: Seq<char>) -> Option<u64> {
    if l.len() >= 6 && l.subrange(0, 6) == "VmRSS:"@ {
        match second_word(l) {
            Some(w) => match parse_u64(w) {
                Some(kb) => Some((kb / 1024) as u64),
                None => None,
            },
            None => None,
        }
    } else {
        None
    }
}

/// The resident set size a process status text reports, in MiB: the first
/// `VmRSS:` line with a readable amount of kilobytes.
pub open spec fn status_memory_mb(status: Seq<char>) -> Option<u64>
    decreases status.len(),
{
    let e = find_char(status, '\n');
    let here = rss_line_mb(status.subrange(0, e as int));
    if here is Some {
        here
    } else if e >= status.len() {
        None
    } else {
        status_memory_mb(status.subrange(e as int + 1, status.len() as int))
    }
}

proof fn lemma_digits_value_grows(d: Seq<char>, k: int)
    requires
        0 <= k <= d.len(),
        forall|j: int| 0 <= j < d.len() ==> is_digit(#[trigger] d[j]),
    ensures
        digits_value(d.take(k)) <= digits_value(d),
    decreases d.len() - k,
{
    if k < d.len() {
        lemma_digits_value_grows(d, k + 1);
        assert(d.take(k + 1).drop_last() =~= d.take(k));
        assert(is_digit(d[k]));
    } else {
        assert(d.take(k) =~= d);
    }
}

/// Reads an unsigned decimal number as `str::parse::<u64>` does.
pub fn parse_decimal_u64(t: &str) -> (r: Option<u64>)
    ensures
        r == parse_u64(t@),
{
    let n = t.unicode_len();
    let mut from: usize = 0;
    if n > 0 && t.get_char(0) == '+' {
        from = 1;
    }
    let ghost d = unsigned_digits(t@);
    assert(d =~= t@.subrange(from as int, n as int));
    if from >= n {
        return None;
    }
    let mut k: usize = from;
    while k < n
        invariant
            from <= k <= n,
            n == t@.len(),
            d == t@.subrange(from as int, n as int),
            d == unsigned_digits(t@),
            forall|j: int| 0 <= j < k - from ==> is_digit(#[trigger] d[j]),
        decreases n - k,
    {
        let c = t.get_char(k);
        if !('0' <= c && c <= '9') {
            assert(!is_digit(d[k - from]));
            return None;
        }
        k = k + 1;
    }
    let mut v: u64 = 0;
    let mut k: usize = from;
    while k < n
        invariant
            from <= k <= n,
            n == t@.len(),
            d == t@.subrange(from as int, n as int),
            d == unsigned_digits(t@),
            forall|j: int| 0 <= j < d.len() ==> is_digit(#[trigger] d[j]),
            v == digits_value(d.take(k - from)),
        decreases n - k,
    {
        let c = t.get_char(k);
        proof {
            assert(is_digit(d[k - from]));
        }
        let digit = (c as u32 - 48) as u64;
        proof {
            assert(d.take(k - from + 1).drop_last() =~= d.take(k - from));
            assert(d.take(k - from + 1).last() == c);
        }
        if v > (u64::MAX - digit) / 10 {
            proof {
                assert(v * 10 + digit > u64::MAX) by (nonlinear_arith)
                    requires
                        v > (u64::MAX - digit) / 10,
                        digit <= 9,
                ;
                lemma_digits_value_grows(d, k - from + 1);
            }
            return None;
        }
        assert(v * 10 + digit <= u64::MAX) by (nonlinear_arith)
            requires
                v <= (u64::MAX - digit) / 10,
                digit <= 9,
        ;
        v = v * 10 + digit;
        k = k + 1;
    }
    assert(d.take(n - from) =~= d);
    Some(v)
}

/// The first position at or after `i` that is not white space.
fn skip_white_space(l: &str, i: usize) -> (j: usize)
    requires
        i <= l@.len(),
    ensures
        j == ws_end(l@, i as nat),
        i <= j <= l@.len(),
{
    let n = l.unicode_len();
    let mut j = i;
    while j < n && char_is_white_space(l.get_char(j))
        invariant
            i <= j <= n,
            n == l@.len(),
            ws_end(l@, i as nat) == ws_end(l@, j as nat),
        decreases n - j,
    {
        j = j + 1;
    }
    j
}

/// The first position at or after `i` that is white space.
fn skip_word(l: &str, i: usize) -> (j: usize)
    requires
        i <= l@.len(),
    ensures
        j == tok_end(l@, i as nat),
        i <= j <= l@.len(),
{
    let n = l.unicode_len();
    let mut j = i;
    while j < n && !char_is_white_space(l.get_char(j))
        invariant
            i <= j <= n,
            n == l@.len(),
            tok_end(l@, i as nat) == tok_end(l@, j as nat),
        decreases n - j,
    {
        j = j + 1;
    }
    j
}

/// The amount of one status line, when it is the `VmRSS:` line.
fn rss_line(l: &str) -> (r: Option<u64>)
    ensures
        r == rss_line_mb(l@),
{
    let n = l.unicode_len();
    proof { reveal_strlit("VmRSS:"); }
    if n < 6 || !str_eq(l.substring_char(0, 6), "VmRSS:") {
        return None;
    }
    let i0 = skip_white_space(l, 0);
    let i1 = skip_word(l, i0);
    let i2 = skip_white_space(l, i1);
    if !(i0 < n && i2 < n) {
        return None;
    }
    let i3 = skip_word(l, i2);
    match parse_decimal_u64(l.substring_char(i2, i3)) {
        Some(kb) => Some(kb / 1024),
        None => None,
    }
}

/// The resident set size, in MiB, that the text of `/proc/self/status`
/// reports on its `VmRSS:` line.
pub fn memory_usage_mb_from_status(status: &str) -> (r: Option<u64>)
    ensures
        r == status_memory_mb(status@),
{
    let n = status.unicode_len();
    let mut start: usize = 0;
    assert(status@.subrange(0, n as int) =~= status@);
    loop
        invariant
            start <= n,
            n == status@.len(),
            status_memory_mb(status@) == status_memory_mb(status@.subrange(start as int, n as int)),
        decreases n - start,
    {
        let e = find_char_in(status, '\n', start, n);
        let ghost rest = status@.subrange(start as int, n as int);
        proof {
            assert(rest.subrange(0, (e - start) as int) =~= status@.subrange(start as int, e as int));
            if e < n {
                assert(rest.subrange((e - start) as int + 1, rest.len() as int) =~= status@.subrange(
                    e + 1,
                    n as int,
                ));
            }
        }
        let here = rss_line(status.substring_char(start, e));
        if here.is_some() {
            return here;
        }
        if e >= n {
            return None;
        }
        start = e + 1;
    }
}

// =============================================================================
// Upload forms
// =============================================================================

/// The name an upload is processed under: the file name the form gave, else `audio`.
pub open spec fn upload_name(file_name: Option<Seq<char>>) -> Seq<char> {
    match file_name {
        Some(n) => n,
        None => "audio"@,
    }
}

/// The options of the basic transcription endpoint: engine language, no
/// translation, no time stamps.
pub fn basic_request() -> (r: TranscribeRequest)
    ensures
        r.language is None,
        r.translate_to_english == Some(false),
        r.include_timestamps == Some(false),
{
    TranscribeRequest { language: None, translate_to_english: Some(false), include_timestamps: Some(false) }
}

/// The name of the uploaded file of the basic endpoint's single form field.
pub fn basic_upload_name(file_name: Option<&str>) -> (n: String)
    ensures
        n@ == upload_name(
            match file_name {
                Some(f) => Some(f@),
                None => None,
            },
        ),
{
    match file_name {
        Some(f) => owned(f),
        None => owned("audio"),
    }
}

/// The form fields the timestamped endpoint reads; others are ignored.
#[derive(Debug, Clone, Copy, PartialEq, Eq, Structural)]
pub enum FormField {
    File,
    Language,
    TranslateToEnglish,
    Other,
}

/// The kind of a form field by its name.
pub open spec fn field_kind(name: Seq<char>) -> FormField {
    if name == "file"@ {
        FormField::File
    } else if name == "language"@ {
        FormField::Language
    } else if name == "translate_to_english"@ {
        FormField::TranslateToEnglish
    } else {
        FormField::Other
    }
}

/// Classifies a form field by its name (a field without a name is `Other`).
pub fn form_field_kind(name: &str) -> (k: FormField)
    ensures
        k == field_kind(name@),
{
    if str_eq(name, "file") {
        FormField::File
    } else if str_eq(name, "language") {
        FormField::Language
    } else if str_eq(name, "translate_to_english") {
        FormField::TranslateToEnglish
    } else {
        FormField::Other
    }
}

/// A yes/no form value as `str::parse::<bool>` reads it, unreadable values
/// counting as no: only `true` is yes.
pub fn parse_flag(text: &str) -> (b: bool)
    ensures
        b == (text@ == "true"@),
{
    str_eq(text, "true")
}

/// The state of a timestamped transcription form while its fields are read.
#[derive(Debug)]
pub struct TranscribeForm {
    pub request: TranscribeRequest,
    pub file_data: Vec<u8>,
    pub filename: String,
}

impl TranscribeForm {
    /// Before any field: time stamps on, no translation, no file.
    pub fn new() -> (f: Self)
        ensures
            f.request.language is None,
            f.request.translate_to_english == Some(false),
            f.request.include_timestamps == Some(true),
            f.file_data@.len() == 0,
            f.filename@.len() == 0,
    {
        TranscribeForm {
            request: TranscribeRequest {
                language: None,
                translate_to_english: Some(false),
                include_timestamps: Some(true),
            },
            file_data: Vec::new(),
            filename: String::new(),
        }
    }

    /// A `file` field: its data and file name replace any earlier file.
    pub fn set_file(&mut self, file_name: Option<&str>, data: Vec<u8>)
        ensures
            final(self).file_data == data,
            final(self).filename@ == upload_name(
                match file_name {
                    Some(f) => Some(f@),
                    None => None,
                },
            ),
            final(self).request == old(self).request,
    {
        self.filename = basic_upload_name(file_name);
        self.file_data = data;
    }

    /// A `language` field.
    pub fn set_language(&mut self, text: String)
        ensures
            final(self).request.language == Some(text),
            final(self).request.translate_to_english == old(self).request.translate_to_english,
            final(self).request.include_timestamps == old(self).request.include_timestamps,
            final(self).file_data == old(self).file_data,
            final(self).filename == old(self).filename,
    {
        self.request.language = Some(text);
    }

    /// A `translate_to_english` field.
    pub fn set_translate(&mut self, text: &str)
        ensures
            final(self).request.translate_to_english == Some(text@ == "true"@),
            final(self).request.language == old(self).request.language,
            final(self).request.include_timestamps == old(self).request.include_timestamps,
            final(self).file_data == old(self).file_data,
            final(self).filename == old(self).filename,
    {
        self.request.translate_to_english = Some(parse_flag(text));
    }

    /// All fields read: the upload and its options, or an invalid-input error
    /// when no file data arrived.
    pub fn finish(self) -> (r: Result<(Vec<u8>, String, TranscribeRequest), ApiError>)
        ensures
            r is Ok <==> self.file_data@.len() > 0,
            r matches Ok(parts) ==> parts.0 == self.file_data && parts.1 == self.filename
                && parts.2 == self.request,
            r matches Err(e) ==> e.code == ApiErrorCode::InvalidInput && e.message@
                == "ファイルが見つかりません"@ && e.details is None,
    {
        if self.file_data.len() == 0 {
            return Err(ApiError::new(ApiErrorCode::InvalidInput, "ファイルが見つかりません"));
        }
        Ok((self.file_data, self.filename, self.request))
    }
}

} // verus!
