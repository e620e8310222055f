//! Service configuration: server, engine, audio, performance, paths and limits,
//! its built-in defaults and the rules a configuration must satisfy.
use vstd::prelude::*;
use crate::text::{decimal, push_decimal, push_str, owned};

verus! {

#[derive(Debug, Clone)]
pub struct Config {
    pub server: ServerConfig,
    pub whisper: WhisperConfig,
    pub audio: AudioConfig,
    pub performance: PerformanceConfig,
    pub paths: PathsConfig,
    pub limits: LimitsConfig,
}

/// Where the HTTP server listens and what requests it takes.
#[derive(Debug, Clone)]
pub struct ServerConfig {
    pub host: String,
    pub port: u16,
    pub cors_origins: Vec<String>,
    pub max_request_size: usize,
}

/// Which model the speech engine loads and how.
#[derive(Debug, Clone)]
pub struct WhisperConfig {
    pub model_path: String,
    pub default_model: String,
    pub language: String,
    pub enable_gpu: bool,
}

/// Target format of decoded audio and the accepted file extensions.
#[derive(Debug, Clone)]
pub struct AudioConfig {
    pub sample_rate: u32,
    pub channels: u16,
    pub buffer_size: usize,
    pub supported_formats: Vec<String>,
}

/// Thread counts and request concurrency.
#[derive(Debug, Clone)]
pub struct PerformanceConfig {
    pub audio_threads: usize,
    pub whisper_threads: usize,
    pub max_concurrent_requests: usize,
    pub request_timeout_seconds: u64,
}

/// Directories for models, temporary files and uploads.
#[derive(Debug, Clone)]
pub struct PathsConfig {
    pub models_dir: String,
    pub temp_dir: String,
    pub upload_dir: String,
}

/// Size and duration limits of uploads.
#[derive(Debug, Clone)]
pub struct LimitsConfig {
    pub max_file_size_mb: usize,
    pub max_audio_duration_minutes: u32,
    pub cleanup_temp_files_after_minutes: u32,
}

/// `v` holds exactly the strings `expected`, in order.
pub open spec fn strings_are(v: Seq<String>, expected: Seq<Seq<char>>) -> bool {
    &&& v.len() == expected.len()
    &&& forall|i: int| 0 <= i < v.len() ==> (#[trigger] v[i])@ == expected[i]
}

/// `c` holds the built-in default settings.
pub open spec fn is_default_config(c: Config) -> bool {
    &&& c.server.host@ == "0.0.0.0"@
    &&& c.server.port == 8080
    &&& strings_are(c.server.cors_origins@, seq!["*"@])
    &&& c.server.max_request_size == 100 * 1024 * 1024
    &&& c.whisper.model_path@ == "models/ggml-large-v3-turbo-q5_0.bin"@
    &&& c.whisper.default_model@ == "large-q5_0"@
    &&& c.whisper.language@ == "auto"@
    &&& c.whisper.enable_gpu
    &&& c.audio.sample_rate == 16000
    &&& c.audio.channels == 1
    &&& c.audio.buffer_size == 4096
    &&& strings_are(
        c.audio.supported_formats@,
        seq!["wav"@, "mp3"@, "mp4"@, "m4a"@, "flac"@, "ogg"@],
    )
    &&& c.performance.audio_threads == 10
    &&& c.performance.whisper_threads == 14
    &&& c.performance.max_concurrent_requests == 10
    &&& c.performance.request_timeout_seconds == 300
    &&& c.paths.models_dir@ == "models"@
    &&& c.paths.temp_dir@ == "temp"@
    &&& c.paths.upload_dir@ == "uploads"@
    &&& c.limits.max_file_size_mb == 50
    &&& c.limits.max_audio_duration_minutes == 180
    &&& c.limits.cleanup_temp_files_after_minutes == 60
}

impl Default for Config {
    fn default() -> (c: Self)
        ensures
            is_default_config(c),
    {
        let mut cors_origins: Vec<String> = Vec::new();
        cors_origins.push(owned("*"));
        let mut supported_formats: Vec<String> = Vec::new();
        supported_formats.push(owned("wav"));
        supported_formats.push(owned("mp3"));
        supported_formats.push(owned("mp4"));
        supported_formats.push(owned("m4a"));
        supported_formats.push(owned("flac"));
        supported_formats.push(owned("ogg"));
        Config {
            server: ServerConfig {
                host: owned("0.0.0.0"),
                port: 8080,
                cors_origins,
                max_request_size: 100 * 1024 * 1024,
            },
            whisper: WhisperConfig {
                model_path: owned("models/ggml-large-v3-turbo-q5_0.bin"),
                default_model: owned("large-q5_0"),
                language: owned("auto"),
                enable_gpu: true,
            },
            audio: AudioConfig { sample_rate: 16000, channels: 1, buffer_size: 4096, supported_formats },
            performance: PerformanceConfig {
                audio_threads: 10,
                whisper_threads: 14,
                max_concurrent_requests: 10,
                request_timeout_seconds: 300,
            },
            paths: PathsConfig {
                models_dir: owned("models"),
                temp_dir: owned("temp"),
                upload_dir: owned("uploads"),
            },
            limits: LimitsConfig {
                max_file_size_mb: 50,
                max_audio_duration_minutes: 180,
                cleanup_temp_files_after_minutes: 60,
            },
        }
    }
}

/// A rule of `Config::validate` that a configuration breaks.
#[derive(Debug, Clone, PartialEq, Eq)]
pub enum ConfigIssue {
    /// The server port is zero.
    InvalidPort(u16),
    /// The model file does not exist.
    ModelNotFound(String),
    /// A working directory could not be created.
    DirectoryCreation { dir: String, reason: String },
    /// Zero speech-engine threads.
    ZeroWhisperThreads,
    /// Zero concurrent requests allowed.
    ZeroConcurrentRequests,
    /// Zero megabytes allowed per upload.
    ZeroFileSize,
}

/// The text of a configuration error as the service reports it.
pub open spec fn issue_message(i: ConfigIssue) -> Seq<char> {
    match i {
        ConfigIssue::InvalidPort(p) => "無効なポート番号: "@ + decimal(p as nat),
        ConfigIssue::ModelNotFound(path) => "Whisperモデルファイルが見つかりません: "@ + path@
            + "\n以下のコマンドでモデルをダウンロードしてください:\nwget https://huggingface.co/ggerganov/whisper.cpp/resolve/main/ggml-base.bin -P models/"@,
        ConfigIssue::DirectoryCreation { dir, reason } => "ディレクトリの作成に失敗: "@ + dir@ + " - "@
            + reason@,
        ConfigIssue::ZeroWhisperThreads => "Whisperスレッド数は1以上である必要があります"@,
        ConfigIssue::ZeroConcurrentRequests => "最大同時リクエスト数は1以上である必要があります"@,
        ConfigIssue::ZeroFileSize => "最大ファイルサイズは1MB以上である必要があります"@,
    }
}

impl ConfigIssue {
    /// The message the service prints for this issue.
    pub fn message(&self) -> (m: String)
        ensures
            m@ == issue_message(*self),
    {
        match self {
            ConfigIssue::InvalidPort(p) => {
                let mut m = owned("無効なポート番号: ");
                push_decimal(&mut m, *p as u64);
                m
            },
            ConfigIssue::ModelNotFound(path) => {
                let mut m = owned("Whisperモデルファイルが見つかりません: ");
                push_str(&mut m, path.as_str());
                push_str(
                    &mut m,
                    "\n以下のコマンドでモデルをダウンロードしてください:\nwget https://huggingface.co/ggerganov/whisper.cpp/resolve/main/ggml-base.bin -P models/",
                );
                m
            },
            ConfigIssue::DirectoryCreation { dir, reason } => {
                let mut m = owned("ディレクトリの作成に失敗: ");
                push_str(&mut m, dir.as_str());
                push_str(&mut m, " - ");
                push_str(&mut m, reason.as_str());
                m
            },
            ConfigIssue::ZeroWhisperThreads => owned("Whisperスレッド数は1以上である必要があります"),
            ConfigIssue::ZeroConcurrentRequests => owned(
                "最大同時リクエスト数は1以上である必要があります",
            ),
            ConfigIssue::ZeroFileSize => owned("最大ファイルサイズは1MB以上である必要があります"),
        }
    }
}

/// `host:port`.
pub open spec fn server_address_text(host: Seq<char>, port: u16) -> Seq<char> {
    host + seq![':'] + decimal(port as nat)
}

/// The message of an upload over the size limit, sizes in whole megabytes.
pub open spec fn file_size_exceeded_message(size_bytes: nat, max_bytes: nat) -> Seq<char> {
    "ファイルサイズが制限を超えています: "@ + decimal(size_bytes / (1024 * 1024)) + "MB > "@ + decimal(
        max_bytes / (1024 * 1024),
    ) + "MB"@
}

impl Config {
    /// The address the server binds to.
    pub fn server_address(&self) -> (s: String)
        ensures
            s@ == server_address_text(self.server.host@, self.server.port),
    {
        let mut s = owned(self.server.host.as_str());
        proof { reveal_strlit(":"); }
        push_str(&mut s, ":");
        push_decimal(&mut s, self.server.port as u64);
        s
    }

    /// The upload size limit in bytes.
    pub fn max_file_size_bytes(&self) -> (n: usize)
        requires
            self.limits.max_file_size_mb * 1024 * 1024 <= usize::MAX,
        ensures
            n == self.limits.max_file_size_mb * 1024 * 1024,
    {
        self.limits.max_file_size_mb * 1024 * 1024
    }

    /// The port rule of `validate`: the port must not be zero.
    pub fn check_port(&self) -> (r: Result<(), ConfigIssue>)
        ensures
            r is Ok <==> self.server.port != 0,
            r matches Err(i) ==> i == ConfigIssue::InvalidPort(self.server.port),
    {
        if self.server.port == 0 {
            Err(ConfigIssue::InvalidPort(self.server.port))
        } else {
            Ok(())
        }
    }

    /// The limit rules of `validate`, checked in order: engine threads,
    /// concurrent requests, upload size; the first broken rule is reported.
    pub fn check_limits(&self) -> (r: Result<(), ConfigIssue>)
        ensures
            r == if self.performance.whisper_threads == 0 {
                Err(ConfigIssue::ZeroWhisperThreads)
            } else if self.performance.max_concurrent_requests == 0 {
                Err(ConfigIssue::ZeroConcurrentRequests)
            } else if self.limits.max_file_size_mb == 0 {
                Err(ConfigIssue::ZeroFileSize)
            } else {
                Ok(())
            },
    {
        if self.performance.whisper_threads == 0 {
            return Err(ConfigIssue::ZeroWhisperThreads);
        }
        if self.performance.max_concurrent_requests == 0 {
            return Err(ConfigIssue::ZeroConcurrentRequests);
        }
        if self.limits.max_file_size_mb == 0 {
            return Err(ConfigIssue::ZeroFileSize);
        }
        Ok(())
    }

    /// The directories `validate` creates when missing: models, temporary files, uploads.
    pub fn required_directories(&self) -> (dirs: Vec<String>)
        ensures
            strings_are(
                dirs@,
                seq![self.paths.models_dir@, self.paths.temp_dir@, self.paths.upload_dir@],
            ),
    {
        let mut dirs: Vec<String> = Vec::new();
        dirs.push(owned(self.paths.models_dir.as_str()));
        dirs.push(owned(self.paths.temp_dir.as_str()));
        dirs.push(owned(self.paths.upload_dir.as_str()));
        dirs
    }

    /// The upload size rule: an upload may not exceed `max_file_size_bytes`.
    pub fn check_file_size(&self, size_bytes: usize) -> (r: Result<(), String>)
        requires
            self.limits.max_file_size_mb * 1024 * 1024 <= usize::MAX,
        ensures
            r is Ok <==> size_bytes <= self.limits.max_file_size_mb * 1024 * 1024,
            r matches Err(m) ==> m@ == file_size_exceeded_message(
                size_bytes as nat,
                (self.limits.max_file_size_mb * 1024 * 1024) as nat,
            ),
    {
        let max_size = self.max_file_size_bytes();
        if size_bytes > max_size {
            let mut m = owned("ファイルサイズが制限を超えています: ");
            push_decimal(&mut m, (size_bytes / (1024 * 1024)) as u64);
            push_str(&mut m, "MB > ");
            push_decimal(&mut m, (max_size / (1024 * 1024)) as u64);
            push_str(&mut m, "MB");
            return Err(m);
        }
        Ok(())
    }
}

} // verus!
