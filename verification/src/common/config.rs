//! Configuration of all stages.

use vstd::prelude::*;
use vstd::string::*;

use crate::text;
use crate::text::{pieces, trimmed, unsigned_value, views};

verus! {

/// Configuration of the whole application.
#[derive(Debug)]
pub struct AppConfig {
    pub server: ServerConfig,
    pub ingest: IngestConfig,
    pub transcode: TranscodeConfig,
    pub packaging: PackagingConfig,
    pub storage: StorageConfig,
    pub delivery: DeliveryConfig,
    pub observability: ObservabilityConfig,
    pub auth: AuthConfig,
    pub cache: CacheConfig,
    pub security: SecurityConfig,
}

#[derive(Debug)]
pub struct ServerConfig {
    pub host: String,
    pub control_port: u16,
    pub rtmp_port: u16,
}

#[derive(Debug)]
pub struct IngestConfig {
    pub max_bitrate_kbps: u32,
    pub max_upload_size_bytes: u64,
    pub allowed_codecs: Vec<String>,
    pub allowed_audio_codecs: Vec<String>,
    /// Longest accepted upload, in microseconds of media.
    pub max_duration_micros: u64,
    pub upload_timeout_secs: u64,
    pub max_concurrent_rtmp_connections: usize,
    pub max_concurrent_live_streams: usize,
    pub max_concurrent_uploads: usize,
    pub max_pending_connections: usize,
}

#[derive(Debug)]
pub struct TranscodeConfig {
    pub profile_ladder: Vec<TranscodeProfile>,
    pub keyframe_interval_secs: u32,
    pub max_blocking_threads: usize,
}

/// One rung of the profile ladder.
#[derive(Debug)]
pub struct TranscodeProfile {
    pub name: String,
    pub width: u32,
    pub height: u32,
    pub bitrate_kbps: u32,
    pub audio_bitrate_kbps: u32,
    pub profile: String,
    pub level: String,
    pub preset: String,
}

#[derive(Debug, Clone, Copy)]
pub struct PackagingConfig {
    pub segment_duration_secs: u32,
    pub live_window_segments: u32,
    pub hls_version: u32,
    pub segment_retention_minutes: u64,
}

#[derive(Debug)]
pub struct StorageConfig {
    pub backend: String,
    pub endpoint: String,
    pub bucket: String,
    pub access_key_id: String,
    pub secret_access_key: String,
    pub region: String,
    pub path_style: bool,
    pub max_concurrent_requests: usize,
    pub request_timeout_secs: u64,
}

/// Concurrent storage requests, where the configuration does not say.
pub fn default_max_concurrent_requests() -> (r: usize)
    ensures
        r == 50,
{
    50
}

/// Seconds before a storage request times out, where the configuration does not say.
pub fn default_request_timeout_secs() -> (r: u64)
    ensures
        r == 30,
{
    30
}

#[derive(Debug)]
pub struct DeliveryConfig {
    pub cache_control_live: String,
    pub cache_control_vod: String,
    pub cors_allowed_origins: Vec<String>,
}

#[derive(Debug)]
pub struct ObservabilityConfig {
    pub log_level: String,
    pub log_format: String,
    pub metrics_enabled: bool,
    pub tracing_enabled: bool,
    pub tracing_endpoint: String,
    /// Share of traces to keep, in thousandths.
    pub tracing_sample_rate_milli: u32,
}

#[derive(Debug)]
pub struct AuthConfig {
    pub ingest_stream_keys: Vec<String>,
    pub admin_bearer_tokens: Vec<String>,
}

/// Limits on what clients send, and on failed logins.
#[derive(Debug, Clone, Copy)]
pub struct SecurityConfig {
    pub max_json_body_bytes: usize,
    pub max_rtmp_chunk_size: usize,
    pub max_amf_string_length: usize,
    pub max_flv_tag_size_bytes: usize,
    pub brute_force_max_attempts: u32,
    pub brute_force_window_secs: u64,
    pub brute_force_block_secs: u64,
}

/// Configuration of the object cache.
#[derive(Debug, Clone, Copy)]
pub struct CacheConfig {
    pub enabled: bool,
    /// Largest total size in bytes.
    pub max_size_bytes: u64,
    /// Seconds to live of an object that is neither a segment nor a media playlist.
    pub ttl_secs: u64,
    /// Seconds to live of a segment.
    pub segment_ttl_secs: u64,
}

// ---------------------------------------------------------------------------
// Defaults
// ---------------------------------------------------------------------------

/// The rung has exactly these settings, with the preset "medium".
pub open spec fn is_rung(
    p: TranscodeProfile,
    name: Seq<char>,
    size: (u32, u32),
    kbps: (u32, u32),
    profile: Seq<char>,
    level: Seq<char>,
) -> bool {
    &&& p.name@ == name
    &&& (p.width, p.height) == size
    &&& (p.bitrate_kbps, p.audio_bitrate_kbps) == kbps
    &&& p.profile@ == profile
    &&& p.level@ == level
    &&& p.preset@ == "medium"@
}

impl ServerConfig {
    /// All interfaces, port 8080 for HTTP and 1935 for RTMP.
    pub open spec fn is_default(self) -> bool {
        &&& self.host@ == "0.0.0.0"@
        &&& self.control_port == 8080
        &&& self.rtmp_port == 1935
    }
}

impl IngestConfig {
    /// H.264 with AAC or MP3, at most 20 Mbit/s, 10 GiB and 6 hours.
    pub open spec fn is_default(self) -> bool {
        &&& self.max_bitrate_kbps == 20000
        &&& self.max_upload_size_bytes == 10_737_418_240
        &&& views(self.allowed_codecs@) == seq!["h264"@]
        &&& views(self.allowed_audio_codecs@) == seq!["aac"@, "mp3"@]
        &&& self.max_duration_micros == 21_600_000_000
        &&& self.upload_timeout_secs == 60
        &&& self.max_concurrent_rtmp_connections == 50
        &&& self.max_concurrent_live_streams == 5
        &&& self.max_concurrent_uploads == 10
        &&& self.max_pending_connections == 100
    }
}

impl TranscodeConfig {
    /// Three rungs: 1080p, 720p and 480p; a keyframe every two seconds.
    pub open spec fn is_default(self) -> bool {
        &&& self.profile_ladder@.len() == 3
        &&& is_rung(self.profile_ladder@[0], "high"@, (1920, 1080), (3500, 128), "high"@, "4.1"@)
        &&& is_rung(self.profile_ladder@[1], "medium"@, (1280, 720), (2000, 128), "main"@, "3.1"@)
        &&& is_rung(self.profile_ladder@[2], "low"@, (854, 480), (1000, 96), "main"@, "3.0"@)
        &&& self.keyframe_interval_secs == 2
        &&& self.max_blocking_threads == 64
    }
}

impl StorageConfig {
    /// A local S3 endpoint without credentials.
    pub open spec fn is_default(self) -> bool {
        &&& self.backend@ == "s3"@
        &&& self.endpoint@ == "http://localhost:9000"@
        &&& self.bucket@ == "streaminfa-media"@
        &&& self.access_key_id@.len() == 0
        &&& self.secret_access_key@.len() == 0
        &&& self.region@ == "us-east-1"@
        &&& self.path_style
        &&& self.max_concurrent_requests == 50
        &&& self.request_timeout_secs == 30
    }
}

impl DeliveryConfig {
    /// Live playlists are never cached, the rest for a day; any origin may ask.
    pub open spec fn is_default(self) -> bool {
        &&& self.cache_control_live@ == "no-cache, no-store"@
        &&& self.cache_control_vod@ == "public, max-age=86400"@
        &&& views(self.cors_allowed_origins@) == seq!["*"@]
    }
}

impl ObservabilityConfig {
    /// JSON logs at level info, metrics on, tracing off.
    pub open spec fn is_default(self) -> bool {
        &&& self.log_level@ == "info"@
        &&& self.log_format@ == "json"@
        &&& self.metrics_enabled
        &&& !self.tracing_enabled
        &&& self.tracing_endpoint@ == "http://localhost:4317"@
        &&& self.tracing_sample_rate_milli == 100
    }
}

impl AppConfig {
    /// Every setting has its default.
    pub open spec fn is_default(self) -> bool {
        &&& self.server.is_default()
        &&& self.ingest.is_default()
        &&& self.transcode.is_default()
        &&& self.packaging == (PackagingConfig {
            segment_duration_secs: 6,
            live_window_segments: 5,
            hls_version: 7,
            segment_retention_minutes: 60,
        })
        &&& self.storage.is_default()
        &&& self.delivery.is_default()
        &&& self.observability.is_default()
        &&& self.auth.ingest_stream_keys@.len() == 0
        &&& self.auth.admin_bearer_tokens@.len() == 0
        &&& self.cache == (CacheConfig {
            enabled: true,
            max_size_bytes: 536_870_912,
            ttl_secs: 300,
            segment_ttl_secs: 3600,
        })
        &&& self.security == (SecurityConfig {
            max_json_body_bytes: 1_048_576,
            max_rtmp_chunk_size: 65536,
            max_amf_string_length: 4096,
            max_flv_tag_size_bytes: 16_777_216,
            brute_force_max_attempts: 5,
            brute_force_window_secs: 60,
            brute_force_block_secs: 300,
        })
    }
}

fn strings1(a: &str) -> (r: Vec<String>)
    ensures
        views(r@) == seq![a@],
{
    let mut v: Vec<String> = Vec::new();
    v.push(text::owned(a));
    assert(views(v@) =~= seq![a@]);
    v
}

fn rung(
    name: &str,
    size: (u32, u32),
    kbps: (u32, u32),
    profile: &str,
    level: &str,
) -> (r: TranscodeProfile)
    ensures
        is_rung(r, name@, size, kbps, profile@, level@),
{
    TranscodeProfile {
        name: text::owned(name),
        width: size.0,
        height: size.1,
        bitrate_kbps: kbps.0,
        audio_bitrate_kbps: kbps.1,
        profile: text::owned(profile),
        level: text::owned(level),
        preset: text::owned("medium"),
    }
}

fn default_ingest() -> (r: IngestConfig)
    ensures
        r.is_default(),
{
    let mut audio: Vec<String> = Vec::new();
    audio.push(text::owned("aac"));
    audio.push(text::owned("mp3"));
    assert(views(audio@) =~= seq!["aac"@, "mp3"@]);
    IngestConfig {
        max_bitrate_kbps: 20000,
        max_upload_size_bytes: 10_737_418_240,
        allowed_codecs: strings1("h264"),
        allowed_audio_codecs: audio,
        max_duration_micros: 21_600_000_000,
        upload_timeout_secs: 60,
        max_concurrent_rtmp_connections: 50,
        max_concurrent_live_streams: 5,
        max_concurrent_uploads: 10,
        max_pending_connections: 100,
    }
}

fn default_transcode() -> (r: TranscodeConfig)
    ensures
        r.is_default(),
{
    let mut ladder: Vec<TranscodeProfile> = Vec::new();
    ladder.push(rung("high", (1920, 1080), (3500, 128), "high", "4.1"));
    ladder.push(rung("medium", (1280, 720), (2000, 128), "main", "3.1"));
    ladder.push(rung("low", (854, 480), (1000, 96), "main", "3.0"));
    TranscodeConfig { profile_ladder: ladder, keyframe_interval_secs: 2, max_blocking_threads: 64 }
}

impl Default for AppConfig {
    fn default() -> (r: Self)
        ensures
            r.is_default(),
    {
        AppConfig {
            server: ServerConfig {
                host: text::owned("0.0.0.0"),
                control_port: 8080,
                rtmp_port: 1935,
            },
            ingest: default_ingest(),
            transcode: default_transcode(),
            packaging: PackagingConfig {
                segment_duration_secs: 6,
                live_window_segments: 5,
                hls_version: 7,
                segment_retention_minutes: 60,
            },
            storage: StorageConfig {
                backend: text::owned("s3"),
                endpoint: text::owned("http://localhost:9000"),
                bucket: text::owned("streaminfa-media"),
                access_key_id: String::new(),
                secret_access_key: String::new(),
                region: text::owned("us-east-1"),
                path_style: true,
                max_concurrent_requests: default_max_concurrent_requests(),
                request_timeout_secs: default_request_timeout_secs(),
            },
            delivery: DeliveryConfig {
                cache_control_live: text::owned("no-cache, no-store"),
                cache_control_vod: text::owned("public, max-age=86400"),
                cors_allowed_origins: strings1("*"),
            },
            observability: ObservabilityConfig {
                log_level: text::owned("info"),
                log_format: text::owned("json"),
                metrics_enabled: true,
                tracing_enabled: false,
                tracing_endpoint: text::owned("http://localhost:4317"),
                tracing_sample_rate_milli: 100,
            },
            auth: AuthConfig { ingest_stream_keys: Vec::new(), admin_bearer_tokens: Vec::new() },
            cache: CacheConfig {
                enabled: true,
                max_size_bytes: 536_870_912,
                ttl_secs: 300,
                segment_ttl_secs: 3600,
            },
            security: SecurityConfig {
                max_json_body_bytes: 1_048_576,
                max_rtmp_chunk_size: 65536,
                max_amf_string_length: 4096,
                max_flv_tag_size_bytes: 16_777_216,
                brute_force_max_attempts: 5,
                brute_force_window_secs: 60,
                brute_force_block_secs: 300,
            },
        }
    }
}

// ---------------------------------------------------------------------------
// Overrides from the environment
// ---------------------------------------------------------------------------

/// The values of the environment variables that override the configuration, where they are set.
#[derive(Debug)]
pub struct EnvOverrides {
    pub server_host: Option<String>,
    pub server_control_port: Option<String>,
    pub server_rtmp_port: Option<String>,
    pub storage_endpoint: Option<String>,
    pub storage_bucket: Option<String>,
    pub storage_access_key_id: Option<String>,
    pub storage_secret_access_key: Option<String>,
    pub storage_region: Option<String>,
    pub auth_ingest_stream_keys: Option<String>,
    pub auth_admin_bearer_tokens: Option<String>,
    pub observability_log_level: Option<String>,
}

/// A set variable takes the place of the setting.
pub open spec fn text_override(before: Seq<char>, env: Option<String>) -> Seq<char> {
    match env {
        Some(v) => v@,
        None => before,
    }
}

/// A variable that writes a port number takes the place of the setting; any other text is passed
/// over.
pub open spec fn port_override(before: u16, env: Option<String>) -> u16 {
    match env {
        Some(v) => match unsigned_value(v@, 65535) {
            Some(n) => n as u16,
            None => before,
        },
        None => before,
    }
}

/// The comma-separated parts of a text, each without white space at its ends.
pub open spec fn listed(s: Seq<char>) -> Seq<Seq<char>> {
    pieces(s, ',').map_values(|p: Seq<char>| trimmed(p))
}

/// A set variable takes the place of the whole list.
pub open spec fn list_override(before: Seq<String>, env: Option<String>) -> Seq<Seq<char>> {
    match env {
        Some(v) => listed(v@),
        None => views(before),
    }
}

fn override_text(setting: &mut String, env: &Option<String>)
    ensures
        final(setting)@ == text_override(old(setting)@, *env),
{
    if let Some(v) = env {
        *setting = v.clone();
    }
}

fn override_port(setting: u16, env: &Option<String>) -> (r: u16)
    ensures
        r == port_override(setting, *env),
{
    match env {
        Some(v) => {
            let chars = text::to_chars(v);
            match text::parse_unsigned(&chars, 65535) {
                Some(n) => n as u16,
                None => setting,
            }
        },
        None => setting,
    }
}

/// The comma-separated parts of a text, each without white space at its ends.
pub fn split_list(s: &str) -> (r: Vec<String>)
    ensures
        views(r@) == listed(s@),
{
    let parts = text::split(s, ',');
    let mut out: Vec<String> = Vec::new();
    let mut i: usize = 0;
    while i < parts.len()
        invariant
            i <= parts@.len(),
            views(parts@) == pieces(s@, ','),
            out@.len() == i,
            forall|j: int| 0 <= j < i ==> (#[trigger] out@[j])@ == trimmed(parts@[j]@),
        decreases parts@.len() - i,
    {
        out.push(text::trim(&parts[i]));
        i = i + 1;
    }
    proof {
        assert forall|j: int| 0 <= j < out@.len() implies views(out@)[j] == listed(s@)[j] by {
            assert(views(parts@)[j] == parts@[j]@);
            assert(out@[j]@ == trimmed(parts@[j]@));
        }
        assert(views(parts@).len() == parts@.len());
        assert(views(out@) =~= listed(s@));
    }
    out
}

fn override_list(setting: &mut Vec<String>, env: &Option<String>)
    ensures
        views(final(setting)@) == list_override(old(setting)@, *env),
{
    if let Some(v) = env {
        *setting = split_list(v);
    }
}

impl AppConfig {
    /// Lays the environment over the configuration. Settings without a variable stay as they are.
    pub fn apply_env_overrides(&mut self, env: &EnvOverrides)
        ensures
            final(self).server.host@ == text_override(old(self).server.host@, env.server_host),
            final(self).server.control_port == port_override(
                old(self).server.control_port,
                env.server_control_port,
            ),
            final(self).server.rtmp_port == port_override(
                old(self).server.rtmp_port,
                env.server_rtmp_port,
            ),
            final(self).storage.endpoint@ == text_override(
                old(self).storage.endpoint@,
                env.storage_endpoint,
            ),
            final(self).storage.bucket@ == text_override(
                old(self).storage.bucket@,
                env.storage_bucket,
            ),
            final(self).storage.access_key_id@ == text_override(
                old(self).storage.access_key_id@,
                env.storage_access_key_id,
            ),
            final(self).storage.secret_access_key@ == text_override(
                old(self).storage.secret_access_key@,
                env.storage_secret_access_key,
            ),
            final(self).storage.region@ == text_override(
                old(self).storage.region@,
                env.storage_region,
            ),
            views(final(self).auth.ingest_stream_keys@) == list_override(
                old(self).auth.ingest_stream_keys@,
                env.auth_ingest_stream_keys,
            ),
            views(final(self).auth.admin_bearer_tokens@) == list_override(
                old(self).auth.admin_bearer_tokens@,
                env.auth_admin_bearer_tokens,
            ),
            final(self).observability.log_level@ == text_override(
                old(self).observability.log_level@,
                env.observability_log_level,
            ),
            *final(self) == (AppConfig {
                server: final(self).server,
                storage: StorageConfig {
                    endpoint: final(self).storage.endpoint,
                    bucket: final(self).storage.bucket,
                    access_key_id: final(self).storage.access_key_id,
                    secret_access_key: final(self).storage.secret_access_key,
                    region: final(self).storage.region,
                    ..old(self).storage
                },
                auth: final(self).auth,
                observability: ObservabilityConfig {
                    log_level: final(self).observability.log_level,
                    ..old(self).observability
                },
                ..*old(self)
            }),
    {
        override_text(&mut self.server.host, &env.server_host);
        self.server.control_port = override_port(
            self.server.control_port,
            &env.server_control_port,
        );
        self.server.rtmp_port = override_port(self.server.rtmp_port, &env.server_rtmp_port);
        override_text(&mut self.storage.endpoint, &env.storage_endpoint);
        override_text(&mut self.storage.bucket, &env.storage_bucket);
        override_text(&mut self.storage.access_key_id, &env.storage_access_key_id);
        override_text(&mut self.storage.secret_access_key, &env.storage_secret_access_key);
        override_text(&mut self.storage.region, &env.storage_region);
        override_list(&mut self.auth.ingest_stream_keys, &env.auth_ingest_stream_keys);
        override_list(&mut self.auth.admin_bearer_tokens, &env.auth_admin_bearer_tokens);
        override_text(&mut self.observability.log_level, &env.observability_log_level);
    }
}

// ---------------------------------------------------------------------------
// Laws
// ---------------------------------------------------------------------------

/// A variable that is set takes the place of its setting, and one that is not leaves it; a port is
/// taken only where a number of 16 bits is written.
pub proof fn set_variables_take_over(before: Seq<char>, port: u16, n: u16, v: String)
    ensures
        text_override(before, None) == before,
        text_override(before, Some(v)) == v@,
        port_override(port, None) == port,
        v@ == text::decimal(n as nat) ==> port_override(port, Some(v)) == n,
        v@.len() == 0 ==> port_override(port, Some(v)) == port,
{
    text::decimals_read_back(n as nat);
    if v@ == text::decimal(n as nat) {
        assert(text::is_digit(v@[0]));
    }
}

} // verus!
