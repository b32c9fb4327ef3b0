//! Configuration values consumed by the core engine, their defaults,
//! environment-override merging, and startup validation. Loading the values
//! from a TOML file or the process environment happens outside the library;
//! this module receives plain values and decides what they mean.

use vstd::prelude::*;

verus! {

/// Screen capture settings.
#[derive(Debug, Clone)]
pub struct CaptureConfig {
    /// Monitor ID to capture (0 = primary monitor, -1 = all monitors).
    pub monitor_id: i32,
    /// Capture interval in seconds.
    pub interval_seconds: u64,
    /// JPEG quality (1-100).
    pub jpeg_quality: u8,
}

/// Idle detection settings.
#[derive(Debug, Clone)]
pub struct IdleConfig {
    /// Idle threshold in seconds.
    pub threshold_seconds: u64,
    /// Check interval in milliseconds.
    pub check_interval_ms: u64,
}

/// Object-store settings.
#[derive(Debug, Clone)]
pub struct S3Config {
    /// Bucket name.
    pub bucket: String,
    /// Region name.
    pub region: String,
    /// Custom endpoint URL (for S3-compatible stores).
    pub endpoint_url: Option<String>,
    /// Key prefix for uploaded frames.
    pub prefix: Option<String>,
}

/// Upload behavior settings.
#[derive(Debug, Clone)]
pub struct UploadConfig {
    /// Upload mode.
    pub mode: UploadMode,
    /// Batch size for batch mode.
    pub batch_size: usize,
    /// Number of retry attempts.
    pub retry_attempts: u32,
}

/// Whether frames are shipped one by one or in batches.
#[derive(Debug, Clone, Copy, PartialEq, Eq, Structural)]
pub enum UploadMode {
    Immediate,
    Batch,
}

/// Logging settings.
#[derive(Debug, Clone)]
pub struct LoggingConfig {
    /// Data directory for logs and local staging.
    pub data_dir: String,
    /// Log level (trace, debug, info, warn, error).
    pub level: String,
}

/// Root configuration structure.
#[derive(Debug, Clone)]
pub struct Config {
    pub capture: CaptureConfig,
    pub idle: IdleConfig,
    pub s3: S3Config,
    pub upload: UploadConfig,
    pub logging: LoggingConfig,
}

/// A configuration value rejected at startup. Exactly one variant per
/// validation rule; validation failure is fatal before any worker starts.
#[derive(Debug, Clone, Copy, PartialEq, Eq, Structural)]
pub enum ConfigError {
    /// JPEG quality is outside 1..=100.
    JpegQualityOutOfRange,
    /// Capture interval is zero.
    ZeroCaptureInterval,
    /// Idle threshold is zero.
    ZeroIdleThreshold,
    /// Bucket name is empty.
    EmptyBucket,
}

impl ConfigError {
    /// A human-readable description of the rejected value.
    pub fn message(&self) -> (r: &'static str)
    {
        match self {
            ConfigError::JpegQualityOutOfRange => "JPEG quality must be between 1 and 100",
            ConfigError::ZeroCaptureInterval => "Capture interval must be greater than 0",
            ConfigError::ZeroIdleThreshold => "Idle threshold must be greater than 0",
            ConfigError::EmptyBucket => "S3 bucket name cannot be empty",
        }
    }
}

// Default values.

pub fn default_interval_seconds() -> (r: u64)
    ensures
        r == 3,
{
    3
}

pub fn default_jpeg_quality() -> (r: u8)
    ensures
        r == 80,
{
    80
}

pub fn default_idle_threshold() -> (r: u64)
    ensures
        r == 60,
{
    60
}

pub fn default_check_interval_ms() -> (r: u64)
    ensures
        r == 500,
{
    500
}

pub fn default_bucket() -> (r: String)
    ensures
        r@ == "my-screen-captures"@,
{
    String::from_str("my-screen-captures")
}

pub fn default_region() -> (r: String)
    ensures
        r@ == "us-east-1"@,
{
    String::from_str("us-east-1")
}

pub fn default_upload_mode() -> (r: UploadMode)
    ensures
        r == UploadMode::Immediate,
{
    UploadMode::Immediate
}

pub fn default_batch_size() -> (r: usize)
    ensures
        r == 10,
{
    10
}

pub fn default_retry_attempts() -> (r: u32)
    ensures
        r == 3,
{
    3
}

pub fn default_data_dir() -> (r: String)
    ensures
        r@ == "~/.preprompter"@,
{
    String::from_str("~/.preprompter")
}

pub fn default_log_level() -> (r: String)
    ensures
        r@ == "info"@,
{
    String::from_str("info")
}

impl Default for CaptureConfig {
    fn default() -> (r: Self)
        ensures
            r.monitor_id == 0,
            r.interval_seconds == 3,
            r.jpeg_quality == 80,
    {
        CaptureConfig {
            monitor_id: 0,
            interval_seconds: default_interval_seconds(),
            jpeg_quality: default_jpeg_quality(),
        }
    }
}

impl CaptureConfig {
    /// The capture interval in milliseconds (saturating at the largest
    /// representable duration).
    pub fn interval(&self) -> (r: u64)
        ensures
            r == if self.interval_seconds * 1000 <= u64::MAX {
                self.interval_seconds * 1000
            } else {
                u64::MAX as int
            },
    {
        match self.interval_seconds.checked_mul(1000) {
            Some(v) => v,
            None => u64::MAX,
        }
    }
}

impl Default for IdleConfig {
    fn default() -> (r: Self)
        ensures
            r.threshold_seconds == 60,
            r.check_interval_ms == 500,
    {
        IdleConfig {
            threshold_seconds: default_idle_threshold(),
            check_interval_ms: default_check_interval_ms(),
        }
    }
}

impl IdleConfig {
    /// The idle threshold in milliseconds (saturating at the largest
    /// representable duration).
    pub fn threshold(&self) -> (r: u64)
        ensures
            r == if self.threshold_seconds * 1000 <= u64::MAX {
                self.threshold_seconds * 1000
            } else {
                u64::MAX as int
            },
    {
        match self.threshold_seconds.checked_mul(1000) {
            Some(v) => v,
            None => u64::MAX,
        }
    }

    /// The check cadence in milliseconds.
    pub fn check_interval(&self) -> (r: u64)
        ensures
            r == self.check_interval_ms,
    {
        self.check_interval_ms
    }
}

impl Default for S3Config {
    fn default() -> (r: Self)
        ensures
            r.bucket@ == "my-screen-captures"@,
            r.region@ == "us-east-1"@,
            r.endpoint_url is None,
            r.prefix is None,
    {
        S3Config {
            bucket: default_bucket(),
            region: default_region(),
            endpoint_url: None,
            prefix: None,
        }
    }
}

impl Default for UploadConfig {
    fn default() -> (r: Self)
        ensures
            r.mode == UploadMode::Immediate,
            r.batch_size == 10,
            r.retry_attempts == 3,
    {
        UploadConfig {
            mode: default_upload_mode(),
            batch_size: default_batch_size(),
            retry_attempts: default_retry_attempts(),
        }
    }
}

impl Default for LoggingConfig {
    fn default() -> (r: Self)
        ensures
            r.data_dir@ == "~/.preprompter"@,
            r.level@ == "info"@,
    {
        LoggingConfig {
            data_dir: default_data_dir(),
            level: default_log_level(),
        }
    }
}

impl LoggingConfig {
    /// The logs directory path, below the data directory.
    pub fn logs_dir(&self) -> (r: String)
        ensures
            r@ == self.data_dir@ + "/logs"@,
    {
        self.data_dir.as_str().to_owned().concat("/logs")
    }

    /// The local staging directory path, below the data directory.
    pub fn staging_dir(&self) -> (r: String)
        ensures
            r@ == self.data_dir@ + "/staging"@,
    {
        self.data_dir.as_str().to_owned().concat("/staging")
    }
}

impl Default for Config {
    fn default() -> (r: Self)
        ensures
            r.capture.monitor_id == 0,
            r.capture.interval_seconds == 3,
            r.capture.jpeg_quality == 80,
            r.idle.threshold_seconds == 60,
            r.idle.check_interval_ms == 500,
            r.s3.bucket@ == "my-screen-captures"@,
            r.s3.region@ == "us-east-1"@,
            r.s3.endpoint_url is None,
            r.s3.prefix is None,
            r.upload.mode == UploadMode::Immediate,
            r.upload.batch_size == 10,
            r.upload.retry_attempts == 3,
            r.logging.data_dir@ == "~/.preprompter"@,
            r.logging.level@ == "info"@,
    {
        Config {
            capture: CaptureConfig::default(),
            idle: IdleConfig::default(),
            s3: S3Config::default(),
            upload: UploadConfig::default(),
            logging: LoggingConfig::default(),
        }
    }
}

impl Config {
    /// Whether every startup validation rule holds of this configuration.
    pub open spec fn spec_valid(&self) -> bool {
        &&& 1 <= self.capture.jpeg_quality <= 100
        &&& self.capture.interval_seconds > 0
        &&& self.idle.threshold_seconds > 0
        &&& self.s3.bucket@.len() > 0
    }

    /// Validate the configuration. Returns the first violated rule, in the
    /// fixed order: JPEG quality, capture interval, idle threshold, bucket.
    pub fn validate(&self) -> (r: Result<(), ConfigError>)
        ensures
            r is Ok <==> self.spec_valid(),
            (self.capture.jpeg_quality == 0 || self.capture.jpeg_quality > 100) ==> r
                == Result::<(), ConfigError>::Err(ConfigError::JpegQualityOutOfRange),
            (1 <= self.capture.jpeg_quality <= 100 && self.capture.interval_seconds == 0) ==> r
                == Result::<(), ConfigError>::Err(ConfigError::ZeroCaptureInterval),
            (1 <= self.capture.jpeg_quality <= 100 && self.capture.interval_seconds > 0
                && self.idle.threshold_seconds == 0) ==> r == Result::<(), ConfigError>::Err(
                ConfigError::ZeroIdleThreshold,
            ),
            (1 <= self.capture.jpeg_quality <= 100 && self.capture.interval_seconds > 0
                && self.idle.threshold_seconds > 0 && self.s3.bucket@.len() == 0) ==> r
                == Result::<(), ConfigError>::Err(ConfigError::EmptyBucket),
    {
        if self.capture.jpeg_quality == 0 || self.capture.jpeg_quality > 100 {
            Err(ConfigError::JpegQualityOutOfRange)
        } else if self.capture.interval_seconds == 0 {
            Err(ConfigError::ZeroCaptureInterval)
        } else if self.idle.threshold_seconds == 0 {
            Err(ConfigError::ZeroIdleThreshold)
        } else if self.s3.bucket.as_str().is_empty() {
            Err(ConfigError::EmptyBucket)
        } else {
            Ok(())
        }
    }
}

/// Override values read from the process environment. `None` means the
/// variable was absent or unparsable; `Some` replaces the configured value.
#[derive(Debug, Clone)]
pub struct EnvOverrides {
    pub capture_interval_seconds: Option<u64>,
    pub jpeg_quality: Option<u8>,
    pub idle_threshold_seconds: Option<u64>,
    pub s3_bucket: Option<String>,
    pub s3_region: Option<String>,
    pub s3_endpoint: Option<String>,
    pub data_dir: Option<String>,
    pub log_level: Option<String>,
}

impl EnvOverrides {
    /// Overrides that change nothing.
    pub fn none() -> (r: Self)
        ensures
            r.capture_interval_seconds is None,
            r.jpeg_quality is None,
            r.idle_threshold_seconds is None,
            r.s3_bucket is None,
            r.s3_region is None,
            r.s3_endpoint is None,
            r.data_dir is None,
            r.log_level is None,
    {
        EnvOverrides {
            capture_interval_seconds: None,
            jpeg_quality: None,
            idle_threshold_seconds: None,
            s3_bucket: None,
            s3_region: None,
            s3_endpoint: None,
            data_dir: None,
            log_level: None,
        }
    }
}

impl Config {
    /// Merge environment overrides into the configuration: each present
    /// override replaces the configured value, each absent one leaves it.
    pub fn apply_env_overrides(&mut self, ov: EnvOverrides)
        ensures
            final(self).capture.interval_seconds == if ov.capture_interval_seconds is Some {
                ov.capture_interval_seconds->0
            } else {
                old(self).capture.interval_seconds
            },
            final(self).capture.jpeg_quality == if ov.jpeg_quality is Some {
                ov.jpeg_quality->0
            } else {
                old(self).capture.jpeg_quality
            },
            final(self).idle.threshold_seconds == if ov.idle_threshold_seconds is Some {
                ov.idle_threshold_seconds->0
            } else {
                old(self).idle.threshold_seconds
            },
            final(self).s3.bucket == if ov.s3_bucket is Some {
                ov.s3_bucket->0
            } else {
                old(self).s3.bucket
            },
            final(self).s3.region == if ov.s3_region is Some {
                ov.s3_region->0
            } else {
                old(self).s3.region
            },
            final(self).s3.endpoint_url == if ov.s3_endpoint is Some {
                ov.s3_endpoint
            } else {
                old(self).s3.endpoint_url
            },
            final(self).logging.data_dir == if ov.data_dir is Some {
                ov.data_dir->0
            } else {
                old(self).logging.data_dir
            },
            final(self).logging.level == if ov.log_level is Some {
                ov.log_level->0
            } else {
                old(self).logging.level
            },
            final(self).capture.monitor_id == old(self).capture.monitor_id,
            final(self).idle.check_interval_ms == old(self).idle.check_interval_ms,
            final(self).s3.prefix == old(self).s3.prefix,
            final(self).upload == old(self).upload,
    {
        if let Some(v) = ov.capture_interval_seconds {
            self.capture.interval_seconds = v;
        }
        if let Some(v) = ov.jpeg_quality {
            self.capture.jpeg_quality = v;
        }
        if let Some(v) = ov.idle_threshold_seconds {
            self.idle.threshold_seconds = v;
        }
        if let Some(v) = ov.s3_bucket {
            self.s3.bucket = v;
        }
        if let Some(v) = ov.s3_region {
            self.s3.region = v;
        }
        if let Some(v) = ov.s3_endpoint {
            self.s3.endpoint_url = Some(v);
        }
        if let Some(v) = ov.data_dir {
            self.logging.data_dir = v;
        }
        if let Some(v) = ov.log_level {
            self.logging.level = v;
        }
    }
}

/// What a path with a leading `~` expands to: the home directory joined
/// with the path's characters from index two on, the way paths join — a
/// separator in between, and a rest that is itself absolute standing
/// alone.
pub open spec fn spec_tilde_expanded(path: Seq<char>, home: Seq<char>) -> Seq<char> {
    let rest = path.subrange(2, path.len() as int);
    if rest.len() >= 1 && rest[0] == '/' {
        rest
    } else {
        home + seq!['/'] + rest
    }
}

/// Expand a leading `~` to the home directory, when one is known. A path
/// without a leading `~`, or a missing home directory, stays unchanged.
pub fn expand_tilde(path: &str, home: Option<&str>) -> (r: String)
    requires
        (path@.len() >= 1 && path@[0] == '~' && home is Some) ==> path@.len() >= 2,
    ensures
        r@ == if path@.len() >= 1 && path@[0] == '~' && home is Some {
            spec_tilde_expanded(path@, home->0@)
        } else {
            path@
        },
{
    let n = path.unicode_len();
    if n >= 1 && path.get_char(0) == '~' {
        if let Some(h) = home {
            let rest = path.substring_char(2, n);
            if rest.unicode_len() >= 1 && rest.get_char(0) == '/' {
                return rest.to_owned();
            }
            let mut joined = h.to_owned();
            crate::text::push_char(&mut joined, '/');
            return joined.concat(rest);
        }
    }
    path.to_owned()
}

} // verus!
