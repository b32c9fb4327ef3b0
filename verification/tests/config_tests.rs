use preprompter::config::{Config, ConfigError, EnvOverrides, UploadMode};

#[test]
fn default_config_is_valid() {
    let c = Config::default();
    assert!(c.validate().is_ok());
    assert_eq!(c.capture.interval_seconds, 3);
    assert_eq!(c.capture.jpeg_quality, 80);
    assert_eq!(c.idle.threshold_seconds, 60);
    assert_eq!(c.idle.check_interval_ms, 500);
    assert_eq!(c.s3.bucket, "my-screen-captures");
    assert_eq!(c.s3.region, "us-east-1");
    assert_eq!(c.upload.mode, UploadMode::Immediate);
    assert_eq!(c.upload.batch_size, 10);
    assert_eq!(c.upload.retry_attempts, 3);
    assert_eq!(c.logging.level, "info");
}

#[test]
fn validate_rejects_zero_jpeg_quality() {
    let mut c = Config::default();
    c.capture.jpeg_quality = 0;
    assert_eq!(c.validate(), Err(ConfigError::JpegQualityOutOfRange));
}

#[test]
fn validate_rejects_overlarge_jpeg_quality() {
    let mut c = Config::default();
    c.capture.jpeg_quality = 101;
    assert_eq!(c.validate(), Err(ConfigError::JpegQualityOutOfRange));
}

#[test]
fn validate_rejects_zero_interval() {
    let mut c = Config::default();
    c.capture.interval_seconds = 0;
    assert_eq!(c.validate(), Err(ConfigError::ZeroCaptureInterval));
}

#[test]
fn validate_rejects_zero_threshold() {
    let mut c = Config::default();
    c.idle.threshold_seconds = 0;
    assert_eq!(c.validate(), Err(ConfigError::ZeroIdleThreshold));
}

#[test]
fn validate_rejects_empty_bucket() {
    let mut c = Config::default();
    c.s3.bucket = String::new();
    assert_eq!(c.validate(), Err(ConfigError::EmptyBucket));
}

#[test]
fn validate_reports_first_violation() {
    let mut c = Config::default();
    c.capture.jpeg_quality = 0;
    c.s3.bucket = String::new();
    assert_eq!(c.validate(), Err(ConfigError::JpegQualityOutOfRange));
}

#[test]
fn error_messages_name_the_rule() {
    assert_eq!(
        ConfigError::JpegQualityOutOfRange.message(),
        "JPEG quality must be between 1 and 100"
    );
    assert_eq!(ConfigError::EmptyBucket.message(), "S3 bucket name cannot be empty");
}

#[test]
fn getters_convert_units() {
    let c = Config::default();
    assert_eq!(c.idle.threshold(), 60_000);
    assert_eq!(c.idle.check_interval(), 500);
    assert_eq!(c.capture.interval(), 3_000);
}

#[test]
fn threshold_saturates_at_max() {
    let mut c = Config::default();
    c.idle.threshold_seconds = u64::MAX;
    assert_eq!(c.idle.threshold(), u64::MAX);
}

#[test]
fn directories_hang_below_data_dir() {
    let c = Config::default();
    assert_eq!(c.logging.logs_dir(), "~/.preprompter/logs");
    assert_eq!(c.logging.staging_dir(), "~/.preprompter/staging");
}

#[test]
fn env_overrides_replace_only_present_values() {
    let mut c = Config::default();
    let mut ov = EnvOverrides::none();
    ov.capture_interval_seconds = Some(10);
    ov.s3_bucket = Some("other-bucket".to_string());
    c.apply_env_overrides(ov);
    assert_eq!(c.capture.interval_seconds, 10);
    assert_eq!(c.s3.bucket, "other-bucket");
    assert_eq!(c.capture.jpeg_quality, 80);
    assert_eq!(c.s3.region, "us-east-1");
}

#[test]
fn empty_overrides_change_nothing() {
    let mut c = Config::default();
    c.apply_env_overrides(EnvOverrides::none());
    assert_eq!(c.capture.interval_seconds, 3);
    assert_eq!(c.s3.bucket, "my-screen-captures");
}

#[test]
fn expand_tilde_replaces_leading_tilde() {
    let r = preprompter::config::expand_tilde("~/.preprompter", Some("/home/user"));
    assert_eq!(r, "/home/user/.preprompter");
}

#[test]
fn expand_tilde_without_home_keeps_path() {
    let r = preprompter::config::expand_tilde("~/.preprompter", None);
    assert_eq!(r, "~/.preprompter");
}

#[test]
fn expand_tilde_keeps_absolute_path() {
    let r = preprompter::config::expand_tilde("/var/data", Some("/home/user"));
    assert_eq!(r, "/var/data");
}

#[test]
fn expand_tilde_keeps_an_absolute_remainder() {
    let r = preprompter::config::expand_tilde("~//etc/x", Some("/home/user"));
    assert_eq!(r, "/etc/x");
}
