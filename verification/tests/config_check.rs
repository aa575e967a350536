use replited::config::config::default_checkpoint_interval_secs;
use replited::config::config::default_max_checkpoint_page_number;
use replited::config::config::default_min_checkpoint_page_number;
use replited::config::config::default_truncate_page_number;
use replited::config::config::LogConfig;
use replited::config::config::LogLevel;
use replited::config::config::ReplicateConfig;
use replited::config::config::ReplicateDbConfig;
use replited::config::config::StorageConfig;
use replited::config::storage_params::StorageFsConfig;
use replited::config::storage_params::StorageFtpConfig;
use replited::config::storage_params::StorageGcsConfig;
use replited::config::storage_params::StorageS3Config;
use replited::config::storage_params::StorageParams;

fn fs_storage(root: &str) -> StorageConfig {
    StorageConfig {
        allow_insecure: false,
        params: StorageParams::Fs(Box::new(StorageFsConfig { root: String::from(root) })),
    }
}

fn db_config(replicas: usize) -> ReplicateDbConfig {
    let mut replicate = Vec::new();
    for _ in 0..replicas {
        replicate.push(fs_storage("/tmp/replica"));
    }
    ReplicateDbConfig {
        db: String::from("/tmp/a.db"),
        replicate,
        min_checkpoint_page_number: default_min_checkpoint_page_number(),
        max_checkpoint_page_number: default_max_checkpoint_page_number(),
        truncate_page_number: default_truncate_page_number(),
        checkpoint_interval_secs: default_checkpoint_interval_secs(),
    }
}

#[test]
fn test_default_policy_numbers() {
    assert_eq!(default_min_checkpoint_page_number(), 1000);
    assert_eq!(default_max_checkpoint_page_number(), 10000);
    assert_eq!(default_truncate_page_number(), 500000);
    assert_eq!(default_checkpoint_interval_secs(), 60);
}

#[test]
fn test_log_config_default() {
    let c = LogConfig::default();
    assert!(matches!(c.level, LogLevel::Info));
    assert_eq!(c.dir, "/var/log/replited");
}

#[test]
fn test_replicate_config_validate() {
    let good = ReplicateConfig { log: LogConfig::default(), database: vec![db_config(1)] };
    assert!(good.validate().is_ok());

    let empty = ReplicateConfig { log: LogConfig::default(), database: Vec::new() };
    assert_eq!(empty.validate().unwrap_err().code(), 2);

    let no_replica = ReplicateConfig { log: LogConfig::default(), database: vec![db_config(0)] };
    assert_eq!(no_replica.validate().unwrap_err().code(), 2);
}

#[test]
fn test_storage_params_root() {
    assert_eq!(fs_storage("/data/x").params.root(), "/data/x");
}

#[test]
fn test_storage_defaults() {
    assert_eq!(StorageFsConfig::default().root, "_data");
    assert_eq!(StorageFtpConfig::default().endpoint, "ftps://127.0.0.1");
    assert_eq!(StorageGcsConfig::default().endpoint, "https://storage.googleapis.com");
    assert_eq!(StorageS3Config::default().endpoint, "https://s3.amazonaws.com");
}
