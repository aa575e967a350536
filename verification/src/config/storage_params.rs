use vstd::prelude::*;

verus! {

/// Where one replica stores its objects: a filesystem root or one of the
/// supported object stores, with the credentials its driver needs.
#[derive(Debug, Clone)]
pub enum StorageParams {
    Azb(Box<StorageAzblobConfig>),
    Fs(Box<StorageFsConfig>),
    Ftp(Box<StorageFtpConfig>),
    Gcs(Box<StorageGcsConfig>),
    S3(Box<StorageS3Config>),
}

impl StorageParams {
    /// The root path under which this replica's objects live.
    pub fn root(&self) -> (r: String)
        ensures
            self matches StorageParams::Azb(s) ==> r@ == s.root@,
            self matches StorageParams::Fs(s) ==> r@ == s.root@,
            self matches StorageParams::Ftp(s) ==> r@ == s.root@,
            self matches StorageParams::Gcs(s) ==> r@ == s.root@,
            self matches StorageParams::S3(s) ==> r@ == s.root@,
    {
        match self {
            StorageParams::Azb(s) => s.root.clone(),
            StorageParams::Fs(s) => s.root.clone(),
            StorageParams::Ftp(s) => s.root.clone(),
            StorageParams::Gcs(s) => s.root.clone(),
            StorageParams::S3(s) => s.root.clone(),
        }
    }
}

/// Azure Blob storage backend.
#[derive(Debug, Clone)]
pub struct StorageAzblobConfig {
    pub endpoint: String,
    pub container: String,
    pub account_name: String,
    pub account_key: String,
    pub root: String,
}

impl Default for StorageAzblobConfig {
    /// Empty endpoint, container, credentials and root.
    fn default() -> (r: Self)
        ensures
            r.endpoint@.len() == 0,
            r.container@.len() == 0,
            r.account_name@.len() == 0,
            r.account_key@.len() == 0,
            r.root@.len() == 0,
    {
        StorageAzblobConfig {
            endpoint: String::new(),
            container: String::new(),
            account_name: String::new(),
            account_key: String::new(),
            root: String::new(),
        }
    }
}

/// FTP and FTPS storage backend.
#[derive(Debug, Clone)]
pub struct StorageFtpConfig {
    pub endpoint: String,
    pub root: String,
    pub username: String,
    pub password: String,
}

impl Default for StorageFtpConfig {
    /// The local FTPS endpoint with the root directory and no credentials.
    fn default() -> (r: Self)
        ensures
            r.endpoint@ == "ftps://127.0.0.1"@,
            r.username@.len() == 0,
            r.password@.len() == 0,
            r.root@ == "/"@,
    {
        StorageFtpConfig {
            endpoint: String::from_str("ftps://127.0.0.1"),
            username: String::new(),
            password: String::new(),
            root: String::from_str("/"),
        }
    }
}

/// Local filesystem storage backend.
#[derive(Debug, Clone)]
pub struct StorageFsConfig {
    pub root: String,
}

impl Default for StorageFsConfig {
    /// The relative `_data` root.
    fn default() -> (r: Self)
        ensures
            r.root@ == "_data"@,
    {
        StorageFsConfig { root: String::from_str("_data") }
    }
}

/// Google Cloud Storage backend.
#[derive(Debug, Clone)]
pub struct StorageGcsConfig {
    pub endpoint: String,
    pub bucket: String,
    pub root: String,
    pub credential: String,
}

impl Default for StorageGcsConfig {
    /// The public GCS endpoint with everything else empty.
    fn default() -> (r: Self)
        ensures
            r.endpoint@ == "https://storage.googleapis.com"@,
            r.bucket@.len() == 0,
            r.root@.len() == 0,
            r.credential@.len() == 0,
    {
        StorageGcsConfig {
            endpoint: String::from_str("https://storage.googleapis.com"),
            bucket: String::new(),
            root: String::new(),
            credential: String::new(),
        }
    }
}

/// Amazon S3 storage backend.
#[derive(Debug, Clone)]
pub struct StorageS3Config {
    pub endpoint: String,
    pub region: String,
    pub bucket: String,
    pub access_key_id: String,
    pub secret_access_key: String,
    pub root: String,
}

impl Default for StorageS3Config {
    /// The public S3 endpoint with everything else empty.
    fn default() -> (r: Self)
        ensures
            r.endpoint@ == "https://s3.amazonaws.com"@,
            r.region@.len() == 0,
            r.bucket@.len() == 0,
            r.access_key_id@.len() == 0,
            r.secret_access_key@.len() == 0,
            r.root@.len() == 0,
    {
        StorageS3Config {
            endpoint: String::from_str("https://s3.amazonaws.com"),
            region: String::new(),
            bucket: String::new(),
            access_key_id: String::new(),
            secret_access_key: String::new(),
            root: String::new(),
        }
    }
}

} // verus!
