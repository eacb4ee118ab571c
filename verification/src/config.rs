//! Engine configuration: the storage paths and the buffer-pool size the
//! server is started with.

use vstd::prelude::*;

verus! {

/// Configuration errors.
#[derive(Debug, PartialEq, Eq)]
pub enum ConfigError {
    /// The configuration's values do not make sense.
    Invalid { message: String },
}

/// Storage-related configuration.
#[derive(Debug)]
pub struct StorageConfig {
    /// Directory holding the data files.
    pub data_dir: String,
    /// Directory holding the log files.
    pub logs_dir: String,
    /// Number of frames in the buffer pool; must be strictly positive.
    pub buffer_pages: usize,
}

/// The engine's configuration.
#[derive(Debug)]
pub struct EngineConfig {
    /// The storage section.
    pub storage: StorageConfig,
}

impl EngineConfig {
    /// Validates the configuration: the data directory must not be empty
    /// and the buffer pool must have at least one page.
    pub fn validate(&self) -> (r: Result<(), ConfigError>)
        ensures
            r is Ok <==> self.storage.data_dir@.len() > 0 && self.storage.buffer_pages > 0,
    {
        if self.storage.data_dir.unicode_len() == 0 {
            return Err(
                ConfigError::Invalid {
                    message: "storage.data_dir must not be empty".to_string(),
                },
            );
        }
        if self.storage.buffer_pages == 0 {
            return Err(
                ConfigError::Invalid {
                    message: "storage.buffer_pages must be strictly positive".to_string(),
                },
            );
        }
        Ok(())
    }
}

} // verus!
