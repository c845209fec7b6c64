//! A read-through disk cache for objects of a remote store.
//!
//! The library holds the logic of the cache: the mapping between object keys
//! and file names, the bounded least-recently-used store of entries, the
//! decisions of the fetch pipeline that copies a remote stream to disk and to
//! the client, the reconstruction of the store from a directory listing, and
//! the choice of content types. Everything that touches the network or the
//! disk is left to the caller, which hands the library plain values.
pub mod boot;
pub mod codec;
pub mod content;
pub mod lru_slots;
pub mod recency;
pub mod serve;
pub mod store;
pub mod tee;

pub use boot::{boot_entries, DiskFile};
pub use codec::{encode_key, generate_file_path, generate_key_from_filename, normalize_key};
pub use content::{content_type_from_hint, determine_content_type};
pub use serve::{declared_length, ServeError};
pub use store::{CacheEntry, CacheStore};
pub use tee::{TeeAction, TeeEvent, TeePhase, TeePipeline};
