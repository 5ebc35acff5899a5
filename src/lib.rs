//! Mirrored, compressed backups of directory trees: the path mapping between a
//! source tree and its compressed replica, the per-file codec steps, the
//! staleness rules of incremental runs, the comparison tree, and the registry
//! of configured backup jobs.
pub mod codec;
pub mod errors;
pub mod fingerprint;
pub mod paths;
pub mod registry;
pub mod report;
pub mod select;
pub mod time;
pub mod tree;
