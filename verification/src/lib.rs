//! Locates build-artifact directories under a base directory, accounts for
//! their disk footprint, and plans their deletion.
//!
//! The library works on plain in-memory values: a directory tree is a
//! [`tree::FsTree`], one level of a base directory is a list of
//! [`scan::ChildEntry`] records, and a deletion run is driven through a
//! [`deletion::DeletionSession`] state machine. The surrounding binary reads
//! the filesystem into these values, lets the library decide, and carries the
//! decisions out.

pub mod candidates;
pub mod cli;
pub mod deletion;
pub mod scan;
pub mod tree;

pub use candidates::sort_by_size_desc;
pub use candidates::total_size;
pub use candidates::TargetDirInfo;
pub use cli::Cli;
pub use cli::RunMode;
pub use deletion::handle_deletion;
pub use deletion::DeletionOutcome;
pub use deletion::DeletionSession;
pub use scan::find_target_dirs;
pub use scan::ChildEntry;
pub use tree::calculate_dir_size;
pub use tree::FsTree;
