//! A backup-orchestration daemon library.
//!
//! The daemon owns named backup definitions, persists them as a small
//! directory tree of plain files, drives an external backup engine through
//! its command-line interface, and speaks a line-delimited JSON protocol
//! with its clients. This crate holds the verified core: the repository
//! connection-string format, the configuration-store model, the engine
//! facade's decisions (arguments, rollback, stats framing), and the
//! protocol dispatch. The surrounding process (sockets, filesystem,
//! subprocesses) lives outside the library and hands it plain values.

pub mod backup;
pub mod client;
pub mod engine;
pub mod error;
pub mod json;
pub mod protocol;
pub mod repository;
pub mod store;
pub mod text;

pub use backup::check_lines;
pub use backup::check_name;
pub use backup::Backup;
pub use client::ClientMessage;
pub use client::ClientMessageCreateBackup;
pub use client::ClientMessageRunBackup;
pub use engine::frame_line;
pub use engine::Restic;
pub use error::ServerError;
pub use json::add_key;
pub use json::add_message_type;
pub use json::try_add_key;
pub use protocol::annotate_stats_line;
pub use protocol::backups_list_line;
pub use protocol::create_response_line;
pub use protocol::parse_client_message;
pub use repository::Repository;
pub use repository::RepositoryKind;
pub use store::backup_files;
pub use store::BackupFiles;
pub use store::parse_env_lines;
pub use store::ConfigError;
pub use store::Configuration;
pub use text::parse_lines;
pub use text::render_lines;
pub use text::trimmed;
