//! The client-to-server protocol messages.
//!
//! A client sends one JSON object per line, discriminated by a
//! `message_type` field holding the lowercase variant name.

use vstd::prelude::*;

use crate::backup::Backup;

verus! {

/// The payload of a `runbackup` request: the backup to run, by name.
#[derive(Debug)]
pub struct ClientMessageRunBackup {
    pub name: String,
}

/// The payload of a `createbackup` request: the full definition to
/// create.
#[derive(Debug)]
pub struct ClientMessageCreateBackup {
    pub backup: Backup,
}

/// One decoded request line.
#[derive(Debug)]
pub enum ClientMessage {
    CreateBackup(ClientMessageCreateBackup),
    RunBackup(ClientMessageRunBackup),
    ListBackups,
}

} // verus!
