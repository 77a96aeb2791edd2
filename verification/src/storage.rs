//! Names and statements of the persistent store.

use vstd::prelude::*;
use crate::errors::Error;

verus! {

/// The two tables of the persistent store.
#[derive(Clone, Copy, Debug, PartialEq, Eq, Structural)]
pub enum Table {
    /// The single-slot record of the cached session credential.
    LastFMSession,
    /// The append-only set of reconciled track identifiers.
    SyncedTrack,
}

impl Table {
    /// The table's name as a sequence of characters.
    pub open spec fn name(self) -> Seq<char> {
        match self {
            Table::LastFMSession => "last_fm_session"@,
            Table::SyncedTrack => "synced_track"@,
        }
    }

    /// The table's name in the store.
    pub fn as_str(&self) -> (s: &'static str)
        ensures
            s@ == self.name(),
    {
        match self {
            Table::LastFMSession => "last_fm_session",
            Table::SyncedTrack => "synced_track",
        }
    }
}

/// The name of the sequence that numbers the rows of the credential table.
pub open spec fn sequence_name() -> Seq<char> {
    "id_sequence"@
}

/// The statements that create the sequence and the two tables where they do
/// not exist yet.
pub open spec fn create_tables_text() -> Seq<char> {
    "CREATE SEQUENCE IF NOT EXISTS "@ + sequence_name() + " START 1; "@
        + "CREATE TABLE IF NOT EXISTS "@ + Table::LastFMSession.name()
        + " (id INTEGER PRIMARY KEY DEFAULT nextval('"@ + sequence_name()
        + "'), session_key TEXT, user_name TEXT); "@ + "CREATE TABLE IF NOT EXISTS "@
        + Table::SyncedTrack.name() + " (track_id TEXT PRIMARY KEY);"@
}

/// The query for the latest credential.
pub open spec fn select_session_text() -> Seq<char> {
    "SELECT session_key, user_name FROM "@ + Table::LastFMSession.name()
        + " ORDER BY id DESC LIMIT 1;"@
}

/// The statement that stores a first credential.
pub open spec fn insert_session_text() -> Seq<char> {
    "INSERT INTO "@ + Table::LastFMSession.name() + " (session_key, user_name) VALUES (?1, ?2);"@
}

/// The statement that overwrites the stored credential.
pub open spec fn update_session_text() -> Seq<char> {
    "UPDATE "@ + Table::LastFMSession.name() + " SET session_key = ?1, user_name = ?2;"@
}

/// The query that looks one identifier up among the reconciled ones.
pub open spec fn select_track_text() -> Seq<char> {
    "SELECT 1 FROM "@ + Table::SyncedTrack.name() + " WHERE track_id = ?1 LIMIT 1;"@
}

/// The query for every reconciled identifier.
pub open spec fn select_all_tracks_text() -> Seq<char> {
    "SELECT track_id FROM "@ + Table::SyncedTrack.name() + ";"@
}

/// The statements that prepare an empty store.
pub fn create_tables_sql() -> (sql: String)
    ensures
        sql@ == create_tables_text(),
{
    let session = Table::LastFMSession.as_str();
    let track = Table::SyncedTrack.as_str();
    let sequence = "id_sequence";
    String::from_str("CREATE SEQUENCE IF NOT EXISTS ").concat(sequence).concat(
        " START 1; ",
    ).concat("CREATE TABLE IF NOT EXISTS ").concat(session).concat(
        " (id INTEGER PRIMARY KEY DEFAULT nextval('",
    ).concat(sequence).concat("'), session_key TEXT, user_name TEXT); ").concat(
        "CREATE TABLE IF NOT EXISTS ",
    ).concat(track).concat(" (track_id TEXT PRIMARY KEY);")
}

/// The query that reads the latest credential.
pub fn select_session_sql() -> (sql: String)
    ensures
        sql@ == select_session_text(),
{
    String::from_str("SELECT session_key, user_name FROM ").concat(
        Table::LastFMSession.as_str(),
    ).concat(" ORDER BY id DESC LIMIT 1;")
}

/// The statement that stores a credential in the empty slot.
pub fn insert_session_sql() -> (sql: String)
    ensures
        sql@ == insert_session_text(),
{
    String::from_str("INSERT INTO ").concat(Table::LastFMSession.as_str()).concat(
        " (session_key, user_name) VALUES (?1, ?2);",
    )
}

/// The statement that replaces the credential in the slot.
pub fn update_session_sql() -> (sql: String)
    ensures
        sql@ == update_session_text(),
{
    String::from_str("UPDATE ").concat(Table::LastFMSession.as_str()).concat(
        " SET session_key = ?1, user_name = ?2;",
    )
}

/// The query that tells whether one identifier is reconciled.
pub fn select_track_sql() -> (sql: String)
    ensures
        sql@ == select_track_text(),
{
    String::from_str("SELECT 1 FROM ").concat(Table::SyncedTrack.as_str()).concat(
        " WHERE track_id = ?1 LIMIT 1;",
    )
}

/// The query that reads every reconciled identifier.
pub fn select_all_tracks_sql() -> (sql: String)
    ensures
        sql@ == select_all_tracks_text(),
{
    String::from_str("SELECT track_id FROM ").concat(Table::SyncedTrack.as_str()).concat(";")
}

/// How a lookup of one row ended.
#[derive(Debug, PartialEq, Eq)]
pub enum RowLookup {
    /// A row came back.
    Row,
    /// The query ran and held no row.
    Empty,
    /// The store reported the absence of rows as a failure of the query.
    NoRowsReported,
    /// The store failed, for the reason given.
    Failed(String),
}

/// Whether a track is reconciled, from the lookup of its identifier. That
/// no row was found means no, however the store says so; any other failure
/// of the store is a failure.
pub fn is_track_synced(lookup: RowLookup) -> (synced: Result<bool, Error>)
    ensures
        match lookup {
            RowLookup::Row => synced == Ok::<bool, Error>(true),
            RowLookup::Empty => synced == Ok::<bool, Error>(false),
            RowLookup::NoRowsReported => synced == Ok::<bool, Error>(false),
            RowLookup::Failed(cause) => synced == Err::<bool, Error>(Error::StorageError(cause)),
        },
{
    match lookup {
        RowLookup::Row => Ok(true),
        RowLookup::Empty => Ok(false),
        RowLookup::NoRowsReported => Ok(false),
        RowLookup::Failed(cause) => Err(Error::StorageError(cause)),
    }
}

} // verus!
