//! The database as a whole: its version, its state, and the errors of its
//! query language.

use vstd::prelude::*;
use vstd::string::StringExecFns;
use crate::ttl::{decimal_spec, u64_to_string};

verus! {

/// The version of the database, a byte for each of its two parts.
pub const EINSTEIN_DB_VERSION: u32 = 0x0101;

/// The version of the data language.
pub const EINSTEIN_ML_VERSION: u32 = 0x0101;

/// The room that a version takes when it is written.
pub const EINSTEIN_DB_VERSION_STR_LEN: usize = 16;

/// The version of the database as it is written.
pub open spec fn version_str_spec() -> Seq<char> {
    "0.1.1"@
}

/// The kinds of error of the query language.
#[derive(Clone, Copy, Debug, PartialEq, Eq, Structural)]
pub enum BerolinaSqlErrorType {
    IoError,
    SqlError,
}

/// An error of the query language.
#[derive(Debug, PartialEq, Eq)]
pub enum BerolinaSqlError {
    /// Reading or writing failed; with what the system told.
    IoError(String),
    /// The query is at fault.
    SqlError(String),
}

impl BerolinaSqlError {
    /// The error of the given kind with the given message.
    pub fn new(error_type: BerolinaSqlErrorType, error_msg: String) -> (r: BerolinaSqlError)
        ensures
            r == (match error_type {
                BerolinaSqlErrorType::IoError => BerolinaSqlError::IoError(error_msg),
                BerolinaSqlErrorType::SqlError => BerolinaSqlError::SqlError(error_msg),
            }),
    {
        match error_type {
            BerolinaSqlErrorType::IoError => BerolinaSqlError::IoError(error_msg),
            BerolinaSqlErrorType::SqlError => BerolinaSqlError::SqlError(error_msg),
        }
    }

    /// The kind of the error.
    pub fn error_type(&self) -> (r: BerolinaSqlErrorType)
        ensures
            r == (match *self {
                BerolinaSqlError::IoError(_) => BerolinaSqlErrorType::IoError,
                BerolinaSqlError::SqlError(_) => BerolinaSqlErrorType::SqlError,
            }),
    {
        match self {
            BerolinaSqlError::IoError(_) => BerolinaSqlErrorType::IoError,
            BerolinaSqlError::SqlError(_) => BerolinaSqlErrorType::SqlError,
        }
    }
}

/// What is told of an error.
#[derive(Debug, PartialEq, Eq)]
pub struct BerolinaSqlErrorInfo {
    pub error_type: BerolinaSqlErrorType,
    pub error_msg: String,
}

/// What is told of a list of errors.
#[derive(Debug, PartialEq, Eq)]
pub struct BerolinaSqlErrorInfoList {
    pub error_info_list: Vec<BerolinaSqlErrorInfo>,
}

impl BerolinaSqlErrorInfoList {
    /// An empty list.
    pub fn new() -> (r: BerolinaSqlErrorInfoList)
        ensures
            r.error_info_list@.len() == 0,
    {
        BerolinaSqlErrorInfoList { error_info_list: Vec::new() }
    }
}

/// What is told of an error, in the form in which it is sent.
#[derive(Debug, PartialEq, Eq)]
pub struct BerolinaSqlErrorInfoSerialized {
    pub error_type: BerolinaSqlErrorType,
    pub error_msg: String,
}

/// What is told of a list of errors, in the form in which it is sent.
#[derive(Debug, PartialEq, Eq)]
pub struct BerolinaSqlErrorInfoListSerialized {
    pub error_info_list: Vec<BerolinaSqlErrorInfoSerialized>,
}

impl BerolinaSqlErrorInfoListSerialized {
    /// An empty list.
    pub fn new() -> (r: BerolinaSqlErrorInfoListSerialized)
        ensures
            r.error_info_list@.len() == 0,
    {
        BerolinaSqlErrorInfoListSerialized { error_info_list: Vec::new() }
    }
}

/// A version of the database.
#[derive(Debug, PartialEq, Eq, PartialOrd, Ord, Hash)]
pub struct EinsteinDBVersion {
    pub version: u32,
    pub version_str: String,
}

impl EinsteinDBVersion {
    pub fn new(version: u32, version_str: String) -> (r: EinsteinDBVersion)
        ensures
            r.version == version,
            r.version_str == version_str,
    {
        EinsteinDBVersion { version, version_str }
    }
}

/// A version of the data language.
#[derive(Debug, PartialEq, Eq, PartialOrd, Ord, Hash)]
pub struct EinsteinDBMLVersion {
    pub version: u32,
    pub version_str: String,
}

impl EinsteinDBMLVersion {
    pub fn new(version: u32, version_str: String) -> (r: EinsteinDBMLVersion)
        ensures
            r.version == version,
            r.version_str == version_str,
    {
        EinsteinDBMLVersion { version, version_str }
    }
}

/// What the database tells of its version.
#[derive(Debug, PartialEq, Eq)]
pub struct EinsteinDB {
    pub version: u32,
    pub version_str: String,
    pub version_str_len: usize,
}

/// Whether the database runs.
#[derive(Clone, Copy, Debug, PartialEq, Eq, Structural)]
pub enum EinsteinDbState {
    /// Made and not started yet.
    Init,
    Running,
    Stopped,
}

/// The name of a state.
pub open spec fn state_name(s: EinsteinDbState) -> Seq<char> {
    match s {
        EinsteinDbState::Init => "Init"@,
        EinsteinDbState::Running => "Running"@,
        EinsteinDbState::Stopped => "Stopped"@,
    }
}

impl EinsteinDbState {
    pub fn is_running(&self) -> (r: bool)
        ensures
            r == (*self == EinsteinDbState::Running),
    {
        match self {
            EinsteinDbState::Running => true,
            _ => false,
        }
    }
}

/// The database: its versions and its state, which is always shown by
/// name too.
#[derive(Debug, PartialEq, Eq)]
pub struct EinsteinDb {
    pub version: u32,
    pub version_str: String,
    pub version_str_len: usize,
    pub einstein_db_state: EinsteinDbState,
    pub einstein_db_state_str: String,
    pub einstein_ml_version: String,
    pub einstein_ml_version_str: String,
    pub einstein_db_version: String,
}

impl EinsteinDb {
    /// The database of this version, made and not started.
    pub fn new() -> (r: EinsteinDb)
        ensures
            r.version == EINSTEIN_DB_VERSION,
            r.version_str@ == version_str_spec(),
            r.version_str_len == EINSTEIN_DB_VERSION_STR_LEN,
            r.einstein_db_state == EinsteinDbState::Init,
            r.einstein_db_state_str@ == state_name(EinsteinDbState::Init),
            r.einstein_ml_version@ == decimal_spec(EINSTEIN_ML_VERSION as nat),
            r.einstein_ml_version_str@ == version_str_spec(),
            r.einstein_db_version@ == version_str_spec(),
    {
        EinsteinDb {
            version: EINSTEIN_DB_VERSION,
            version_str: String::from_str("0.1.1"),
            version_str_len: EINSTEIN_DB_VERSION_STR_LEN,
            einstein_db_state: EinsteinDbState::Init,
            einstein_db_state_str: String::from_str("Init"),
            einstein_ml_version: u64_to_string(EINSTEIN_ML_VERSION as u64),
            einstein_ml_version_str: String::from_str("0.1.1"),
            einstein_db_version: String::from_str("0.1.1"),
        }
    }

    /// Starts the database.
    pub fn start(&mut self)
        ensures
            final(self).einstein_db_state == EinsteinDbState::Running,
            final(self).einstein_db_state_str@ == state_name(EinsteinDbState::Running),
            final(self).version == old(self).version,
            final(self).version_str == old(self).version_str,
            final(self).version_str_len == old(self).version_str_len,
            final(self).einstein_ml_version == old(self).einstein_ml_version,
            final(self).einstein_ml_version_str == old(self).einstein_ml_version_str,
            final(self).einstein_db_version == old(self).einstein_db_version,
    {
        self.einstein_db_state = EinsteinDbState::Running;
        self.einstein_db_state_str = String::from_str("Running");
    }

    /// Stops the database.
    pub fn stop(&mut self)
        ensures
            final(self).einstein_db_state == EinsteinDbState::Stopped,
            final(self).einstein_db_state_str@ == state_name(EinsteinDbState::Stopped),
            final(self).version == old(self).version,
            final(self).version_str == old(self).version_str,
            final(self).version_str_len == old(self).version_str_len,
            final(self).einstein_ml_version == old(self).einstein_ml_version,
            final(self).einstein_ml_version_str == old(self).einstein_ml_version_str,
            final(self).einstein_db_version == old(self).einstein_db_version,
    {
        self.einstein_db_state = EinsteinDbState::Stopped;
        self.einstein_db_state_str = String::from_str("Stopped");
    }

    pub fn is_running(&self) -> (r: bool)
        ensures
            r == (self.einstein_db_state == EinsteinDbState::Running),
    {
        self.einstein_db_state.is_running()
    }

    pub fn get_version(&self) -> (r: u32)
        ensures
            r == self.version,
    {
        self.version
    }

    pub fn get_version_str(&self) -> (r: String)
        ensures
            r@ == self.version_str@,
    {
        self.version_str.clone()
    }

    pub fn get_version_str_len(&self) -> (r: usize)
        ensures
            r == self.version_str_len,
    {
        self.version_str_len
    }
}

/// What a store tells of one run of its compaction.
pub trait CompactionJobInfo {
    /// How the properties of the tables are shown.
    type TablePropertiesCollectionView;

    /// Why a compaction is run.
    type CompactionReason;

    /// Whether the compaction went through; the message of the store where
    /// it did not.
    fn status(&self) -> Result<(), String>;

    /// The name of the column family that was compacted.
    fn namespaced_name(&self) -> &str;

    fn input_file_count(&self) -> usize;

    fn num_input_files_at_output_l_naught(&self) -> usize;

    /// The path of the input file at `pos`.
    fn input_file_at(&self, pos: usize) -> &str;

    fn output_file_count(&self) -> usize;

    /// The path of the output file at `pos`.
    fn output_file_at(&self, pos: usize) -> &str;

    fn table_properties(&self) -> &Self::TablePropertiesCollectionView;

    fn base_input_l_naught(&self) -> i32;

    fn elapsed_micros(&self) -> u64;

    fn num_corrupt_keys(&self) -> u64;

    fn output_l_naught(&self) -> i32;

    fn input_records(&self) -> u64;

    fn output_records(&self) -> u64;

    fn total_input_bytes(&self) -> u64;

    fn total_output_bytes(&self) -> u64;

    fn jet_bundle_reason(&self) -> Self::CompactionReason;
}

} // verus!
