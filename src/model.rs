//! The profile, the pool and the outcome of a pass, with their mathematical models.
use vstd::prelude::*;

verus! {

/// A reconcilable field: a name and a value that is either unset or one string.
pub struct Field {
    pub key: String,
    pub value: Option<String>,
}

/// A field sourced from an authoritative external tag; never merged.
pub struct StaticField {
    pub key: String,
    pub values: Vec<String>,
}

/// One entry of the append-only debug log.
pub struct DebugEntry {
    pub timestamp: u64,
    pub message: String,
}

/// Outcome of the last reconciliation pass, for observability only.
pub enum Status {
    UpdateSpoolman(String),
    UpdatedLocal(String),
    UpdatedBoth(String, String),
    Noop,
}

/// Sync state embedded in each local profile.
pub struct Notes {
    pub pool_id: Option<u64>,
    pub printer_id: Option<String>,
    pub force_push: Option<bool>,
    pub force_pull: Option<bool>,
    pub dry_run: Option<bool>,
    pub last_modified: Option<u64>,
    pub status: Status,
    pub debug: Vec<DebugEntry>,
    pub errors: Vec<String>,
    pub desired_local: Option<Vec<Field>>,
    pub desired_remote: Option<Vec<Field>>,
}

/// One slicer filament profile.
pub struct LocalProfile {
    pub id: Option<String>,
    pub name: Option<String>,
    pub static_fields: Vec<StaticField>,
    pub reconcilable_fields: Vec<Field>,
    pub inherits: Option<String>,
    pub notes: Notes,
}

/// The pool's copy of the reconcilable fields for one printer.
pub struct FilamentRecord {
    pub fields: Vec<Field>,
    pub last_modified: Option<u64>,
}

/// The record kept for one printer id.
pub struct PrinterEntry {
    pub printer_id: String,
    pub record: FilamentRecord,
}

/// A generic externally sourced override; read-only to the engine.
pub struct Override {
    pub key: String,
    pub value: String,
}

/// The pool: one record per printer, plus the generic overrides.
pub struct PoolRecord {
    pub printers: Vec<PrinterEntry>,
    pub overrides: Vec<Override>,
}

/// The errors that the engine appends to a profile's `errors` log.
pub enum ReconcileError {
    NoPrinter,
    AmbiguousPrinter,
    ForceFlagConflict,
    ConflictUnresolvable(String),
}

/// What one reconciliation pass did.
pub enum Outcome {
    /// The profile already carried errors: nothing was touched.
    Sealed,
    /// An error was appended to the profile; nothing else changed.
    Rejected(ReconcileError),
    /// The pass completed; the flags say which side has to be persisted.
    Applied { status: Status, write_local: bool, write_remote: bool },
}

// ---- mathematical models ----

pub type FieldV = (Seq<char>, Option<Seq<char>>);

pub type FieldsV = Seq<FieldV>;

pub ghost enum StatusV {
    UpdateSpoolman(Seq<char>),
    UpdatedLocal(Seq<char>),
    UpdatedBoth(Seq<char>, Seq<char>),
    Noop,
}

pub ghost struct NotesV {
    pub pool_id: Option<u64>,
    pub printer_id: Option<Seq<char>>,
    pub force_push: Option<bool>,
    pub force_pull: Option<bool>,
    pub dry_run: Option<bool>,
    pub last_modified: Option<u64>,
    pub status: StatusV,
    pub debug: Seq<(u64, Seq<char>)>,
    pub errors: Seq<Seq<char>>,
    pub desired_local: Option<FieldsV>,
    pub desired_remote: Option<FieldsV>,
}

pub ghost struct ProfileV {
    pub id: Option<Seq<char>>,
    pub name: Option<Seq<char>>,
    pub static_fields: Seq<(Seq<char>, Seq<Seq<char>>)>,
    pub fields: FieldsV,
    pub inherits: Option<Seq<char>>,
    pub notes: NotesV,
}

pub ghost struct RecordV {
    pub fields: FieldsV,
    pub last_modified: Option<u64>,
}

pub ghost struct PoolV {
    pub printers: Seq<(Seq<char>, RecordV)>,
    pub overrides: Seq<(Seq<char>, Seq<char>)>,
}

pub ghost enum ErrorV {
    NoPrinter,
    AmbiguousPrinter,
    ForceFlagConflict,
    ConflictUnresolvable(Seq<char>),
}

pub ghost enum OutcomeV {
    Sealed,
    Rejected(ErrorV),
    Applied { status: StatusV, write_local: bool, write_remote: bool },
}

pub open spec fn opt_str(o: Option<String>) -> Option<Seq<char>> {
    match o {
        Some(s) => Some(s@),
        None => None,
    }
}

pub open spec fn strs_view(v: Seq<String>) -> Seq<Seq<char>> {
    v.map_values(|s: String| s@)
}

pub open spec fn fields_view(v: Seq<Field>) -> FieldsV {
    v.map_values(|f: Field| f@)
}

pub open spec fn opt_fields(o: Option<Vec<Field>>) -> Option<FieldsV> {
    match o {
        Some(v) => Some(fields_view(v@)),
        None => None,
    }
}

impl View for Field {
    type V = FieldV;

    open spec fn view(&self) -> FieldV {
        (self.key@, opt_str(self.value))
    }
}

impl View for StaticField {
    type V = (Seq<char>, Seq<Seq<char>>);

    open spec fn view(&self) -> (Seq<char>, Seq<Seq<char>>) {
        (self.key@, strs_view(self.values@))
    }
}

impl View for DebugEntry {
    type V = (u64, Seq<char>);

    open spec fn view(&self) -> (u64, Seq<char>) {
        (self.timestamp, self.message@)
    }
}

impl View for Status {
    type V = StatusV;

    open spec fn view(&self) -> StatusV {
        match self {
            Status::UpdateSpoolman(r) => StatusV::UpdateSpoolman(r@),
            Status::UpdatedLocal(r) => StatusV::UpdatedLocal(r@),
            Status::UpdatedBoth(a, b) => StatusV::UpdatedBoth(a@, b@),
            Status::Noop => StatusV::Noop,
        }
    }
}

impl View for Notes {
    type V = NotesV;

    open spec fn view(&self) -> NotesV {
        NotesV {
            pool_id: self.pool_id,
            printer_id: opt_str(self.printer_id),
            force_push: self.force_push,
            force_pull: self.force_pull,
            dry_run: self.dry_run,
            last_modified: self.last_modified,
            status: self.status@,
            debug: self.debug@.map_values(|d: DebugEntry| d@),
            errors: strs_view(self.errors@),
            desired_local: opt_fields(self.desired_local),
            desired_remote: opt_fields(self.desired_remote),
        }
    }
}

impl View for LocalProfile {
    type V = ProfileV;

    open spec fn view(&self) -> ProfileV {
        ProfileV {
            id: opt_str(self.id),
            name: opt_str(self.name),
            static_fields: self.static_fields@.map_values(|s: StaticField| s@),
            fields: fields_view(self.reconcilable_fields@),
            inherits: opt_str(self.inherits),
            notes: self.notes@,
        }
    }
}

impl View for FilamentRecord {
    type V = RecordV;

    open spec fn view(&self) -> RecordV {
        RecordV { fields: fields_view(self.fields@), last_modified: self.last_modified }
    }
}

impl View for PrinterEntry {
    type V = (Seq<char>, RecordV);

    open spec fn view(&self) -> (Seq<char>, RecordV) {
        (self.printer_id@, self.record@)
    }
}

impl View for Override {
    type V = (Seq<char>, Seq<char>);

    open spec fn view(&self) -> (Seq<char>, Seq<char>) {
        (self.key@, self.value@)
    }
}

impl View for PoolRecord {
    type V = PoolV;

    open spec fn view(&self) -> PoolV {
        PoolV {
            printers: self.printers@.map_values(|p: PrinterEntry| p@),
            overrides: self.overrides@.map_values(|o: Override| o@),
        }
    }
}

impl View for ReconcileError {
    type V = ErrorV;

    open spec fn view(&self) -> ErrorV {
        match self {
            ReconcileError::NoPrinter => ErrorV::NoPrinter,
            ReconcileError::AmbiguousPrinter => ErrorV::AmbiguousPrinter,
            ReconcileError::ForceFlagConflict => ErrorV::ForceFlagConflict,
            ReconcileError::ConflictUnresolvable(k) => ErrorV::ConflictUnresolvable(k@),
        }
    }
}

impl View for Outcome {
    type V = OutcomeV;

    open spec fn view(&self) -> OutcomeV {
        match self {
            Outcome::Sealed => OutcomeV::Sealed,
            Outcome::Rejected(e) => OutcomeV::Rejected(e@),
            Outcome::Applied { status, write_local, write_remote } => OutcomeV::Applied {
                status: status@,
                write_local: *write_local,
                write_remote: *write_remote,
            },
        }
    }
}

} // verus!
