//! What the store refuses, and the rules by which it is opened.

use crate::config_rules::digit_char;
#[allow(unused_imports)]
use crate::config_rules::{digits_value, is_digit};
use crate::model::Timestamp;
use crate::outside::check_instant;
#[allow(unused_imports)]
use crate::outside::is_instant;
use crate::scan::parse_number;
#[allow(unused_imports)]
use crate::scan::{all_digits, number_of};
use crate::text::{
    chars_of, concat3, contains_text, decimal_string, split_str, str_equal,
};
#[allow(unused_imports)]
use crate::text::{decimal, digit, signed_decimal, split_text, texts};
use vstd::prelude::*;

verus! {

/// The version of the tables that this crate writes.
pub const SCHEMA_VERSION: i64 = 2;

/// How many days an artifact is kept.
pub const ARTIFACT_DAYS: i64 = 30;

/// Why the store does not do as it is told.
#[derive(Clone, Debug, PartialEq, Eq)]
#[allow(inconsistent_fields)]
pub enum StoreError {
    Sql(String),
    Json(String),
    Integrity(String),
    RevisionConflict { expected: u64, actual: u64 },
    RepositoryMissing,
    SqliteTooOld { actual: String },
    ArtifactTooLarge(u64),
    CommandReplayMismatch,
    SchemaTooNew { actual: i64, supported: i64 },
    Io(String),
}

/// Writes a number in decimal notation.
pub fn wide_decimal(n: u128) -> (r: String)
    ensures
        r@ == decimal(n as nat),
    decreases n,
{
    if n < 10 {
        decimal_string(n as u64)
    } else {
        let mut out = wide_decimal(n / 10);
        out.append(decimal_string((n % 10) as u64).as_str());
        assert(out@ =~= decimal((n / 10) as nat).push(digit((n % 10) as nat)));
        out
    }
}

/// Writes a whole number in decimal notation.
pub fn wide_signed(n: i128) -> (r: String)
    requires
        n > i128::MIN,
    ensures
        r@ == signed_decimal(n as int),
{
    if n < 0 {
        let magnitude: i128 = -n;
        "-".to_owned().concat(wide_decimal(magnitude as u128).as_str())
    } else {
        wide_decimal(n as u128)
    }
}

impl StoreError {
    /// The message shown for the error.
    pub open spec fn text(self) -> Seq<char> {
        match self {
            StoreError::Sql(reason) => "SQLite error: "@ + reason@,
            StoreError::Json(reason) => "serialization error: "@ + reason@,
            StoreError::Integrity(reason) => "database integrity check failed: "@ + reason@,
            StoreError::RevisionConflict { expected, actual } =>
                "queue revision conflict: expected "@ + decimal(expected as nat) + ", actual "@
                + decimal(actual as nat),
            StoreError::RepositoryMissing => "repository state has not been initialized"@,
            StoreError::SqliteTooOld { actual } => "SQLite "@ + actual@
                + " is too old; Tollgate requires 3.51.3 or newer"@,
            StoreError::ArtifactTooLarge(bytes) => "artifact is too large to record in SQLite: "@
                + decimal(bytes as nat) + " bytes"@,
            StoreError::CommandReplayMismatch =>
                "command UUID was replayed with a different kind or payload"@,
            StoreError::SchemaTooNew { actual, supported } => "database schema version "@
                + signed_decimal(actual as int) + " is newer than this Tollgate supports ("@
                + signed_decimal(supported as int) + ")"@,
            StoreError::Io(reason) => "I/O error: "@ + reason@,
        }
    }

    /// The message shown for the error.
    pub fn message(&self) -> (r: String)
        ensures
            r@ == self.text(),
    {
        match self {
            StoreError::Sql(reason) => "SQLite error: ".to_owned().concat(reason.as_str()),
            StoreError::Json(reason) => "serialization error: ".to_owned().concat(reason.as_str()),
            StoreError::Integrity(reason) =>
                "database integrity check failed: ".to_owned().concat(reason.as_str()),
            StoreError::RevisionConflict { expected, actual } => concat3(
                "queue revision conflict: expected ",
                decimal_string(*expected).as_str(),
                ", actual ",
            ).concat(decimal_string(*actual).as_str()),
            StoreError::RepositoryMissing => "repository state has not been initialized".to_owned(),
            StoreError::SqliteTooOld { actual } => concat3(
                "SQLite ",
                actual.as_str(),
                " is too old; Tollgate requires 3.51.3 or newer",
            ),
            StoreError::ArtifactTooLarge(bytes) => concat3(
                "artifact is too large to record in SQLite: ",
                decimal_string(*bytes).as_str(),
                " bytes",
            ),
            StoreError::CommandReplayMismatch =>
                "command UUID was replayed with a different kind or payload".to_owned(),
            StoreError::SchemaTooNew { actual, supported } => {
                let mut out = concat3(
                    "database schema version ",
                    wide_signed(*actual as i128).as_str(),
                    " is newer than this Tollgate supports (",
                );
                out.append(wide_signed(*supported as i128).as_str());
                out.append(")");
                out
            },
            StoreError::Io(reason) => "I/O error: ".to_owned().concat(reason.as_str()),
        }
    }

    /// The error says that the store does not hold together, for this reason.
    pub open spec fn broken(self, reason: Seq<char>) -> bool {
        self matches StoreError::Integrity(text) && text@ == reason
    }
}

/// The error that says that the store does not hold together.
pub(crate) fn integrity(reason: &str) -> (r: StoreError)
    ensures
        r.broken(reason@),
{
    StoreError::Integrity(reason.to_owned())
}

/// The error of a statement that the database refuses.
pub(crate) fn refused(reason: &str) -> (r: StoreError)
    ensures
        r is Sql,
{
    StoreError::Sql(reason.to_owned())
}

/// How far an operation has come.
#[derive(Clone, Copy, Debug, PartialEq, Eq, Structural)]
pub enum IntentState {
    Prepared,
    ExternalApplied,
    Completed,
    Canceled,
    NeedsAttention,
}

impl IntentState {
    /// The name of the state in the store.
    pub open spec fn name(self) -> Seq<char> {
        match self {
            IntentState::Prepared => "prepared"@,
            IntentState::ExternalApplied => "external-applied"@,
            IntentState::Completed => "completed"@,
            IntentState::Canceled => "canceled"@,
            IntentState::NeedsAttention => "needs-attention"@,
        }
    }

    /// The name of the state in the store.
    pub fn as_str(self) -> (r: &'static str)
        ensures
            r@ == self.name(),
    {
        match self {
            IntentState::Prepared => "prepared",
            IntentState::ExternalApplied => "external-applied",
            IntentState::Completed => "completed",
            IntentState::Canceled => "canceled",
            IntentState::NeedsAttention => "needs-attention",
        }
    }

    /// The operation is under way.
    pub open spec fn open_state(self) -> bool {
        self == IntentState::Prepared || self == IntentState::ExternalApplied
    }

    /// Whether the operation is under way.
    pub fn is_open(self) -> (r: bool)
        ensures
            r == self.open_state(),
    {
        self == IntentState::Prepared || self == IntentState::ExternalApplied
    }

    /// The operation still has to be looked at.
    pub open spec fn recoverable_state(self) -> bool {
        self.open_state() || self == IntentState::NeedsAttention
    }

    /// Whether the operation still has to be looked at.
    pub fn is_recoverable(self) -> (r: bool)
        ensures
            r == self.recoverable_state(),
    {
        self.is_open() || self == IntentState::NeedsAttention
    }

    /// The state that has a name.
    pub open spec fn named(name: Seq<char>) -> Option<IntentState> {
        if name == "prepared"@ {
            Some(IntentState::Prepared)
        } else if name == "external-applied"@ {
            Some(IntentState::ExternalApplied)
        } else if name == "completed"@ {
            Some(IntentState::Completed)
        } else if name == "canceled"@ {
            Some(IntentState::Canceled)
        } else if name == "needs-attention"@ {
            Some(IntentState::NeedsAttention)
        } else {
            None
        }
    }

    /// The state that has a name.
    pub fn parse(name: &str) -> (r: Option<IntentState>)
        ensures
            r == IntentState::named(name@),
    {
        if str_equal(name, "prepared") {
            Some(IntentState::Prepared)
        } else if str_equal(name, "external-applied") {
            Some(IntentState::ExternalApplied)
        } else if str_equal(name, "completed") {
            Some(IntentState::Completed)
        } else if str_equal(name, "canceled") {
            Some(IntentState::Canceled)
        } else if str_equal(name, "needs-attention") {
            Some(IntentState::NeedsAttention)
        } else {
            None
        }
    }
}

/// The names of the states tell them apart.
pub proof fn law_intent_states_survive_the_store(state: IntentState)
    ensures
        IntentState::named(state.name()) == Some(state),
{
    reveal_strlit("prepared");
    reveal_strlit("external-applied");
    reveal_strlit("completed");
    reveal_strlit("canceled");
    reveal_strlit("needs-attention");
    assert("prepared"@.len() == 8 && "canceled"@.len() == 8);
    assert("prepared"@[0] == 'p' && "canceled"@[0] == 'c');
    assert("completed"@.len() == 9 && "external-applied"@.len() == 16);
    assert("needs-attention"@.len() == 15);
}

/// A part of a version; what is no number counts as zero.
pub open spec fn version_part(parts: Seq<Seq<char>>, i: int) -> nat {
    if i < parts.len() {
        match number_of(parts[i], u32::MAX as nat) {
            Some(number) => number,
            None => 0,
        }
    } else {
        0
    }
}

/// The version is 3.51.3 or newer.
pub open spec fn recent_enough(version: Seq<char>) -> bool {
    let parts = split_text(version, '.');
    let major = version_part(parts, 0);
    let minor = version_part(parts, 1);
    let patch = version_part(parts, 2);
    major > 3 || (major == 3 && (minor > 51 || (minor == 51 && patch >= 3)))
}

fn read_part(parts: &Vec<String>, i: usize) -> (r: u64)
    ensures
        r == version_part(texts(parts@), i as int),
{
    if i < parts.len() {
        assert(texts(parts@)[i as int] == parts@[i as int]@);
        match parse_number(parts[i].as_str(), 0xffff_ffff) {
            Some(number) => number,
            None => 0,
        }
    } else {
        0
    }
}

/// Checks that SQLite is recent enough.
pub fn verify_sqlite_version(version: &str) -> (r: Result<(), StoreError>)
    ensures
        r is Ok <==> recent_enough(version@),
        r matches Err(error) ==> (error matches StoreError::SqliteTooOld { actual } && actual@
            == version@),
{
    let parts = split_str(version, '.');
    let major: u64 = read_part(&parts, 0);
    let minor: u64 = read_part(&parts, 1);
    let patch: u64 = read_part(&parts, 2);
    if major > 3 || (major == 3 && (minor > 51 || (minor == 51 && patch >= 3))) {
        Ok(())
    } else {
        Err(StoreError::SqliteTooOld { actual: version.to_owned() })
    }
}

/// Room that a migration is granted beyond a copy of the database: 512 MiB.
pub const MIGRATION_MARGIN: u64 = 536_870_912;

/// How much room opening a database of a version and a size may take up.
pub open spec fn room_to_open(version: Option<i64>, bytes: nat) -> nat {
    if version is None || version == Some(SCHEMA_VERSION) {
        0
    } else if bytes + MIGRATION_MARGIN <= u64::MAX {
        bytes + MIGRATION_MARGIN as nat
    } else {
        u64::MAX as nat
    }
}

/// How much room opening a database may take up. `version` is the version of the one
/// that exists.
pub fn migration_allowance(version: Option<i64>, database_bytes: u64) -> (r: u64)
    ensures
        r == room_to_open(version, database_bytes as nat),
        version is None || version == Some(SCHEMA_VERSION) ==> r == 0,
        version is Some && version != Some(SCHEMA_VERSION) ==> r == if database_bytes
            + MIGRATION_MARGIN <= u64::MAX {
            database_bytes + MIGRATION_MARGIN
        } else {
            u64::MAX as int
        },
{
    match version {
        None => 0,
        Some(version) => if version == SCHEMA_VERSION {
            0
        } else {
            database_bytes.saturating_add(MIGRATION_MARGIN)
        },
    }
}

/// What is done to a database when it is opened.
#[derive(Clone, Debug, PartialEq, Eq)]
#[allow(inconsistent_fields)]
pub enum MigrationPlan {
    /// Make the tables.
    Create,
    /// Make tables that are missing.
    Refresh,
    /// Take a backup, then bring the tables up to date.
    Upgrade { from: i64 },
}

/// What is done to a database of a version. One without a version that has tables is of
/// the first version.
pub open spec fn migration_of(version: i64, has_tables: bool) -> Result<MigrationPlan, ()> {
    if version > SCHEMA_VERSION {
        Err(())
    } else if version == 0 {
        if has_tables {
            Ok(MigrationPlan::Upgrade { from: 1 })
        } else {
            Ok(MigrationPlan::Create)
        }
    } else if version == SCHEMA_VERSION {
        Ok(MigrationPlan::Refresh)
    } else {
        Ok(MigrationPlan::Upgrade { from: version })
    }
}

/// Decides what is done to a database when it is opened.
pub fn migrate(version: i64, has_tables: bool) -> (r: Result<MigrationPlan, StoreError>)
    ensures
        match migration_of(version, has_tables) {
            Ok(plan) => r == Ok::<MigrationPlan, StoreError>(plan),
            Err(_) => r == Err::<MigrationPlan, StoreError>(
                StoreError::SchemaTooNew { actual: version, supported: SCHEMA_VERSION },
            ),
        },
{
    if version > SCHEMA_VERSION {
        return Err(StoreError::SchemaTooNew { actual: version, supported: SCHEMA_VERSION });
    }
    if version == 0 {
        return Ok(
            if has_tables {
                MigrationPlan::Upgrade { from: 1 }
            } else {
                MigrationPlan::Create
            },
        );
    }
    if version == SCHEMA_VERSION {
        return Ok(MigrationPlan::Refresh);
    }
    Ok(MigrationPlan::Upgrade { from: version })
}

/// A database with tables is never taken for a new one, and one of a later version is
/// never touched.
pub proof fn law_existing_tables_are_never_stamped_fresh(version: i64)
    ensures
        migration_of(version, true) != Ok::<MigrationPlan, ()>(MigrationPlan::Create),
        version > SCHEMA_VERSION ==> migration_of(version, true) is Err && migration_of(
            version,
            false,
        ) is Err,
{
}

/// The columns that the table of artifacts lacks.
#[derive(Clone, Copy, Debug, PartialEq, Eq, Structural)]
pub struct MissingColumns {
    pub created_at: bool,
    pub expires_at: bool,
}

/// Finds out which columns the table of artifacts lacks; only the first version lacks
/// any.
pub fn missing_columns(from: i64, columns: &Vec<String>) -> (r: MissingColumns)
    ensures
        r.created_at == (from == 1 && !texts(columns@).contains("created_at"@)),
        r.expires_at == (from == 1 && !texts(columns@).contains("expires_at"@)),
{
    if from != 1 {
        return MissingColumns { created_at: false, expires_at: false };
    }
    MissingColumns {
        created_at: !contains_text(columns, "created_at"),
        expires_at: !contains_text(columns, "expires_at"),
    }
}

/// The name of the backup that is taken before a migration.
pub fn backup_name(from: i64, token: &str, finished: bool) -> (r: String)
    ensures
        r@ == (if finished {
            "migration-v"@
        } else {
            ".migration-v"@
        }) + signed_decimal(from as int) + "-"@ + token@ + (if finished {
            ".sqlite3"@
        } else {
            ".sqlite3.tmp"@
        }),
{
    let start: &str = if finished {
        "migration-v"
    } else {
        ".migration-v"
    };
    let end: &str = if finished {
        ".sqlite3"
    } else {
        ".sqlite3.tmp"
    };
    concat3(start, wide_signed(from as i128).as_str(), "-").concat(token).concat(end)
}

/// The name of a migration.
pub open spec fn migration_named(from: i64) -> Seq<char> {
    "schema-"@ + signed_decimal(from as int) + "-to-"@ + signed_decimal(SCHEMA_VERSION as int)
}

/// The name of a migration.
pub fn migration_name(from: i64) -> (r: String)
    ensures
        r@ == migration_named(from),
{
    concat3("schema-", wide_signed(from as i128).as_str(), "-to-").concat(
        wide_signed(SCHEMA_VERSION as i128).as_str(),
    )
}

/// Judges what the database says of its own integrity. `context` stands before a
/// complaint.
pub fn check_integrity(result: &str, context: &str) -> (r: Result<(), StoreError>)
    ensures
        r is Ok <==> result@ == "ok"@,
        r matches Err(error) ==> error.broken(context@ + result@),
{
    if str_equal(result, "ok") {
        Ok(())
    } else {
        Err(StoreError::Integrity(context.to_owned().concat(result)))
    }
}

/// A number that the database can hold.
pub open spec fn fits_sqlite(value: u64) -> bool {
    value <= i64::MAX
}

/// Turns a number into one that the database can hold.
pub fn to_sqlite(value: u64, complaint: &str) -> (r: Result<i64, StoreError>)
    ensures
        r is Ok <==> fits_sqlite(value),
        r matches Ok(number) ==> number == value,
        r matches Err(error) ==> error.broken(complaint@),
{
    if value <= 0x7fff_ffff_ffff_ffff {
        Ok(value as i64)
    } else {
        Err(integrity(complaint))
    }
}

/// Turns the size of an artifact into a number that the database can hold.
pub fn artifact_size(size: u64) -> (r: Result<i64, StoreError>)
    ensures
        match r {
            Ok(number) => fits_sqlite(size) && number == size,
            Err(error) => !fits_sqlite(size) && error == StoreError::ArtifactTooLarge(size),
        },
{
    if size <= 0x7fff_ffff_ffff_ffff {
        Ok(size as i64)
    } else {
        Err(StoreError::ArtifactTooLarge(size))
    }
}

/// Turns a number of the database into one that counts something.
pub fn from_sqlite(value: i64, complaint: &str) -> (r: Result<u64, StoreError>)
    ensures
        r is Ok <==> value >= 0,
        r matches Ok(number) ==> number == value,
        r matches Err(error) ==> error.broken(complaint@),
{
    if value >= 0 {
        Ok(value as u64)
    } else {
        Err(integrity(complaint))
    }
}

/// How an instant is written in the store.
pub fn encode_time(value: Timestamp) -> (r: String)
    requires
        value.unix_nanos > i128::MIN,
    ensures
        r@ == signed_decimal(value.unix_nanos as int),
{
    wide_signed(value.unix_nanos)
}

/// The whole number that a text denotes in decimal notation.
pub open spec fn whole_number(text: Seq<char>) -> Option<int> {
    let negative = text.len() > 1 && text[0] == '-';
    let digits = if text.len() > 1 && (text[0] == '-' || text[0] == '+') {
        text.drop_first()
    } else {
        text
    };
    if digits.len() == 0 || !all_digits(digits) {
        None
    } else if negative {
        Some(-(digits_value(digits) as int))
    } else {
        Some(digits_value(digits) as int)
    }
}

/// The instant that a text denotes.
pub open spec fn instant_in(text: Seq<char>) -> Option<Timestamp> {
    match whole_number(text) {
        Some(nanos) => if is_instant(nanos) {
            Some(Timestamp { unix_nanos: nanos as i128 })
        } else {
            None
        },
        None => None,
    }
}

proof fn lemma_digits_grow(digits: Seq<char>, n: int)
    requires
        0 <= n <= digits.len(),
        all_digits(digits),
    ensures
        digits_value(digits.take(n)) <= digits_value(digits),
    decreases digits.len() - n,
{
    if n < digits.len() {
        lemma_digits_grow(digits, n + 1);
        assert(digits.take(n + 1).drop_last() =~= digits.take(n));
        assert(is_digit(digits[n]));
    } else {
        assert(digits.take(n) =~= digits);
    }
}

fn read_wide(chars: &Vec<char>, start: usize) -> (r: Option<u128>)
    requires
        start <= chars@.len(),
    ensures
        ({
            let digits = chars@.skip(start as int);
            match r {
                Some(number) => all_digits(digits) && digits_value(digits) == number,
                None => !all_digits(digits) || digits_value(digits) > u128::MAX,
            }
        }),
{
    let ghost digits = chars@.skip(start as int);
    let mut number: u128 = 0;
    let mut i: usize = start;
    assert(digits.take(0) =~= Seq::empty());
    while i < chars.len()
        invariant
            start <= i <= chars@.len(),
            digits == chars@.skip(start as int),
            forall|k: int| 0 <= k < i - start ==> is_digit(#[trigger] digits[k]),
            number == digits_value(digits.take(i - start)),
        decreases chars@.len() - i,
    {
        let c = chars[i];
        let ghost at = i - start;
        assert(digits[at] == c);
        if !digit_char(c) {
            return None;
        }
        let value: u128 = (c as u32 - '0' as u32) as u128;
        proof {
            assert(digits.take(at + 1).drop_last() =~= digits.take(at));
            assert(digits.take(at + 1).last() == c);
        }
        number = match number.checked_mul(10) {
            Some(tens) => match tens.checked_add(value) {
                Some(sum) => sum,
                None => {
                    proof {
                        if all_digits(digits) {
                            lemma_digits_grow(digits, at + 1);
                        }
                    }
                    return None;
                },
            },
            None => {
                proof {
                    if all_digits(digits) {
                        lemma_digits_grow(digits, at + 1);
                    }
                }
                return None;
            },
        };
        i += 1;
    }
    assert(digits.take(i - start) =~= digits);
    Some(number)
}

/// Reads an instant that the store holds.
pub fn decode_time(value: &str) -> (r: Result<Timestamp, StoreError>)
    ensures
        match r {
            Ok(instant) => instant_in(value@) == Some(instant),
            Err(error) => instant_in(value@) is None && error is Integrity,
        },
{
    let chars = chars_of(value);
    let signed = chars.len() > 1 && (chars[0] == '-' || chars[0] == '+');
    let start: usize = if signed {
        1
    } else {
        0
    };
    proof {
        assert(chars@.skip(0) =~= chars@);
        assert(chars@.len() > 0 ==> chars@.skip(1) =~= chars@.drop_first());
    }
    if start == chars.len() {
        return Err(integrity("invalid persisted timestamp"));
    }
    let magnitude: u128 = match read_wide(&chars, start) {
        Some(magnitude) => magnitude,
        None => {
            return Err(integrity("invalid persisted timestamp"));
        },
    };
    if magnitude > 0x7fff_ffff_ffff_ffff_ffff_ffff_ffff_ffff {
        return Err(integrity("invalid persisted timestamp"));
    }
    let nanos: i128 = if signed && chars[0] == '-' {
        -(magnitude as i128)
    } else {
        magnitude as i128
    };
    match check_instant(nanos) {
        Ok(()) => Ok(Timestamp { unix_nanos: nanos }),
        Err(reason) => Err(
            StoreError::Integrity(
                "persisted timestamp is invalid: ".to_owned().concat(reason.as_str()),
            ),
        ),
    }
}

proof fn lemma_decimal_reads(n: nat)
    ensures
        decimal(n).len() > 0,
        all_digits(decimal(n)),
        digits_value(decimal(n)) == n,
        decimal(n)[0] != '-' && decimal(n)[0] != '+',
    decreases n,
{
    if n < 10 {
        reveal_with_fuel(digits_value, 2);
        assert(decimal(n).drop_last() =~= Seq::empty());
        assert(is_digit(decimal(n)[0]));
    } else {
        lemma_decimal_reads(n / 10);
        let all = decimal(n);
        assert(all.drop_last() =~= decimal(n / 10));
        assert forall|i: int| 0 <= i < all.len() implies is_digit(#[trigger] all[i]) by {
            if i < all.len() - 1 {
                assert(all[i] == decimal(n / 10)[i]);
            }
        }
    }
}

/// An instant reads back from the store as it was written.
pub proof fn law_instants_survive_the_store(value: Timestamp)
    requires
        is_instant(value.unix_nanos as int),
    ensures
        instant_in(signed_decimal(value.unix_nanos as int)) == Some(value),
{
    let n = value.unix_nanos as int;
    if n < 0 {
        lemma_decimal_reads((-n) as nat);
        reveal_strlit("-");
        let text = signed_decimal(n);
        assert(text.drop_first() =~= decimal((-n) as nat));
    } else {
        lemma_decimal_reads(n as nat);
        let text = signed_decimal(n);
        assert(text[0] != '-' && text[0] != '+');
    }
}

} // verus!
