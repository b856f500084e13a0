//! The credential store: an envelope over the tables of a database.
//!
//! On the first opening a data key and a salt are made and the key is wrapped under the
//! passphrase; wrap and salt are kept in the one row of metadata. Every later opening unwraps the
//! same data key, so what was stored can be read again. A passphrase that does not unwrap it leaves
//! the store locked.
use crate::secrets::envelope::{
    argon2id_key, derive_kek, drawn, drawn_bytes, encrypted, generate_dek, generate_salt, kdf_takes,
    open, opened, seal, unwrap_dek, unwrapped, wrap_dek, MAX_TEXT_LEN,
};
use crate::secrets::key::{
    is_connection_name, ConnectionId, ConnectionRecord, CredentialKey, DriverId, Timestamp,
};
use crate::secrets::secret::{Secret, SecretError, SecretErrorView};
use crate::text::{opt_view, same};
use time::format_description::well_known::Rfc3339;
use time::{OffsetDateTime, UtcOffset};
use vstd::prelude::*;

verus! {

/// The row of metadata.
#[derive(Clone, PartialEq, Eq)]
pub struct MetaRow {
    /// The wrapped data key.
    pub wrapped_dek: Vec<u8>,
    /// The salt of the passphrase's key.
    pub kdf_salt: Vec<u8>,
}

/// A sealed value as it is kept.
#[derive(Clone, PartialEq, Eq)]
pub struct SealedRow {
    /// The nonce.
    pub nonce: Vec<u8>,
    /// The sealed value.
    pub ciphertext: Vec<u8>,
}

/// A line of a listing as it is kept.
#[derive(Debug, Clone, PartialEq, Eq)]
pub struct ListedRow {
    /// The driver's name.
    pub driver: String,
    /// The connection's name.
    pub connection: String,
    /// When the value was stored, in the form of RFC 3339.
    pub created_at: String,
}

/// The tables that the store is kept in. A failure is told by its message.
pub trait SecretTables {
    /// The row of metadata, if there is one.
    fn meta(&self) -> Result<Option<MetaRow>, String>;

    /// Writes the row of metadata.
    fn insert_meta(&self, meta: &MetaRow) -> Result<(), String>;

    /// The sealed value of a connection, if there is one.
    fn sealed(&self, driver: &str, connection: &str) -> Result<Option<SealedRow>, String>;

    /// Writes the sealed value of a connection, in the place of one that is there.
    fn upsert(&self, driver: &str, connection: &str, row: &SealedRow) -> Result<(), String>;

    /// Removes the sealed value of a connection, if there is one.
    fn delete(&self, driver: &str, connection: &str) -> Result<(), String>;

    /// All lines of the listing, in the order of driver and connection.
    fn rows(&self) -> Result<Vec<ListedRow>, String>;
}

/// The error for a failure of the tables.
pub open spec fn failed(at: Seq<char>, message: Seq<char>) -> SecretErrorView {
    SecretErrorView::Backend(at + ": "@ + message)
}

fn table_error(at: &str, message: &str) -> (r: SecretError)
    ensures
        r@ == failed(at@, message@),
{
    let mut t: String = at.to_owned();
    t.append(": ");
    t.append(message);
    SecretError::Backend(t)
}

// ---- unlocking -------------------------------------------------------------------------------

/// The data key that a passphrase unlocks, if it unlocks one.
pub open spec fn unlocked(meta: MetaRow, passphrase: Seq<u8>) -> Option<Seq<u8>> {
    if kdf_takes(passphrase, meta.kdf_salt@) {
        unwrapped(argon2id_key(passphrase, meta.kdf_salt@), meta.wrapped_dek@)
    } else {
        None
    }
}

/// Unlocks the data key of an established store.
///
/// # Errors
/// [`SecretError::Locked`] where the passphrase does not unlock it.
pub fn unlock(meta: &MetaRow, passphrase: &Secret) -> (r: Result<[u8; 32], SecretError>)
    ensures
        match r {
            Ok(dek) => unlocked(*meta, passphrase@) == Some(dek@),
            Err(e) => unlocked(*meta, passphrase@) is None && e@ == SecretErrorView::Locked,
        },
{
    let kek: [u8; 32] = match derive_kek(passphrase.expose(), meta.kdf_salt.as_slice()) {
        Ok(k) => k,
        Err(_) => return Err(SecretError::Locked),
    };
    match unwrap_dek(&kek, meta.wrapped_dek.as_slice()) {
        Ok(dek) => Ok(dek),
        Err(_) => Err(SecretError::Locked),
    }
}

/// Makes the data key of a fresh store and its row of metadata: key and salt are drawn at random,
/// and the passphrase unlocks the key from that row again.
///
/// # Errors
/// [`SecretError::Locked`] for a passphrase of 2^32 bytes or more.
pub fn initialize(passphrase: &Secret) -> (r: Result<([u8; 32], MetaRow), SecretError>)
    ensures
        r is Ok <==> passphrase@.len() <= 0xffff_ffff,
        r matches Ok((dek, meta)) ==> unlocked(meta, passphrase@) == Some(dek@) && drawn::<32>(dek)
            && drawn_bytes::<16>(meta.kdf_salt@),
        r matches Err(e) ==> e@ == SecretErrorView::Locked,
{
    let dek: [u8; 32] = generate_dek();
    let salt: [u8; 16] = generate_salt();
    let kek: [u8; 32] = match derive_kek(passphrase.expose(), salt.as_slice()) {
        Ok(k) => k,
        Err(_) => return Err(SecretError::Locked),
    };
    match wrap_dek(&kek, &dek) {
        Ok(wrapped_dek) => {
            let mut kdf_salt: Vec<u8> = Vec::new();
            kdf_salt.extend_from_slice(salt.as_slice());
            assert(kdf_salt@ =~= salt@);
            Ok((dek, MetaRow { wrapped_dek, kdf_salt }))
        },
        Err(_) => Err(SecretError::Backend("wrapping the data key".to_owned())),
    }
}

/// The store over its tables, unlocked.
pub struct SqliteSecrets<T: SecretTables> {
    tables: T,
    dek: [u8; 32],
}

/// `r` is what opening a store comes to: the data key of the row of metadata, or a fresh one with
/// its row written.
pub open spec fn opening<T: SecretTables>(
    tables: T,
    passphrase: Seq<u8>,
    r: Result<Seq<u8>, SecretErrorView>,
) -> bool {
    exists|meta: Result<Option<MetaRow>, String>| #[trigger]
        call_ensures(T::meta, (&tables,), meta) && match meta {
            Err(m) => r == Err::<Seq<u8>, SecretErrorView>(
                failed("reading secret metadata"@, m@),
            ),
            Ok(Some(row)) => r == match unlocked(row, passphrase) {
                Some(dek) => Ok::<Seq<u8>, SecretErrorView>(dek),
                None => Err::<Seq<u8>, SecretErrorView>(SecretErrorView::Locked),
            },
            Ok(None) => if passphrase.len() <= 0xffff_ffff {
                initialized(tables, passphrase, r)
            } else {
                r == Err::<Seq<u8>, SecretErrorView>(SecretErrorView::Locked)
            },
        }
}

/// `r` is what making a fresh store comes to: a data key drawn at random, which the passphrase
/// unlocks from the row that was written, and a salt drawn at random in that row.
pub open spec fn initialized<T: SecretTables>(
    tables: T,
    passphrase: Seq<u8>,
    r: Result<Seq<u8>, SecretErrorView>,
) -> bool {
    exists|row: MetaRow, written: Result<(), String>| #[trigger]
        call_ensures(T::insert_meta, (&tables, &row), written) && unlocked(row, passphrase) is Some
            && drawn_bytes::<32>(unlocked(row, passphrase)->Some_0) && drawn_bytes::<16>(
            row.kdf_salt@,
        ) && r == match written {
            Ok(_) => Ok::<Seq<u8>, SecretErrorView>(unlocked(row, passphrase)->Some_0),
            Err(m) => Err::<Seq<u8>, SecretErrorView>(
                failed("initializing secret metadata"@, m@),
            ),
        }
}

/// What a value reads as, from the row that is kept for it.
pub open spec fn value_of(
    dek: Seq<u8>,
    key: (Seq<char>, Seq<char>),
    row: Option<SealedRow>,
) -> Result<Seq<u8>, SecretErrorView> {
    match row {
        None => Err(SecretErrorView::NotFound(key)),
        Some(row) => match opened(dek, row.nonce@, row.ciphertext@) {
            Some(text) => Ok(text),
            None => Err(SecretErrorView::Backend("decrypting credential"@)),
        },
    }
}

/// A result as plain values.
pub open spec fn secret_view(r: Result<Secret, SecretError>) -> Result<Seq<u8>, SecretErrorView> {
    match r {
        Ok(s) => Ok(s@),
        Err(e) => Err(e@),
    }
}

/// A result as plain values.
pub open spec fn unit_view(r: Result<(), SecretError>) -> Result<(), SecretErrorView> {
    match r {
        Ok(_) => Ok(()),
        Err(e) => Err(e@),
    }
}

/// Reads a value from the row that is kept for it.
///
/// # Errors
/// [`SecretError::NotFound`] without a row, [`SecretError::Backend`] for one that does not open.
pub fn open_row(dek: &[u8; 32], key: &CredentialKey, row: &Option<SealedRow>) -> (r: Result<
    Secret,
    SecretError,
>)
    ensures
        secret_view(r) == value_of(dek@, key@, *row),
{
    match row {
        None => Err(SecretError::NotFound(key.clone())),
        Some(row) => match open(dek, row.nonce.as_slice(), row.ciphertext.as_slice()) {
            Ok(text) => Ok(Secret::new(text)),
            Err(_) => Err(SecretError::Backend("decrypting credential".to_owned())),
        },
    }
}

/// Seals a value into a row, with a nonce drawn at random. What was sealed reads as the value again.
///
/// # Errors
/// [`SecretError::Backend`] for a value longer than the cipher takes.
pub fn seal_row(dek: &[u8; 32], value: &Secret) -> (r: Result<SealedRow, SecretError>)
    ensures
        r is Ok <==> value@.len() <= MAX_TEXT_LEN,
        r matches Ok(row) ==> opened(dek@, row.nonce@, row.ciphertext@) == Some(value@)
            && drawn_bytes::<12>(row.nonce@) && row.ciphertext@ == encrypted(
            dek@,
            row.nonce@,
            value@,
        ),
        r matches Err(e) ==> e@ == SecretErrorView::Backend("sealing credential"@),
{
    match seal(dek, value.expose()) {
        Ok((nonce, ciphertext)) => {
            let mut n: Vec<u8> = Vec::new();
            n.extend_from_slice(nonce.as_slice());
            assert(n@ =~= nonce@);
            Ok(SealedRow { nonce: n, ciphertext })
        },
        Err(_) => Err(SecretError::Backend("sealing credential".to_owned())),
    }
}

// ---- listing ---------------------------------------------------------------------------------

/// The moment that a text of RFC 3339 tells, as `time` reads it: nanoseconds since the start of
/// 1970, and the offset in seconds; none for any other text.
pub uninterp spec fn rfc3339_moment(s: Seq<char>) -> Option<(i128, i32)>;

/// Calls `OffsetDateTime::parse` with the well-known format `Rfc3339`, and reads off the moment's
/// nanoseconds and offset. The result is a function of the text alone.
#[verifier::external_body]
fn parse_rfc3339(s: &str) -> (r: Option<(i128, i32)>)
    ensures
        r == rfc3339_moment(s@),
{
    match OffsetDateTime::parse(s, &Rfc3339) {
        Ok(t) => Some((t.unix_timestamp_nanos(), t.offset().whole_seconds())),
        Err(_) => None,
    }
}

/// The moment of a stamp; the start of 1970 for one that is malformed.
pub open spec fn moment(stamp: Option<(i128, i32)>) -> Timestamp {
    match stamp {
        Some((unix_nanos, offset_seconds)) => Timestamp { unix_nanos, offset_seconds },
        None => Timestamp { unix_nanos: 0, offset_seconds: 0 },
    }
}

/// The moment of a stamp, from what parsing it gave.
pub fn moment_or_epoch(stamp: Option<(i128, i32)>) -> (r: Timestamp)
    ensures
        r == moment(stamp),
{
    match stamp {
        Some((unix_nanos, offset_seconds)) => Timestamp { unix_nanos, offset_seconds },
        None => Timestamp::unix_epoch(),
    }
}

/// The moment of a stamp.
pub fn parse_created_at(s: &str) -> (r: Timestamp)
    ensures
        r == moment(rfc3339_moment(s@)),
{
    moment_or_epoch(parse_rfc3339(s))
}

/// How `time` writes a moment that is given by the nanoseconds from the start of 1970 to its local
/// time, and by its offset in seconds: date, time and offset; none for a time or an offset out of
/// its range.
pub uninterp spec fn local_text(local_nanos: i128, offset_seconds: i32) -> Option<Seq<char>>;

/// Calls the `Display` of an `OffsetDateTime`, made with `from_unix_timestamp_nanos` of the local
/// time and `replace_offset`. The result is a function of the local time and the offset alone.
#[verifier::external_body]
fn write_local(local_nanos: i128, offset_seconds: i32) -> (r: Option<String>)
    ensures
        opt_view(r) == local_text(local_nanos, offset_seconds),
{
    let offset = UtcOffset::from_whole_seconds(offset_seconds).ok()?;
    let local = OffsetDateTime::from_unix_timestamp_nanos(local_nanos).ok()?;
    Some(local.replace_offset(offset).to_string())
}

/// A moment as a listing shows it: its local date and time, and its offset.
pub open spec fn moment_text(t: Timestamp) -> Option<Seq<char>> {
    let local = t.unix_nanos + t.offset_seconds * 1_000_000_000;
    if i128::MIN <= local <= i128::MAX {
        local_text(local as i128, t.offset_seconds)
    } else {
        None
    }
}

/// A moment as a listing shows it; `None` where it is out of the range that can be written. A moment
/// is written by its local time, so one at the edge of that range is written though its time in UTC
/// lies beyond.
pub fn shown_moment(t: &Timestamp) -> (r: Option<String>)
    ensures
        opt_view(r) == moment_text(*t),
{
    let shift: i128 = t.offset_seconds as i128 * 1_000_000_000;
    match t.unix_nanos.checked_add(shift) {
        Some(local) => write_local(local, t.offset_seconds),
        None => None,
    }
}

/// What a line of the listing stands for: nothing where the connection's name is none, or where
/// another driver is asked for.
pub open spec fn record_of(row: ListedRow, driver: Option<Seq<char>>) -> Option<
    (Seq<char>, Seq<char>, Timestamp),
> {
    if is_connection_name(row.connection@) && (driver is None || driver == Some(row.driver@)) {
        Some((row.driver@, row.connection@, moment(rfc3339_moment(row.created_at@))))
    } else {
        None
    }
}

/// What the lines of the listing stand for, in order.
pub open spec fn records_of(rows: Seq<ListedRow>, driver: Option<Seq<char>>) -> Seq<
    (Seq<char>, Seq<char>, Timestamp),
>
    decreases rows.len(),
{
    if rows.len() == 0 {
        Seq::empty()
    } else {
        let before = records_of(rows.drop_last(), driver);
        match record_of(rows.last(), driver) {
            Some(x) => before.push(x),
            None => before,
        }
    }
}

/// What the records of a list hold.
pub open spec fn record_views(records: Seq<ConnectionRecord>) -> Seq<
    (Seq<char>, Seq<char>, Timestamp),
> {
    records.map_values(|x: ConnectionRecord| x@)
}

/// The view of an optional driver.
pub open spec fn driver_view(driver: Option<&DriverId>) -> Option<Seq<char>> {
    match driver {
        Some(d) => Some(d@),
        None => None,
    }
}

/// The records that the lines of the listing stand for, of one driver where one is given.
pub fn list_records(rows: &Vec<ListedRow>, driver: Option<&DriverId>) -> (r: Vec<ConnectionRecord>)
    ensures
        record_views(r@) == records_of(rows@, driver_view(driver)),
{
    let mut r: Vec<ConnectionRecord> = Vec::new();
    let mut i: usize = 0;
    assert(record_views(r@) =~= Seq::empty());
    while i < rows.len()
        invariant
            i <= rows.len(),
            record_views(r@) == records_of(rows@.take(i as int), driver_view(driver)),
        decreases rows.len() - i,
    {
        let row: &ListedRow = &rows[i];
        assert(rows@.take(i + 1).drop_last() =~= rows@.take(i as int));
        let ghost had = record_views(r@);
        let asked: bool = match driver {
            Some(d) => same(d.as_str(), row.driver.as_str()),
            None => true,
        };
        match ConnectionId::new(row.connection.as_str()) {
            Ok(connection) => {
                if asked {
                    r.push(
                        ConnectionRecord::new(
                            DriverId::new(row.driver.as_str()),
                            connection,
                            parse_created_at(row.created_at.as_str()),
                        ),
                    );
                    assert(record_views(r@) =~= had.push(record_views(r@).last()));
                }
            },
            Err(_) => {},
        }
        i = i + 1;
    }
    assert(rows@.take(i as int) =~= rows@);
    r
}

// ---- the store -------------------------------------------------------------------------------

/// `r` is what the tables answered when asked for the value of a connection.
pub open spec fn read_row<T: SecretTables>(
    tables: T,
    key: (Seq<char>, Seq<char>),
    r: Result<Option<SealedRow>, String>,
) -> bool {
    exists|d: &str, c: &str|
        d@ == key.0 && c@ == key.1 && #[trigger] call_ensures(T::sealed, (&tables, d, c), r)
}

/// `r` is what the tables answered when given the value of a connection.
pub open spec fn wrote_row<T: SecretTables>(
    tables: T,
    key: (Seq<char>, Seq<char>),
    row: SealedRow,
    r: Result<(), String>,
) -> bool {
    exists|d: &str, c: &str|
        d@ == key.0 && c@ == key.1 && #[trigger] call_ensures(T::upsert, (&tables, d, c, &row), r)
}

/// `r` is what the tables answered when told to remove the value of a connection.
pub open spec fn deleted_row<T: SecretTables>(
    tables: T,
    key: (Seq<char>, Seq<char>),
    r: Result<(), String>,
) -> bool {
    exists|d: &str, c: &str|
        d@ == key.0 && c@ == key.1 && #[trigger] call_ensures(T::delete, (&tables, d, c), r)
}

impl<T: SecretTables> SqliteSecrets<T> {
    /// The tables.
    pub closed spec fn tables(&self) -> T {
        self.tables
    }

    /// The data key.
    pub closed spec fn dek(&self) -> Seq<u8> {
        self.dek@
    }

    /// Opens the store, or makes it where it is fresh.
    ///
    /// # Errors
    /// [`SecretError::Locked`] where the passphrase does not unlock the store;
    /// [`SecretError::Backend`] where the tables fail.
    pub fn open_or_init(tables: T, passphrase: &Secret) -> (r: Result<
        SqliteSecrets<T>,
        SecretError,
    >)
        ensures
            opening(
                tables,
                passphrase@,
                match r {
                    Ok(s) => Ok::<Seq<u8>, SecretErrorView>(s.dek()),
                    Err(e) => Err::<Seq<u8>, SecretErrorView>(e@),
                },
            ),
            r matches Ok(s) ==> s.tables() == tables,
    {
        let meta: Result<Option<MetaRow>, String> = tables.meta();
        let ghost given = meta;
        assert(call_ensures(T::meta, (&tables,), given));
        let dek: [u8; 32] = match meta {
            Err(m) => return Err(table_error("reading secret metadata", m.as_str())),
            Ok(Some(row)) => match unlock(&row, passphrase) {
                Ok(dek) => dek,
                Err(e) => return Err(e),
            },
            Ok(None) => {
                let (dek, row): ([u8; 32], MetaRow) = match initialize(passphrase) {
                    Ok(x) => x,
                    Err(e) => return Err(e),
                };
                let written: Result<(), String> = tables.insert_meta(&row);
                assert(call_ensures(T::insert_meta, (&tables, &row), written));
                match written {
                    Ok(_) => {
                        assert(initialized(
                            tables,
                            passphrase@,
                            Ok::<Seq<u8>, SecretErrorView>(dek@),
                        ));
                        dek
                    },
                    Err(m) => {
                        let e: SecretError = table_error(
                            "initializing secret metadata",
                            m.as_str(),
                        );
                        assert(initialized(
                            tables,
                            passphrase@,
                            Err::<Seq<u8>, SecretErrorView>(e@),
                        ));
                        return Err(e);
                    },
                }
            },
        };
        Ok(SqliteSecrets { tables, dek })
    }

    /// Reads the value of a connection.
    ///
    /// # Errors
    /// [`SecretError::NotFound`] where there is none; [`SecretError::Backend`] where the tables fail
    /// or what they hold does not open.
    pub fn get(&self, key: &CredentialKey) -> (r: Result<Secret, SecretError>)
        ensures
            exists|row: Result<Option<SealedRow>, String>| #[trigger]
                read_row(self.tables(), key@, row) && secret_view(r) == match row {
                    Ok(row) => value_of(self.dek(), key@, row),
                    Err(m) => Err::<Seq<u8>, SecretErrorView>(failed("reading credential"@, m@)),
                },
    {
        let row: Result<Option<SealedRow>, String> = self.tables.sealed(
            key.driver.as_str(),
            key.connection.as_str(),
        );
        let ghost given = row;
        assert(read_row(self.tables(), key@, given));
        match row {
            Ok(row) => open_row(&self.dek, key, &row),
            Err(m) => Err(table_error("reading credential", m.as_str())),
        }
    }

    /// Stores the value of a connection, in the place of one that is there. The tables are given the
    /// value only sealed.
    ///
    /// # Errors
    /// [`SecretError::Backend`] where the value is longer than the cipher takes or the tables fail.
    pub fn put(&self, key: &CredentialKey, value: Secret) -> (r: Result<(), SecretError>)
        ensures
            value@.len() > MAX_TEXT_LEN ==> unit_view(r) == Err::<(), SecretErrorView>(
                SecretErrorView::Backend("sealing credential"@),
            ),
            value@.len() <= MAX_TEXT_LEN ==> exists|row: SealedRow, written: Result<(), String>|
                #[trigger] wrote_row(self.tables(), key@, row, written) && value_of(
                    self.dek(),
                    key@,
                    Some(row),
                ) == Ok::<Seq<u8>, SecretErrorView>(value@) && drawn_bytes::<12>(row.nonce@)
                    && row.ciphertext@ == encrypted(
                    self.dek(),
                    row.nonce@,
                    value@,
                ) && unit_view(r) == match written {
                    Ok(_) => Ok::<(), SecretErrorView>(()),
                    Err(m) => Err::<(), SecretErrorView>(failed("storing credential"@, m@)),
                },
    {
        let row: SealedRow = match seal_row(&self.dek, &value) {
            Ok(row) => row,
            Err(e) => return Err(e),
        };
        let written: Result<(), String> = self.tables.upsert(
            key.driver.as_str(),
            key.connection.as_str(),
            &row,
        );
        let ghost given = written;
        assert(wrote_row(self.tables(), key@, row, given));
        match written {
            Ok(_) => Ok(()),
            Err(m) => Err(table_error("storing credential", m.as_str())),
        }
    }

    /// Removes the value of a connection. Removing one that is not there is in order.
    ///
    /// # Errors
    /// [`SecretError::Backend`] where the tables fail.
    pub fn remove(&self, key: &CredentialKey) -> (r: Result<(), SecretError>)
        ensures
            exists|gone: Result<(), String>| #[trigger]
                deleted_row(self.tables(), key@, gone) && unit_view(r) == match gone {
                    Ok(_) => Ok::<(), SecretErrorView>(()),
                    Err(m) => Err::<(), SecretErrorView>(failed("removing credential"@, m@)),
                },
    {
        let gone: Result<(), String> = self.tables.delete(
            key.driver.as_str(),
            key.connection.as_str(),
        );
        let ghost given = gone;
        assert(deleted_row(self.tables(), key@, given));
        match gone {
            Ok(_) => Ok(()),
            Err(m) => Err(table_error("removing credential", m.as_str())),
        }
    }

    /// Lists the stored connections, of one driver where one is given. A line whose connection has
    /// no proper name is passed over.
    ///
    /// # Errors
    /// [`SecretError::Backend`] where the tables fail.
    pub fn list(&self, driver: Option<&DriverId>) -> (r: Result<
        Vec<ConnectionRecord>,
        SecretError,
    >)
        ensures
            exists|rows: Result<Vec<ListedRow>, String>| #[trigger]
                call_ensures(T::rows, (&self.tables(),), rows) && match rows {
                    Ok(rows) => r is Ok && record_views(r->Ok_0@) == records_of(
                        rows@,
                        driver_view(driver),
                    ),
                    Err(m) => r is Err && r->Err_0@ == failed("listing connections"@, m@),
                },
    {
        let rows: Result<Vec<ListedRow>, String> = self.tables.rows();
        let ghost given = rows;
        assert(call_ensures(T::rows, (&self.tables(),), given));
        match rows {
            Ok(rows) => Ok(list_records(&rows, driver)),
            Err(m) => Err(table_error("listing connections", m.as_str())),
        }
    }
}

// ---- laws ------------------------------------------------------------------------------------

/// A connection's value reads as it was stored: from the row that a value was sealed into, reading
/// gives the value, whatever the connection.
pub proof fn law_stored_value_reads_back(
    dek: [u8; 32],
    value: Secret,
    row: SealedRow,
    key: (Seq<char>, Seq<char>),
)
    requires
        call_ensures(seal_row, (&dek, &value), Ok::<SealedRow, SecretError>(row)),
    ensures
        value_of(dek@, key, Some(row)) == Ok::<Seq<u8>, SecretErrorView>(value@),
{
}

/// A store opened again with the passphrase that it was made with is unlocked, and every value that
/// was stored before reads as before.
pub proof fn law_values_survive_reopening(
    passphrase: Secret,
    dek: [u8; 32],
    meta: MetaRow,
    value: Secret,
    row: SealedRow,
    again: Result<[u8; 32], SecretError>,
    key: (Seq<char>, Seq<char>),
)
    requires
        call_ensures(initialize, (&passphrase,), Ok::<([u8; 32], MetaRow), SecretError>((dek, meta))),
        call_ensures(seal_row, (&dek, &value), Ok::<SealedRow, SecretError>(row)),
        call_ensures(unlock, (&meta, &passphrase), again),
    ensures
        again matches Ok(found) && value_of(found@, key, Some(row)) == Ok::<
            Seq<u8>,
            SecretErrorView,
        >(value@),
{
}

/// A listing for one driver is the part of the whole listing that belongs to it.
pub proof fn law_listing_filters_by_driver(rows: Seq<ListedRow>, driver: Seq<char>)
    ensures
        records_of(rows, Some(driver)) == records_of(rows, None).filter(
            |x: (Seq<char>, Seq<char>, Timestamp)| x.0 == driver,
        ),
    decreases rows.len(),
{
    let keeps = |x: (Seq<char>, Seq<char>, Timestamp)| x.0 == driver;
    reveal(Seq::filter);
    if rows.len() > 0 {
        law_listing_filters_by_driver(rows.drop_last(), driver);
        let before = records_of(rows.drop_last(), None);
        match record_of(rows.last(), None) {
            Some(x) => {
                assert(before.push(x).drop_last() =~= before);
            },
            None => {},
        }
    }
}

/// In a store whose tables keep what is written, the value that was put under a key is the value
/// got under that key.
pub proof fn law_a_value_put_is_the_value_got<T: SecretTables>(
    store: SqliteSecrets<T>,
    key: CredentialKey,
    value: Secret,
    got: Result<Secret, SecretError>,
)
    requires
        call_ensures(SqliteSecrets::<T>::put, (&store, &key, value), Ok::<(), SecretError>(())),
        call_ensures(SqliteSecrets::<T>::get, (&store, &key), got),
        forall|row: SealedRow, written: Result<(), String>, read: Result<Option<SealedRow>, String>|
            #[trigger] wrote_row(store.tables(), key@, row, written) && written is Ok
                && #[trigger] read_row(store.tables(), key@, read) ==> read == Ok::<Option<SealedRow>, String>(Some(row)),
    ensures
        got is Ok,
        got->Ok_0@ == value@,
{
    assert(value@.len() <= MAX_TEXT_LEN);
    let (row, written) = choose|row: SealedRow, written: Result<(), String>|
        #[trigger] wrote_row(store.tables(), key@, row, written) && value_of(
            store.dek(),
            key@,
            Some(row),
        ) == Ok::<Seq<u8>, SecretErrorView>(value@) && written is Ok;
    assert(secret_view(got) == Ok::<Seq<u8>, SecretErrorView>(value@));
}

/// In a store whose tables drop what is deleted, a key that was removed is not found, and the error
/// names that key.
pub proof fn law_what_is_removed_is_not_found<T: SecretTables>(
    store: SqliteSecrets<T>,
    key: CredentialKey,
    got: Result<Secret, SecretError>,
)
    requires
        call_ensures(SqliteSecrets::<T>::remove, (&store, &key), Ok::<(), SecretError>(())),
        call_ensures(SqliteSecrets::<T>::get, (&store, &key), got),
        forall|gone: Result<(), String>, read: Result<Option<SealedRow>, String>| #[trigger]
            deleted_row(store.tables(), key@, gone) && gone is Ok && #[trigger] read_row(
                store.tables(),
                key@,
                read,
            ) ==> read == Ok::<Option<SealedRow>, String>(None),
    ensures
        got is Err,
        got->Err_0@ == SecretErrorView::NotFound(key@),
{
    let gone = choose|gone: Result<(), String>| #[trigger]
        deleted_row(store.tables(), key@, gone) && gone is Ok;
    assert(secret_view(got) == Err::<Seq<u8>, SecretErrorView>(SecretErrorView::NotFound(key@)));
}

/// What the tables say when they fail is passed on, behind what was being done; a failure is never
/// taken for a value that is not there.
pub proof fn law_failing_tables_are_heard<T: SecretTables>(
    store: SqliteSecrets<T>,
    key: CredentialKey,
    m: String,
    got: Result<Secret, SecretError>,
    removed: Result<(), SecretError>,
)
    requires
        call_ensures(SqliteSecrets::<T>::get, (&store, &key), got),
        call_ensures(SqliteSecrets::<T>::remove, (&store, &key), removed),
        forall|read: Result<Option<SealedRow>, String>| #[trigger]
            read_row(store.tables(), key@, read) ==> read == Err::<Option<SealedRow>, String>(m),
        forall|gone: Result<(), String>| #[trigger]
            deleted_row(store.tables(), key@, gone) ==> gone == Err::<(), String>(m),
    ensures
        got is Err,
        got->Err_0@ == SecretErrorView::Backend("reading credential: "@ + m@),
        removed is Err,
        removed->Err_0@ == SecretErrorView::Backend("removing credential: "@ + m@),
{
    reveal_strlit("reading credential: ");
    reveal_strlit("reading credential");
    reveal_strlit("removing credential: ");
    reveal_strlit("removing credential");
    reveal_strlit(": ");
    assert("reading credential"@ + ": "@ + m@ =~= "reading credential: "@ + m@);
    assert("removing credential"@ + ": "@ + m@ =~= "removing credential: "@ + m@);
    assert(secret_view(got) == Err::<Seq<u8>, SecretErrorView>(
        SecretErrorView::Backend("reading credential: "@ + m@),
    ));
    assert(unit_view(removed) == Err::<(), SecretErrorView>(
        SecretErrorView::Backend("removing credential: "@ + m@),
    ));
}

/// The records of two listings, one after the other, are those of the first and then those of the
/// second; a row is a record exactly if its connection has a proper name, and the record has the
/// row's own driver, connection and moment, the start of 1970 where the moment cannot be read.
pub proof fn law_records_are_the_rows_in_order(a: Seq<ListedRow>, b: Seq<ListedRow>, row: ListedRow)
    ensures
        records_of(a + b, None) == records_of(a, None) + records_of(b, None),
        records_of(seq![row], None).len() == if is_connection_name(row.connection@) {
            1nat
        } else {
            0nat
        },
        is_connection_name(row.connection@) ==> ({
            let x = records_of(seq![row], None)[0];
            &&& x.0 == row.driver@
            &&& x.1 == row.connection@
            &&& match rfc3339_moment(row.created_at@) {
                Some(at) => x.2.unix_nanos == at.0 && x.2.offset_seconds == at.1,
                None => x.2.unix_nanos == 0 && x.2.offset_seconds == 0,
            }
        }),
    decreases b.len(),
{
    assert(seq![row].drop_last() =~= Seq::<ListedRow>::empty());
    assert(records_of(seq![row].drop_last(), None).len() == 0);
    if b.len() == 0 {
        assert(a + b =~= a);
        assert(records_of(a, None) + records_of(b, None) =~= records_of(a, None));
    } else {
        law_records_are_the_rows_in_order(a, b.drop_last(), row);
        assert((a + b).drop_last() =~= a + b.drop_last());
        assert((a + b).last() == b.last());
        assert(records_of(a + b, None) =~= records_of(a, None) + records_of(b, None));
    }
}

/// A moment is written in the time of the place where it was, the offset added to the instant, and
/// its offset is told along with it.
pub proof fn law_moments_are_written_in_their_own_time(nanos: i128, seconds: i32)
    requires
        i128::MIN <= nanos + seconds * 1_000_000_000 <= i128::MAX,
    ensures
        moment_text(Timestamp { unix_nanos: nanos, offset_seconds: seconds }) == local_text(
            (nanos + seconds * 1_000_000_000) as i128,
            seconds,
        ),
        seconds == 0 ==> moment_text(Timestamp { unix_nanos: nanos, offset_seconds: 0 })
            == local_text(nanos, 0),
{
}

/// Without the row nothing is read, and it is said of which key; a row that does not open is no
/// value, and is told apart from a key that is not there.
pub proof fn law_missing_and_damaged_values_differ(
    dek: Seq<u8>,
    key: (Seq<char>, Seq<char>),
    row: SealedRow,
)
    requires
        opened(dek, row.nonce@, row.ciphertext@) is None,
    ensures
        value_of(dek, key, None) == Err::<Seq<u8>, SecretErrorView>(SecretErrorView::NotFound(key)),
        value_of(dek, key, Some(row)) is Err,
        value_of(dek, key, Some(row))->Err_0 is Backend,
{
}

} // verus!
