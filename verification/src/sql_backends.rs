//! The SQL engines: what a locator says of logging in, how parameters are bound for Postgres and
//! MySQL, what their cells mean, how a catalog is made of what an engine says of its tables, and how
//! a commit goes on.
//!
//! Every value is a bound parameter, never text in a statement. Floating-point numbers are carried
//! as the bits of their 64-bit form.
use crate::text::{
    decimal, folded, nat_text, opt_view, same, same_ignoring_case, stands_at, text_of_utf8,
    utf8_of,
};
use crate::types::schema::{ColumnType, TypeView};
use crate::types::value::{lemma_value_views, value_views, Row, Value, ValueView};
use vstd::prelude::*;
use vstd::utf8::{decode_utf8, encode_utf8, encode_utf8_decode_utf8, encode_utf8_valid_utf8, valid_utf8};

verus! {

/// The engines.
#[derive(Debug, Clone, Copy, PartialEq, Eq)]
pub enum SqlEngine {
    /// Postgres.
    Postgres,
    /// MySQL.
    Mysql,
}

impl SqlEngine {
    /// The engine's name.
    pub open spec fn text(self) -> Seq<char> {
        match self {
            SqlEngine::Postgres => "postgres"@,
            SqlEngine::Mysql => "mysql"@,
        }
    }

    /// The engine's name.
    #[must_use]
    pub fn name(self) -> (r: &'static str)
        ensures
            r@ == self.text(),
    {
        match self {
            SqlEngine::Postgres => "postgres",
            SqlEngine::Mysql => "mysql",
        }
    }
}

/// A failure of an engine.
#[derive(Debug, Clone, PartialEq, Eq)]
pub struct SqlError {
    /// The engine's name.
    pub engine: String,
    /// What it was doing.
    pub stage: String,
    /// What it said.
    pub message: String,
}

/// What a [`SqlError`] holds.
#[verifier::ext_equal]
pub ghost struct SqlErrorView {
    pub engine: Seq<char>,
    pub stage: Seq<char>,
    pub message: Seq<char>,
}

impl View for SqlError {
    type V = SqlErrorView;

    open spec fn view(&self) -> SqlErrorView {
        SqlErrorView { engine: self.engine@, stage: self.stage@, message: self.message@ }
    }
}

impl SqlError {
    /// A failure of an engine in one stage of its work.
    #[must_use]
    pub fn backend(engine: &str, stage: &str, message: &str) -> (r: SqlError)
        ensures
            r@ == (SqlErrorView { engine: engine@, stage: stage@, message: message@ }),
    {
        SqlError {
            engine: engine.to_string(),
            stage: stage.to_string(),
            message: message.to_string(),
        }
    }
}

// ---- logging in ------------------------------------------------------------------------------

/// What `postgres` reads a locator as: the password in it, if it has one, or the message of the error
/// where it is none of its connection strings.
pub uninterp spec fn locator_password(locator: Seq<char>) -> Result<Option<Seq<u8>>, Seq<char>>;

/// The view of optional bytes.
pub open spec fn opt_bytes(b: Option<Vec<u8>>) -> Option<Seq<u8>> {
    match b {
        Some(b) => Some(b@),
        None => None,
    }
}

/// Calls `postgres::Config::from_str`, and `get_password` on what it read. It only computes: both
/// the password and the message are a function of the locator, on one kind of operating system.
#[verifier::external_body]
fn parse_locator(locator: &str) -> (r: Result<Option<Vec<u8>>, String>)
    ensures
        match r {
            Ok(p) => locator_password(locator@) == Ok::<Option<Seq<u8>>, Seq<char>>(opt_bytes(p)),
            Err(m) => locator_password(locator@) == Err::<Option<Seq<u8>>, Seq<char>>(m@),
        },
{
    match locator.parse::<postgres::Config>() {
        Ok(config) => Ok(config.get_password().map(|p| p.to_vec())),
        Err(e) => Err(e.to_string()),
    }
}

/// The password that is given for logging in, from what the locator was read as: the one at hand
/// where the locator carries none, and none where it does.
pub open spec fn password_given(
    read: Result<Option<Seq<u8>>, Seq<char>>,
    at_hand: Option<Seq<char>>,
) -> Result<Option<Seq<char>>, SqlErrorView> {
    match read {
        Ok(None) => Ok(at_hand),
        Ok(Some(_)) => Ok(None),
        Err(message) => Err(
            SqlErrorView { engine: "postgres"@, stage: "config"@, message },
        ),
    }
}

/// A password or an error as plain values.
pub open spec fn password_view(r: Result<Option<String>, SqlError>) -> Result<
    Option<Seq<char>>,
    SqlErrorView,
> {
    match r {
        Ok(p) => Ok(opt_view(p)),
        Err(e) => Err(e@),
    }
}

/// The password that is given for logging in to Postgres, from what the locator was read as.
///
/// # Errors
/// The message for a locator that could not be read.
pub fn password_for(read: Result<Option<Vec<u8>>, String>, given: Option<String>) -> (r: Result<
    Option<String>,
    SqlError,
>)
    ensures
        password_view(r) == password_given(
            match read {
                Ok(p) => Ok::<Option<Seq<u8>>, Seq<char>>(opt_bytes(p)),
                Err(m) => Err::<Option<Seq<u8>>, Seq<char>>(m@),
            },
            opt_view(given),
        ),
{
    match read {
        Ok(None) => Ok(given),
        Ok(Some(_)) => Ok(None),
        Err(m) => Err(SqlError::backend("postgres", "config", m.as_str())),
    }
}

/// The password that is given for logging in to the Postgres that a locator names: the one at hand,
/// but only where the locator does not already carry one.
///
/// # Errors
/// The message for a locator that could not be read.
pub fn login_password(locator: &str, given: Option<String>) -> (r: Result<Option<String>, SqlError>)
    ensures
        password_view(r) == password_given(locator_password(locator@), opt_view(given)),
{
    password_for(parse_locator(locator), given)
}

/// What `mysql` reads a locator as: the name of the database in it, if it has one; none for a text
/// that is none of its URLs.
pub uninterp spec fn locator_database(locator: Seq<char>) -> Option<Option<Seq<char>>>;

/// Calls `mysql::Opts::from_url`, and `get_db_name` on what it read. It only computes: whether the
/// locator is read, and the name in it, are a function of the locator, on one kind of operating
/// system. Nothing is claimed of the message: which of several bad parameters it names goes by the
/// order of a hash map.
#[verifier::external_body]
fn parse_url(locator: &str) -> (r: Result<Option<String>, String>)
    ensures
        match r {
            Ok(name) => locator_database(locator@) == Some(opt_view(name)),
            Err(_) => locator_database(locator@) is None,
        },
{
    match mysql::Opts::from_url(locator) {
        Ok(opts) => Ok(opts.get_db_name().map(|n| n.to_string())),
        Err(e) => Err(e.to_string()),
    }
}

/// How to log in to MySQL.
#[derive(Debug, Clone, PartialEq, Eq)]
pub struct MyLogin {
    /// The password that takes the place of the locator's.
    pub password: Option<String>,
    /// The database whose tables are described; empty where the locator names none.
    pub schema: String,
}

/// The schema of a login, from the name of the database in its locator.
pub open spec fn schema_named(name: Option<Seq<char>>) -> Seq<char> {
    match name {
        Some(n) => n,
        None => ""@,
    }
}

/// How to log in to MySQL, from what the locator was read as.
///
/// # Errors
/// The message for a locator that could not be read.
pub fn login_for(read: Result<Option<String>, String>, given: Option<String>) -> (r: Result<
    MyLogin,
    SqlError,
>)
    ensures
        match read {
            Ok(name) => r matches Ok(login) && opt_view(login.password) == opt_view(given)
                && login.schema@ == schema_named(opt_view(name)),
            Err(m) => r matches Err(e) && e@ == (SqlErrorView {
                engine: "mysql"@,
                stage: "config"@,
                message: m@,
            }),
        },
{
    match read {
        Ok(Some(schema)) => Ok(MyLogin { password: given, schema }),
        Ok(None) => Ok(MyLogin { password: given, schema: "".to_string() }),
        Err(m) => Err(SqlError::backend("mysql", "config", m.as_str())),
    }
}

/// How to log in to the MySQL that a locator names: with the password at hand, where there is one,
/// in the place of the locator's own, and with the locator's database as the schema.
///
/// # Errors
/// A failure of the stage `config` for a locator that could not be read.
pub fn mysql_login(locator: &str, given: Option<String>) -> (r: Result<MyLogin, SqlError>)
    ensures
        match locator_database(locator@) {
            Some(name) => r matches Ok(login) && opt_view(login.password) == opt_view(given)
                && login.schema@ == schema_named(name),
            None => r matches Err(e) && e.engine@ == "mysql"@ && e.stage@ == "config"@,
        },
{
    login_for(parse_url(locator), given)
}

// ---- parameters ------------------------------------------------------------------------------

/// A parameter of a statement.
#[derive(Debug, PartialEq, Eq)]
pub enum Param {
    /// No value.
    Null,
    /// A boolean.
    Bool(bool),
    /// A signed integer.
    Int(i64),
    /// A floating-point number, as its bits.
    Float(u64),
    /// Text.
    Text(String),
    /// Bytes.
    Bytes(Vec<u8>),
}

/// What a [`Param`] is.
#[verifier::ext_equal]
pub ghost enum ParamView {
    Null,
    Bool(bool),
    Int(int),
    Float(u64),
    Text(Seq<char>),
    Bytes(Seq<u8>),
}

impl View for Param {
    type V = ParamView;

    open spec fn view(&self) -> ParamView {
        match self {
            Param::Null => ParamView::Null,
            Param::Bool(b) => ParamView::Bool(*b),
            Param::Int(n) => ParamView::Int(*n as int),
            Param::Float(bits) => ParamView::Float(*bits),
            Param::Text(s) => ParamView::Text(s@),
            Param::Bytes(b) => ParamView::Bytes(b@),
        }
    }
}

fn copy_bytes(b: &Vec<u8>) -> (r: Vec<u8>)
    ensures
        r@ == b@,
{
    let mut r: Vec<u8> = Vec::new();
    let mut i: usize = 0;
    while i < b.len()
        invariant
            i <= b.len(),
            r@ == b@.take(i as int),
        decreases b.len() - i,
    {
        r.push(b[i]);
        i = i + 1;
        assert(r@ =~= b@.take(i as int));
    }
    assert(r@ =~= b@);
    r
}

impl Clone for Param {
    fn clone(&self) -> (r: Self)
        ensures
            r@ == self@,
    {
        match self {
            Param::Null => Param::Null,
            Param::Bool(b) => Param::Bool(*b),
            Param::Int(n) => Param::Int(*n),
            Param::Float(bits) => Param::Float(*bits),
            Param::Text(s) => Param::Text(s.clone()),
            Param::Bytes(b) => Param::Bytes(copy_bytes(b)),
        }
    }
}

/// The types of Postgres that matter here.
#[derive(Debug, Clone, Copy, PartialEq, Eq)]
pub enum PgType {
    /// `bool`.
    Bool,
    /// `int2`.
    Int2,
    /// `int4`.
    Int4,
    /// `int8`.
    Int8,
    /// `float4`.
    Float4,
    /// `float8`.
    Float8,
    /// `bytea`.
    Bytea,
    /// Any other type.
    Other,
}

/// What is sent to Postgres for a parameter.
#[derive(Debug, PartialEq, Eq)]
pub enum PgWire {
    /// No value.
    Null,
    /// A boolean.
    Bool(bool),
    /// An integer of 16 bits.
    Int2(i16),
    /// An integer of 32 bits.
    Int4(i32),
    /// An integer of 64 bits.
    Int8(i64),
    /// A number of 64 bits, as its bits, to be narrowed to 32.
    Float4(u64),
    /// A number of 64 bits, as its bits.
    Float8(u64),
    /// Text.
    Text(String),
    /// Bytes.
    Bytes(Vec<u8>),
}

/// What a [`PgWire`] is.
#[verifier::ext_equal]
pub ghost enum PgWireView {
    Null,
    Bool(bool),
    Int2(int),
    Int4(int),
    Int8(int),
    Float4(u64),
    Float8(u64),
    Text(Seq<char>),
    Bytes(Seq<u8>),
}

impl View for PgWire {
    type V = PgWireView;

    open spec fn view(&self) -> PgWireView {
        match self {
            PgWire::Null => PgWireView::Null,
            PgWire::Bool(b) => PgWireView::Bool(*b),
            PgWire::Int2(n) => PgWireView::Int2(*n as int),
            PgWire::Int4(n) => PgWireView::Int4(*n as int),
            PgWire::Int8(n) => PgWireView::Int8(*n as int),
            PgWire::Float4(bits) => PgWireView::Float4(*bits),
            PgWire::Float8(bits) => PgWireView::Float8(*bits),
            PgWire::Text(s) => PgWireView::Text(s@),
            PgWire::Bytes(b) => PgWireView::Bytes(b@),
        }
    }
}

/// What a parameter is sent as where the server takes the placeholder to have type `ty`: an
/// integer in the width of that type, a number in the precision of that type. `None` where an
/// integer does not fit.
pub open spec fn pg_wire(p: ParamView, ty: PgType) -> Option<PgWireView> {
    match p {
        ParamView::Null => Some(PgWireView::Null),
        ParamView::Bool(b) => Some(PgWireView::Bool(b)),
        ParamView::Int(n) => match ty {
            PgType::Int2 => if i16::MIN <= n <= i16::MAX {
                Some(PgWireView::Int2(n))
            } else {
                None
            },
            PgType::Int4 => if i32::MIN <= n <= i32::MAX {
                Some(PgWireView::Int4(n))
            } else {
                None
            },
            _ => Some(PgWireView::Int8(n)),
        },
        ParamView::Float(bits) => if ty == PgType::Float4 {
            Some(PgWireView::Float4(bits))
        } else {
            Some(PgWireView::Float8(bits))
        },
        ParamView::Text(s) => Some(PgWireView::Text(s)),
        ParamView::Bytes(b) => Some(PgWireView::Bytes(b)),
    }
}

/// A parameter on its way to Postgres, which is sent as the type that the server infers for its
/// placeholder.
#[derive(Debug, PartialEq, Eq)]
pub struct PgBind(pub Param);

impl PgBind {
    /// What is sent for the placeholder's type; `None` where an integer does not fit it.
    #[must_use]
    pub fn to_wire(&self, ty: PgType) -> (r: Option<PgWire>)
        ensures
            match r {
                Some(w) => pg_wire(self.0@, ty) == Some(w@),
                None => pg_wire(self.0@, ty) is None,
            },
    {
        match &self.0 {
            Param::Null => Some(PgWire::Null),
            Param::Bool(b) => Some(PgWire::Bool(*b)),
            Param::Int(n) => match ty {
                PgType::Int2 => if -0x8000 <= *n && *n <= 0x7fff {
                    Some(PgWire::Int2(*n as i16))
                } else {
                    None
                },
                PgType::Int4 => if -0x8000_0000 <= *n && *n <= 0x7fff_ffff {
                    Some(PgWire::Int4(*n as i32))
                } else {
                    None
                },
                _ => Some(PgWire::Int8(*n)),
            },
            Param::Float(bits) => match ty {
                PgType::Float4 => Some(PgWire::Float4(*bits)),
                _ => Some(PgWire::Float8(*bits)),
            },
            Param::Text(s) => Some(PgWire::Text(s.clone())),
            Param::Bytes(b) => Some(PgWire::Bytes(copy_bytes(b))),
        }
    }
}

/// The parameters for Postgres: each one bound, in order.
#[must_use]
pub fn pg_params(params: &Vec<Param>) -> (r: Vec<PgBind>)
    ensures
        r@.len() == params@.len(),
        forall|i: int| 0 <= i < params@.len() ==> (#[trigger] r@[i]).0@ == params@[i]@,
{
    let mut r: Vec<PgBind> = Vec::new();
    let mut i: usize = 0;
    while i < params.len()
        invariant
            i <= params.len(),
            r@.len() == i,
            forall|j: int| 0 <= j < i ==> (#[trigger] r@[j]).0@ == params@[j]@,
        decreases params.len() - i,
    {
        r.push(PgBind(params[i].clone()));
        i = i + 1;
    }
    r
}

/// A value of MySQL, bound or read.
#[derive(Debug, PartialEq, Eq)]
pub enum MyValue {
    /// No value.
    Null,
    /// Bytes, and text.
    Bytes(Vec<u8>),
    /// A signed integer.
    Int(i64),
    /// An unsigned integer.
    UInt(u64),
    /// A number of 32 bits, widened to 64, as its bits.
    Float(u64),
    /// A number of 64 bits, as its bits.
    Double(u64),
    /// A moment or a span of time, written out.
    Time(String),
}

/// What a [`MyValue`] is.
#[verifier::ext_equal]
pub ghost enum MyView {
    Null,
    Bytes(Seq<u8>),
    Int(int),
    UInt(int),
    Float(u64),
    Double(u64),
    Time(Seq<char>),
}

impl View for MyValue {
    type V = MyView;

    open spec fn view(&self) -> MyView {
        match self {
            MyValue::Null => MyView::Null,
            MyValue::Bytes(b) => MyView::Bytes(b@),
            MyValue::Int(n) => MyView::Int(*n as int),
            MyValue::UInt(n) => MyView::UInt(*n as int),
            MyValue::Float(bits) => MyView::Float(*bits),
            MyValue::Double(bits) => MyView::Double(*bits),
            MyValue::Time(s) => MyView::Time(s@),
        }
    }
}

/// The parameters of a statement for MySQL.
#[derive(Debug, PartialEq, Eq)]
pub enum MyParams {
    /// There are none.
    Empty,
    /// One for each placeholder, in order.
    Positional(Vec<MyValue>),
}

/// What a parameter is bound as in MySQL, which has no booleans: `0` or `1` stands for one.
pub open spec fn my_bound(p: ParamView) -> MyView {
    match p {
        ParamView::Null => MyView::Null,
        ParamView::Bool(b) => MyView::Int(if b {
            1
        } else {
            0
        }),
        ParamView::Int(n) => MyView::Int(n),
        ParamView::Float(bits) => MyView::Double(bits),
        ParamView::Text(s) => MyView::Bytes(encode_utf8(s)),
        ParamView::Bytes(b) => MyView::Bytes(b),
    }
}

fn my_param(p: &Param) -> (r: MyValue)
    ensures
        r@ == my_bound(p@),
{
    match p {
        Param::Null => MyValue::Null,
        Param::Bool(b) => if *b {
            MyValue::Int(1)
        } else {
            MyValue::Int(0)
        },
        Param::Int(n) => MyValue::Int(*n),
        Param::Float(bits) => MyValue::Double(*bits),
        Param::Text(s) => MyValue::Bytes(utf8_of(s.as_str())),
        Param::Bytes(b) => MyValue::Bytes(copy_bytes(b)),
    }
}

/// The parameters for MySQL: each one bound, in order.
#[must_use]
pub fn my_params(params: &Vec<Param>) -> (r: MyParams)
    ensures
        match r {
            MyParams::Empty => params@.len() == 0,
            MyParams::Positional(values) => {
                &&& values@.len() == params@.len() > 0
                &&& forall|i: int|
                    0 <= i < params@.len() ==> (#[trigger] values@[i])@ == my_bound(params@[i]@)
            },
        },
{
    if params.len() == 0 {
        return MyParams::Empty;
    }
    let mut values: Vec<MyValue> = Vec::new();
    let mut i: usize = 0;
    while i < params.len()
        invariant
            i <= params.len(),
            values@.len() == i,
            forall|j: int| 0 <= j < i ==> (#[trigger] values@[j])@ == my_bound(params@[j]@),
        decreases params.len() - i,
    {
        values.push(my_param(&params[i]));
        i = i + 1;
    }
    MyParams::Positional(values)
}

// ---- columns of other types ------------------------------------------------------------------

/// The name of the column at `i` of a query that is wrapped.
pub open spec fn column_name(i: int) -> Seq<char> {
    "c"@ + nat_text(i as nat)
}

/// What is selected of the columns before `n`: each column that can be read as it is, any other one
/// as its text.
pub open spec fn selected(readable: Seq<bool>, n: int) -> Seq<char>
    decreases n,
{
    if n <= 0 {
        ""@
    } else {
        selected(readable, n - 1) + (if n == 1 {
            ""@
        } else {
            ", "@
        }) + "q."@ + column_name(n - 1) + (if readable[n - 1] {
            ""@
        } else {
            "::text"@
        })
    }
}

/// The names of the columns before `n`.
pub open spec fn column_names(n: int) -> Seq<char>
    decreases n,
{
    if n <= 0 {
        ""@
    } else {
        column_names(n - 1) + (if n == 1 {
            ""@
        } else {
            ", "@
        }) + column_name(n - 1)
    }
}

/// A query whose columns can all be read: itself where they can already, else wrapped so that each
/// column that cannot comes as its text.
pub open spec fn readable_query(sql: Seq<char>, readable: Seq<bool>) -> Seq<char> {
    if forall|i: int| 0 <= i < readable.len() ==> readable[i] {
        sql
    } else {
        "SELECT "@ + selected(readable, readable.len() as int) + " FROM ("@ + sql + ") AS q("@
            + column_names(readable.len() as int) + ")"@
    }
}

/// A query whose columns can all be read; `readable` says of each column of the query whether its
/// type can be read as it is. The text of a statement goes into the query as it stands, and its
/// placeholders stay where they are. A wrapped query has no order of its own: its rows come in the
/// order in which the engine gives those of the inner one.
#[must_use]
pub fn readable_select(sql: &str, readable: &Vec<bool>) -> (r: String)
    ensures
        r@ == readable_query(sql@, readable@),
{
    let mut all: bool = true;
    let mut columns: String = "".to_string();
    let mut names: String = "".to_string();
    let mut i: usize = 0;
    while i < readable.len()
        invariant
            i <= readable.len(),
            all == forall|j: int| 0 <= j < i ==> readable@[j],
            columns@ == selected(readable@, i as int),
            names@ == column_names(i as int),
        decreases readable.len() - i,
    {
        if i > 0 {
            columns.append(", ");
            names.append(", ");
        }
        let number: String = decimal(i as u64);
        columns.append("q.");
        columns.append("c");
        columns.append(number.as_str());
        if !readable[i] {
            columns.append("::text");
            all = false;
        }
        names.append("c");
        names.append(number.as_str());
        i = i + 1;
        proof {
            reveal_strlit("");
            assert(columns@ =~= selected(readable@, i as int));
            assert(names@ =~= column_names(i as int));
        }
    }
    if all {
        return sql.to_string();
    }
    let mut r: String = "SELECT ".to_string();
    r.append(columns.as_str());
    r.append(" FROM (");
    r.append(sql);
    r.append(") AS q(");
    r.append(names.as_str());
    r.append(")");
    r
}

// ---- cells -----------------------------------------------------------------------------------

/// A cell of a Postgres row, as it is read for its column's type.
#[derive(Debug, PartialEq, Eq)]
pub enum PgCell {
    /// Of a `bool` column.
    Bool(Option<bool>),
    /// Of an `int2` column.
    Int2(Option<i16>),
    /// Of an `int4` column.
    Int4(Option<i32>),
    /// Of an `int8` column.
    Int8(Option<i64>),
    /// Of a `float4` column, widened to 64 bits, as its bits.
    Float4(Option<u64>),
    /// Of a `float8` column, as its bits.
    Float8(Option<u64>),
    /// Of a `bytea` column.
    Bytea(Option<Vec<u8>>),
    /// Of any other column, as text.
    Other(Option<String>),
}

/// What a cell of Postgres means.
pub open spec fn pg_meaning(cell: PgCell) -> ValueView {
    match cell {
        PgCell::Bool(Some(b)) => ValueView::Bool(b),
        PgCell::Int2(Some(n)) => ValueView::Int(n as int),
        PgCell::Int4(Some(n)) => ValueView::Int(n as int),
        PgCell::Int8(Some(n)) => ValueView::Int(n as int),
        PgCell::Float4(Some(bits)) => ValueView::Float(bits),
        PgCell::Float8(Some(bits)) => ValueView::Float(bits),
        PgCell::Bytea(Some(b)) => ValueView::Bytes(b@),
        PgCell::Other(Some(s)) => ValueView::Text(s@),
        _ => ValueView::Null,
    }
}

/// The value of a cell of Postgres.
#[must_use]
pub fn pg_value(cell: &PgCell) -> (r: Value)
    ensures
        r@ == pg_meaning(*cell),
{
    match cell {
        PgCell::Bool(Some(b)) => Value::Bool(*b),
        PgCell::Int2(Some(n)) => Value::Int(*n as i64),
        PgCell::Int4(Some(n)) => Value::Int(*n as i64),
        PgCell::Int8(Some(n)) => Value::Int(*n),
        PgCell::Float4(Some(bits)) => Value::Float(*bits),
        PgCell::Float8(Some(bits)) => Value::Float(*bits),
        PgCell::Bytea(Some(b)) => Value::Bytes(copy_bytes(b)),
        PgCell::Other(Some(s)) => Value::Text(s.clone()),
        _ => Value::Null,
    }
}

/// What a value of MySQL means: bytes that are UTF-8 are text, other bytes stay bytes, and an
/// unsigned integer that is too large is the largest signed one.
pub open spec fn my_meaning(v: MyView) -> ValueView {
    match v {
        MyView::Null => ValueView::Null,
        MyView::Int(n) => ValueView::Int(n),
        MyView::UInt(n) => ValueView::Int(if n <= i64::MAX {
            n
        } else {
            i64::MAX as int
        }),
        MyView::Float(bits) => ValueView::Float(bits),
        MyView::Double(bits) => ValueView::Float(bits),
        MyView::Bytes(b) => if valid_utf8(b) {
            ValueView::Text(decode_utf8(b))
        } else {
            ValueView::Bytes(b)
        },
        MyView::Time(s) => ValueView::Text(s),
    }
}

/// The value of a value of MySQL.
#[must_use]
pub fn my_value(v: &MyValue) -> (r: Value)
    ensures
        r@ == my_meaning(v@),
{
    match v {
        MyValue::Null => Value::Null,
        MyValue::Int(n) => Value::Int(*n),
        MyValue::UInt(n) => if *n <= 0x7fff_ffff_ffff_ffff {
            Value::Int(*n as i64)
        } else {
            Value::Int(i64::MAX)
        },
        MyValue::Float(bits) => Value::Float(*bits),
        MyValue::Double(bits) => Value::Float(*bits),
        MyValue::Bytes(b) => match text_of_utf8(copy_bytes(b)) {
            Ok(s) => Value::Text(s),
            Err(bytes) => Value::Bytes(bytes),
        },
        MyValue::Time(s) => Value::Text(s.clone()),
    }
}

/// What the cells of a row of MySQL mean; a cell that was taken out of its row is `Null`.
pub open spec fn my_row_meaning(cells: Seq<Option<MyValue>>) -> Seq<ValueView> {
    cells.map_values(
        |c: Option<MyValue>|
            match c {
                Some(v) => my_meaning(v@),
                None => ValueView::Null,
            },
    )
}

/// The row of a row of MySQL.
#[must_use]
pub fn my_row(cells: &Vec<Option<MyValue>>) -> (r: Row)
    ensures
        r@ == my_row_meaning(cells@),
{
    let mut values: Vec<Value> = Vec::new();
    let mut i: usize = 0;
    while i < cells.len()
        invariant
            i <= cells.len(),
            values@.len() == i,
            forall|j: int| 0 <= j < i ==> (#[trigger] values@[j])@ == my_row_meaning(cells@)[j],
        decreases cells.len() - i,
    {
        let value: Value = match &cells[i] {
            Some(v) => my_value(v),
            None => Value::Null,
        };
        values.push(value);
        i = i + 1;
    }
    proof {
        lemma_value_views(values@);
        assert(value_views(values@) =~= my_row_meaning(cells@));
    }
    Row::new(values)
}

/// What the cells of a row of Postgres mean, where each could be read.
pub open spec fn pg_row_meaning(cells: Seq<Result<PgCell, String>>) -> Seq<ValueView> {
    cells.map_values(|c: Result<PgCell, String>| pg_meaning(c->Ok_0))
}

/// The row of a row of Postgres, or the failure of the first cell that could not be read.
pub fn pg_row(cells: &Vec<Result<PgCell, String>>) -> (r: Result<Row, SqlError>)
    ensures
        match r {
            Ok(row) => {
                &&& forall|i: int| 0 <= i < cells@.len() ==> #[trigger] cells@[i] is Ok
                &&& row@ == pg_row_meaning(cells@)
            },
            Err(e) => exists|k: int|
                {
                    &&& 0 <= k < cells@.len()
                    &&& forall|i: int| 0 <= i < k ==> #[trigger] cells@[i] is Ok
                    &&& (#[trigger] cells@[k]) is Err
                    &&& e@ == (SqlErrorView {
                        engine: "postgres"@,
                        stage: "decode"@,
                        message: cells@[k]->Err_0@,
                    })
                },
        },
{
    let mut values: Vec<Value> = Vec::new();
    let mut i: usize = 0;
    while i < cells.len()
        invariant
            i <= cells.len(),
            values@.len() == i,
            forall|j: int| 0 <= j < i ==> #[trigger] cells@[j] is Ok,
            forall|j: int| 0 <= j < i ==> (#[trigger] values@[j])@ == pg_row_meaning(cells@)[j],
        decreases cells.len() - i,
    {
        match &cells[i] {
            Ok(cell) => {
                values.push(pg_value(cell));
            },
            Err(message) => {
                assert(cells@[i as int] is Err);
                return Err(SqlError::backend("postgres", "decode", message.as_str()));
            },
        }
        i = i + 1;
    }
    proof {
        lemma_value_views(values@);
        assert(value_views(values@) =~= pg_row_meaning(cells@));
    }
    Ok(Row::new(values))
}

// ---- catalogs --------------------------------------------------------------------------------

/// The relations of a Postgres database: their names and types.
pub const PG_RELATIONS: &'static str =
    "SELECT table_name, table_type FROM information_schema.tables WHERE table_schema = 'public' ORDER BY table_name";

/// The columns of the primary key of a Postgres relation.
pub const PG_PRIMARY_KEY: &'static str =
    "SELECT kcu.column_name FROM information_schema.table_constraints tc JOIN information_schema.key_column_usage kcu ON kcu.constraint_name = tc.constraint_name AND kcu.table_schema = tc.table_schema WHERE tc.constraint_type = 'PRIMARY KEY' AND tc.table_schema = 'public' AND tc.table_name = $1";

/// The columns of a Postgres relation: their names, types and nullability.
pub const PG_COLUMNS: &'static str =
    "SELECT column_name, data_type, is_nullable FROM information_schema.columns WHERE table_schema = 'public' AND table_name = $1 ORDER BY ordinal_position";

/// The relations of a MySQL database: their names and types.
pub const MY_RELATIONS: &'static str =
    "SELECT table_name, table_type FROM information_schema.tables WHERE table_schema = ? ORDER BY table_name";

/// The columns of a MySQL relation: their names, types, nullability and keys.
pub const MY_COLUMNS: &'static str =
    "SELECT column_name, data_type, is_nullable, column_key FROM information_schema.columns WHERE table_schema = ? AND table_name = ? ORDER BY ordinal_position";

/// Whether a relation is a table or a view.
#[derive(Debug, Clone, Copy, PartialEq, Eq)]
pub enum RelationKind {
    /// A table.
    Table,
    /// A view.
    View,
}

/// A column of a relation.
#[derive(Debug, PartialEq, Eq)]
pub struct ColumnDef {
    /// The column's name.
    pub name: String,
    /// The type of its values.
    pub ty: ColumnType,
    /// Whether it may hold no value.
    pub nullable: bool,
    /// Whether it belongs to the primary key.
    pub primary_key: bool,
    /// Whether its values are held apart by a key.
    pub unique: bool,
}

/// What a [`ColumnDef`] holds.
#[verifier::ext_equal]
pub ghost struct ColumnDefView {
    pub name: Seq<char>,
    pub ty: TypeView,
    pub nullable: bool,
    pub primary_key: bool,
    pub unique: bool,
}

impl View for ColumnDef {
    type V = ColumnDefView;

    open spec fn view(&self) -> ColumnDefView {
        ColumnDefView {
            name: self.name@,
            ty: self.ty@,
            nullable: self.nullable,
            primary_key: self.primary_key,
            unique: self.unique,
        }
    }
}

/// What the columns of a list hold.
pub open spec fn column_def_views(columns: Seq<ColumnDef>) -> Seq<ColumnDefView> {
    columns.map_values(|c: ColumnDef| c@)
}

/// A relation with its columns.
#[derive(Debug, PartialEq, Eq)]
pub struct TableCatalog {
    /// The relation's name.
    pub name: String,
    /// Whether it is a table or a view.
    pub kind: RelationKind,
    /// Its columns, in order.
    pub columns: Vec<ColumnDef>,
}

/// What a [`TableCatalog`] holds.
#[verifier::ext_equal]
pub ghost struct TableView {
    pub name: Seq<char>,
    pub kind: RelationKind,
    pub columns: Seq<ColumnDefView>,
}

impl View for TableCatalog {
    type V = TableView;

    open spec fn view(&self) -> TableView {
        TableView {
            name: self.name@,
            kind: self.kind,
            columns: column_def_views(self.columns@),
        }
    }
}

/// The relations of a database.
#[derive(Debug, PartialEq, Eq)]
pub struct Catalog {
    /// The relations, in order.
    pub tables: Vec<TableCatalog>,
}

impl View for Catalog {
    type V = Seq<TableView>;

    open spec fn view(&self) -> Seq<TableView> {
        self.tables@.map_values(|t: TableCatalog| t@)
    }
}

/// A column as Postgres tells of it, its type already mapped.
#[derive(Debug, PartialEq, Eq)]
pub struct PgColumnRow {
    /// The column's name.
    pub name: String,
    /// The type of its values.
    pub ty: ColumnType,
    /// `YES` or `NO`.
    pub is_nullable: String,
}

/// A relation as Postgres tells of it.
#[derive(Debug, PartialEq, Eq)]
pub struct PgRelation {
    /// The relation's name.
    pub name: String,
    /// `BASE TABLE` or `VIEW`.
    pub table_type: String,
    /// The names of the columns of its primary key.
    pub primary_key: Vec<String>,
    /// Its columns, in order.
    pub columns: Vec<PgColumnRow>,
}

/// A column as MySQL tells of it, its type already mapped.
#[derive(Debug, PartialEq, Eq)]
pub struct MyColumnRow {
    /// The column's name.
    pub name: String,
    /// The type of its values.
    pub ty: ColumnType,
    /// `YES` or `NO`.
    pub is_nullable: String,
    /// `PRI` for a column of the primary key.
    pub column_key: String,
}

/// A relation as MySQL tells of it.
#[derive(Debug, PartialEq, Eq)]
pub struct MyRelation {
    /// The relation's name.
    pub name: String,
    /// `BASE TABLE` or `VIEW`.
    pub table_type: String,
    /// Its columns, in order.
    pub columns: Vec<MyColumnRow>,
}

/// The kind that an engine's word for a relation's type names.
pub open spec fn kind_named(table_type: Seq<char>) -> RelationKind {
    if folded(table_type) == folded("view"@) {
        RelationKind::View
    } else {
        RelationKind::Table
    }
}

fn relation_kind(table_type: &str) -> (r: RelationKind)
    ensures
        r == kind_named(table_type@),
{
    if same_ignoring_case(table_type, "view") {
        RelationKind::View
    } else {
        RelationKind::Table
    }
}

/// Whether the name is one of these.
pub open spec fn names(list: Seq<String>, name: Seq<char>) -> bool {
    exists|i: int| 0 <= i < list.len() && (#[trigger] list[i])@ == name
}

fn is_among(list: &Vec<String>, name: &str) -> (r: bool)
    ensures
        r == names(list@, name@),
{
    let mut i: usize = 0;
    while i < list.len()
        invariant
            i <= list.len(),
            forall|j: int| 0 <= j < i ==> (#[trigger] list@[j])@ != name@,
        decreases list.len() - i,
    {
        if same(list[i].as_str(), name) {
            assert(list@[i as int]@ == name@);
            return true;
        }
        i = i + 1;
    }
    false
}

/// The column that Postgres tells of.
pub open spec fn pg_column(c: PgColumnRow, primary_key: Seq<String>) -> ColumnDefView {
    let is_key = names(primary_key, c.name@);
    ColumnDefView {
        name: c.name@,
        ty: c.ty@,
        nullable: folded(c.is_nullable@) == folded("yes"@),
        primary_key: is_key,
        unique: is_key,
    }
}

/// The relation that Postgres tells of.
pub open spec fn pg_table(rel: PgRelation) -> TableView {
    TableView {
        name: rel.name@,
        kind: kind_named(rel.table_type@),
        columns: rel.columns@.map_values(|c: PgColumnRow| pg_column(c, rel.primary_key@)),
    }
}

fn pg_table_of(rel: &PgRelation) -> (r: TableCatalog)
    ensures
        r@ == pg_table(*rel),
{
    let mut columns: Vec<ColumnDef> = Vec::new();
    let mut i: usize = 0;
    while i < rel.columns.len()
        invariant
            i <= rel.columns.len(),
            columns@.len() == i,
            forall|j: int|
                0 <= j < i ==> (#[trigger] columns@[j])@ == pg_column(
                    rel.columns@[j],
                    rel.primary_key@,
                ),
        decreases rel.columns.len() - i,
    {
        let c: &PgColumnRow = &rel.columns[i];
        let is_key: bool = is_among(&rel.primary_key, c.name.as_str());
        columns.push(
            ColumnDef {
                name: c.name.clone(),
                ty: c.ty.clone(),
                nullable: same_ignoring_case(c.is_nullable.as_str(), "yes"),
                primary_key: is_key,
                unique: is_key,
            },
        );
        i = i + 1;
    }
    assert(column_def_views(columns@) =~= pg_table(*rel).columns);
    TableCatalog {
        name: rel.name.clone(),
        kind: relation_kind(rel.table_type.as_str()),
        columns,
    }
}

/// The catalog of what Postgres tells of its relations.
#[must_use]
pub fn pg_introspect(rels: &Vec<PgRelation>) -> (r: Catalog)
    ensures
        r@ == rels@.map_values(|rel: PgRelation| pg_table(rel)),
{
    let mut tables: Vec<TableCatalog> = Vec::new();
    let mut i: usize = 0;
    while i < rels.len()
        invariant
            i <= rels.len(),
            tables@.len() == i,
            forall|j: int| 0 <= j < i ==> (#[trigger] tables@[j])@ == pg_table(rels@[j]),
        decreases rels.len() - i,
    {
        tables.push(pg_table_of(&rels[i]));
        i = i + 1;
    }
    let r: Catalog = Catalog { tables };
    assert(r@ =~= rels@.map_values(|rel: PgRelation| pg_table(rel)));
    r
}

/// The column that MySQL tells of.
pub open spec fn my_column(c: MyColumnRow) -> ColumnDefView {
    let is_key = folded(c.column_key@) == folded("PRI"@);
    ColumnDefView {
        name: c.name@,
        ty: c.ty@,
        nullable: folded(c.is_nullable@) == folded("yes"@),
        primary_key: is_key,
        unique: is_key,
    }
}

/// The relation that MySQL tells of.
pub open spec fn my_table(rel: MyRelation) -> TableView {
    TableView {
        name: rel.name@,
        kind: kind_named(rel.table_type@),
        columns: rel.columns@.map_values(|c: MyColumnRow| my_column(c)),
    }
}

fn my_table_of(rel: &MyRelation) -> (r: TableCatalog)
    ensures
        r@ == my_table(*rel),
{
    let mut columns: Vec<ColumnDef> = Vec::new();
    let mut i: usize = 0;
    while i < rel.columns.len()
        invariant
            i <= rel.columns.len(),
            columns@.len() == i,
            forall|j: int| 0 <= j < i ==> (#[trigger] columns@[j])@ == my_column(rel.columns@[j]),
        decreases rel.columns.len() - i,
    {
        let c: &MyColumnRow = &rel.columns[i];
        let is_key: bool = same_ignoring_case(c.column_key.as_str(), "PRI");
        columns.push(
            ColumnDef {
                name: c.name.clone(),
                ty: c.ty.clone(),
                nullable: same_ignoring_case(c.is_nullable.as_str(), "yes"),
                primary_key: is_key,
                unique: is_key,
            },
        );
        i = i + 1;
    }
    assert(column_def_views(columns@) =~= my_table(*rel).columns);
    TableCatalog {
        name: rel.name.clone(),
        kind: relation_kind(rel.table_type.as_str()),
        columns,
    }
}

/// The catalog of what MySQL tells of its relations.
#[must_use]
pub fn my_introspect(rels: &Vec<MyRelation>) -> (r: Catalog)
    ensures
        r@ == rels@.map_values(|rel: MyRelation| my_table(rel)),
{
    let mut tables: Vec<TableCatalog> = Vec::new();
    let mut i: usize = 0;
    while i < rels.len()
        invariant
            i <= rels.len(),
            tables@.len() == i,
            forall|j: int| 0 <= j < i ==> (#[trigger] tables@[j])@ == my_table(rels@[j]),
        decreases rels.len() - i,
    {
        tables.push(my_table_of(&rels[i]));
        i = i + 1;
    }
    let r: Catalog = Catalog { tables };
    assert(r@ =~= rels@.map_values(|rel: MyRelation| my_table(rel)));
    r
}

// ---- commits ---------------------------------------------------------------------------------

/// What the engine answered to one step of a commit: the number of rows that a statement
/// affected (to the other steps any number), or what went wrong.
pub type Reply = Result<u64, String>;

/// What is to be done next in a commit.
#[derive(Debug, PartialEq, Eq)]
pub enum CommitStep {
    /// Begin a transaction.
    Begin,
    /// Execute this statement in it.
    Execute(usize),
    /// Commit it.
    Commit,
    /// It is over: so many rows were affected, or something failed and nothing was applied. A
    /// transaction that was begun and not committed is dropped, which rolls it back.
    Finish(Result<u64, SqlError>),
}

/// What a [`CommitStep`] holds.
#[verifier::ext_equal]
pub ghost enum CommitStepView {
    Begin,
    Execute(int),
    Commit,
    Finish(Result<nat, SqlErrorView>),
}

impl View for CommitStep {
    type V = CommitStepView;

    open spec fn view(&self) -> CommitStepView {
        match self {
            CommitStep::Begin => CommitStepView::Begin,
            CommitStep::Execute(i) => CommitStepView::Execute(*i as int),
            CommitStep::Commit => CommitStepView::Commit,
            CommitStep::Finish(Ok(n)) => CommitStepView::Finish(Ok(*n as nat)),
            CommitStep::Finish(Err(e)) => CommitStepView::Finish(Err(e@)),
        }
    }
}

/// The stage that the reply at `k` answers, in a commit of `ops` statements.
pub open spec fn commit_stage(ops: nat, k: int) -> Seq<char> {
    if k == 0 {
        "begin"@
    } else if k <= ops {
        "dml"@
    } else {
        "commit"@
    }
}

/// The index of the first reply that is a failure, or the number of replies.
pub open spec fn first_failure(replies: Seq<Reply>) -> int
    decreases replies.len(),
{
    if replies.len() == 0 {
        0
    } else if first_failure(replies.drop_last()) < replies.len() - 1 {
        first_failure(replies.drop_last())
    } else if replies.last() is Err {
        replies.len() - 1
    } else {
        replies.len() as int
    }
}

/// How many rows the first `ops` statements affected, as far as they are answered.
pub open spec fn affected(replies: Seq<Reply>, ops: nat) -> nat
    decreases ops,
{
    if ops == 0 {
        0
    } else {
        affected(replies, (ops - 1) as nat) + (if ops < replies.len() {
            match replies[ops as int] {
                Ok(n) => n as nat,
                Err(_) => 0,
            }
        } else {
            0
        })
    }
}

/// What is to be done next in a commit of `ops` statements, when the engine has answered so.
pub open spec fn commit_plan(engine: Seq<char>, ops: nat, replies: Seq<Reply>) -> CommitStepView {
    let k = first_failure(replies);
    if k < replies.len() {
        CommitStepView::Finish(
            Err(
                SqlErrorView {
                    engine,
                    stage: commit_stage(ops, k),
                    message: replies[k]->Err_0@,
                },
            ),
        )
    } else if replies.len() == 0 {
        CommitStepView::Begin
    } else if replies.len() <= ops {
        CommitStepView::Execute(replies.len() - 1)
    } else if replies.len() == ops + 1 {
        CommitStepView::Commit
    } else {
        CommitStepView::Finish(Ok(affected(replies, ops)))
    }
}

proof fn lemma_first_failure(replies: Seq<Reply>)
    ensures
        0 <= first_failure(replies) <= replies.len(),
        first_failure(replies) < replies.len() ==> replies[first_failure(replies)] is Err,
        forall|i: int| 0 <= i < first_failure(replies) ==> #[trigger] replies[i] is Ok,
    decreases replies.len(),
{
    if replies.len() > 0 {
        let rest = replies.drop_last();
        lemma_first_failure(rest);
        assert forall|i: int| 0 <= i < first_failure(replies) implies #[trigger] replies[i] is Ok by {
            if i < rest.len() {
                assert(rest[i] is Ok);
            }
        }
    }
}

proof fn lemma_affected_grows(replies: Seq<Reply>, a: nat, b: nat)
    requires
        a <= b,
    ensures
        affected(replies, a) <= affected(replies, b),
    decreases b,
{
    if a < b {
        lemma_affected_grows(replies, a, (b - 1) as nat);
    }
}

/// What is to be done next in the commit of `ops` statements as one transaction, given all that
/// the engine has answered so far: begin, execute each statement in turn, commit. The first
/// failure ends it.
pub fn commit_transaction(engine: SqlEngine, ops: usize, replies: &Vec<Reply>) -> (r: CommitStep)
    requires
        ops < usize::MAX,
        affected(replies@, ops as nat) <= u64::MAX,
    ensures
        r@ == commit_plan(engine.text(), ops as nat, replies@),
{
    let mut k: usize = 0;
    assert(replies@.take(0) =~= Seq::empty());
    while k < replies.len()
        invariant
            k <= replies.len(),
            first_failure(replies@.take(k as int)) == k,
        decreases replies.len() - k,
    {
        assert(replies@.take(k + 1).drop_last() =~= replies@.take(k as int));
        if let Err(message) = &replies[k] {
            let stage: &str = if k == 0 {
                "begin"
            } else if k <= ops {
                "dml"
            } else {
                "commit"
            };
            proof {
                lemma_failure_stays(replies@.take(k + 1), replies@.skip(k + 1));
                assert(replies@.take(k + 1) + replies@.skip(k + 1) =~= replies@);
            }
            return CommitStep::Finish(
                Err(SqlError::backend(engine.name(), stage, message.as_str())),
            );
        }
        k = k + 1;
    }
    assert(replies@.take(k as int) =~= replies@);
    let n: usize = replies.len();
    if n == 0 {
        return CommitStep::Begin;
    }
    if n <= ops {
        return CommitStep::Execute(n - 1);
    }
    if n == ops + 1 {
        return CommitStep::Commit;
    }
    let mut total: u64 = 0;
    let mut i: usize = 0;
    while i < ops
        invariant
            i <= ops,
            ops + 1 < replies.len(),
            total == affected(replies@, i as nat),
            affected(replies@, ops as nat) <= u64::MAX,
        decreases ops - i,
    {
        i = i + 1;
        proof {
            lemma_affected_grows(replies@, i as nat, ops as nat);
        }
        if let Ok(count) = &replies[i] {
            total = total + *count;
        }
    }
    CommitStep::Finish(Ok(total))
}

proof fn lemma_failure_stays(a: Seq<Reply>, b: Seq<Reply>)
    requires
        first_failure(a) < a.len(),
    ensures
        first_failure(a + b) == first_failure(a),
        (a + b)[first_failure(a)] == a[first_failure(a)],
    decreases b.len(),
{
    lemma_first_failure(a);
    if b.len() == 0 {
        assert(a + b =~= a);
    } else {
        assert((a + b).drop_last() =~= a + b.drop_last());
        lemma_failure_stays(a, b.drop_last());
    }
}

// ---- laws ------------------------------------------------------------------------------------

/// A commit is asked for only when every statement has been executed without a failure.
pub proof fn law_commit_follows_every_statement(engine: Seq<char>, ops: nat, replies: Seq<Reply>)
    requires
        commit_plan(engine, ops, replies) is Commit,
    ensures
        replies.len() == ops + 1,
        forall|i: int| 0 <= i < replies.len() ==> #[trigger] replies[i] is Ok,
{
    lemma_first_failure(replies);
}

/// A commit is all or nothing: it succeeds only when every step did, and it then counts the rows
/// of every statement.
pub proof fn law_success_means_every_step_succeeded(
    engine: Seq<char>,
    ops: nat,
    replies: Seq<Reply>,
)
    requires
        commit_plan(engine, ops, replies) matches CommitStepView::Finish(r) && r is Ok,
    ensures
        replies.len() >= ops + 2,
        forall|i: int| 0 <= i < replies.len() ==> #[trigger] replies[i] is Ok,
        commit_plan(engine, ops, replies) == CommitStepView::Finish(Ok(affected(replies, ops))),
{
    lemma_first_failure(replies);
}

/// After a failure nothing more is executed and nothing is committed, whatever the engine might
/// answer later.
pub proof fn law_failure_ends_the_commit(
    engine: Seq<char>,
    ops: nat,
    replies: Seq<Reply>,
    later: Seq<Reply>,
)
    requires
        exists|i: int| 0 <= i < replies.len() && #[trigger] replies[i] is Err,
    ensures
        commit_plan(engine, ops, replies + later) == commit_plan(engine, ops, replies),
        commit_plan(engine, ops, replies) matches CommitStepView::Finish(r) && r is Err,
{
    lemma_first_failure(replies);
    if first_failure(replies) == replies.len() {
        let i = choose|i: int| 0 <= i < replies.len() && #[trigger] replies[i] is Err;
        assert(replies[i] is Ok);
    }
    lemma_failure_stays(replies, later);
}

/// What MySQL hands back of a bound parameter is the parameter: a boolean as `0` or `1`, bytes
/// that are UTF-8 as text, everything else as itself.
pub proof fn law_bound_values_read_back(p: ParamView)
    ensures
        my_meaning(my_bound(p)) == match p {
            ParamView::Null => ValueView::Null,
            ParamView::Bool(b) => ValueView::Int(if b {
                1
            } else {
                0
            }),
            ParamView::Int(n) => ValueView::Int(n),
            ParamView::Float(bits) => ValueView::Float(bits),
            ParamView::Text(s) => ValueView::Text(s),
            ParamView::Bytes(b) => if valid_utf8(b) {
                ValueView::Text(decode_utf8(b))
            } else {
                ValueView::Bytes(b)
            },
        },
{
    if let ParamView::Text(s) = p {
        encode_utf8_valid_utf8(s);
        encode_utf8_decode_utf8(s);
    }
}

/// The width in which an integer is sent to Postgres never changes its value.
pub proof fn law_integers_keep_their_value(n: int, ty: PgType)
    ensures
        match pg_wire(ParamView::Int(n), ty) {
            Some(PgWireView::Int2(m)) => m == n,
            Some(PgWireView::Int4(m)) => m == n,
            Some(PgWireView::Int8(m)) => m == n,
            Some(_) => false,
            None => ty == PgType::Int2 && !(i16::MIN <= n <= i16::MAX) || ty == PgType::Int4 && !(
            i32::MIN <= n <= i32::MAX),
        },
{
}

/// Whether a cell of Postgres holds a value.
pub open spec fn holds_value(cell: PgCell) -> bool {
    match cell {
        PgCell::Bool(v) => v is Some,
        PgCell::Int2(v) => v is Some,
        PgCell::Int4(v) => v is Some,
        PgCell::Int8(v) => v is Some,
        PgCell::Float4(v) => v is Some,
        PgCell::Float8(v) => v is Some,
        PgCell::Bytea(v) => v is Some,
        PgCell::Other(v) => v is Some,
    }
}

/// A cell of Postgres is read as no value exactly where it holds none, whatever its column's type.
pub proof fn law_only_empty_cells_are_null(cell: PgCell)
    ensures
        pg_meaning(cell) is Null <==> !holds_value(cell),
{
}

/// The value that a parameter is.
pub open spec fn value_of(p: ParamView) -> ValueView {
    match p {
        ParamView::Null => ValueView::Null,
        ParamView::Bool(b) => ValueView::Bool(b),
        ParamView::Int(n) => ValueView::Int(n),
        ParamView::Float(bits) => ValueView::Float(bits),
        ParamView::Text(s) => ValueView::Text(s),
        ParamView::Bytes(b) => ValueView::Bytes(b),
    }
}

/// Whether a cell holds what was sent: the same value, in a column of the width in which it was
/// sent. A number that was narrowed counts where narrowing kept it.
pub open spec fn holds_what_was_sent(cell: PgCell, sent: PgWireView) -> bool {
    match sent {
        PgWireView::Null => !holds_value(cell),
        PgWireView::Bool(b) => cell == PgCell::Bool(Some(b)),
        PgWireView::Int2(n) => cell matches PgCell::Int2(Some(m)) && m as int == n,
        PgWireView::Int4(n) => cell matches PgCell::Int4(Some(m)) && m as int == n,
        PgWireView::Int8(n) => cell matches PgCell::Int8(Some(m)) && m as int == n,
        PgWireView::Float4(bits) => cell == PgCell::Float4(Some(bits)),
        PgWireView::Float8(bits) => cell == PgCell::Float8(Some(bits)),
        PgWireView::Text(s) => cell matches PgCell::Other(Some(t)) && t@ == s,
        PgWireView::Bytes(b) => cell matches PgCell::Bytea(Some(c)) && c@ == b,
    }
}

/// What is bound for a column and read back from it is the parameter: booleans, integers and numbers
/// of every width, texts and bytes alike.
pub proof fn law_values_sent_to_postgres_read_back(p: ParamView, ty: PgType, cell: PgCell)
    requires
        pg_wire(p, ty) is Some,
        holds_what_was_sent(cell, pg_wire(p, ty)->Some_0),
    ensures
        pg_meaning(cell) == value_of(p),
{
}

/// The width in which a number is sent.
pub open spec fn width_sent(w: PgWireView) -> Option<PgType> {
    match w {
        PgWireView::Int2(_) => Some(PgType::Int2),
        PgWireView::Int4(_) => Some(PgType::Int4),
        PgWireView::Int8(_) => Some(PgType::Int8),
        PgWireView::Float4(_) => Some(PgType::Float4),
        PgWireView::Float8(_) => Some(PgType::Float8),
        _ => None,
    }
}

/// A number goes to a column of numbers in that column's width, or not at all where it does not fit;
/// every other parameter always goes.
pub proof fn law_numbers_are_sent_in_their_columns_width(p: ParamView, ty: PgType)
    ensures
        p is Int && (ty is Int2 || ty is Int4 || ty is Int8) && pg_wire(p, ty) is Some ==> width_sent(
            pg_wire(p, ty)->Some_0,
        ) == Some(ty),
        p is Float && (ty is Float4 || ty is Float8) ==> pg_wire(p, ty) is Some && width_sent(
            pg_wire(p, ty)->Some_0,
        ) == Some(ty),
        pg_wire(p, ty) is None ==> p is Int && (ty is Int2 && !(-0x8000 <= p->Int_0 < 0x8000) || ty is Int4
            && !(-0x8000_0000 <= p->Int_0 < 0x8000_0000)),
        p is Int && ty is Int2 && !(-0x8000 <= p->Int_0 < 0x8000) ==> pg_wire(p, ty) is None,
        p is Int && ty is Int4 && !(-0x8000_0000 <= p->Int_0 < 0x8000_0000) ==> pg_wire(p, ty) is None,
{
}

/// Both engines tell the same of the same relation: where a column has the same name, type and
/// nullability with both, and is called a key by the one exactly where the other lists it, the two
/// catalogs agree.
pub proof fn law_engines_agree_on_a_relation(a: PgRelation, b: MyRelation)
    requires
        a.name@ == b.name@,
        folded(a.table_type@) == folded(b.table_type@),
        a.columns@.len() == b.columns@.len(),
        forall|i: int|
            0 <= i < a.columns@.len() ==> {
                let c = #[trigger] a.columns@[i];
                let d = b.columns@[i];
                &&& c.name@ == d.name@
                &&& c.ty@ == d.ty@
                &&& folded(c.is_nullable@) == folded(d.is_nullable@)
                &&& a.primary_key@.map_values(|s: String| s@).contains(c.name@) <==> folded(
                    d.column_key@,
                ) == "pri"@
            },
    ensures
        pg_table(a) == my_table(b),
{
    reveal_strlit("PRI");
    reveal_strlit("pri");
    assert(folded("PRI"@) =~= "pri"@);
    let keys = a.primary_key@.map_values(|s: String| s@);
    assert forall|i: int| 0 <= i < a.columns@.len() implies pg_column(
        #[trigger] a.columns@[i],
        a.primary_key@,
    ) == my_column(b.columns@[i]) by {
        let name = a.columns@[i].name@;
        if keys.contains(name) {
            let j = choose|j: int| 0 <= j < keys.len() && keys[j] == name;
            assert(a.primary_key@[j]@ == name);
        }
        if names(a.primary_key@, name) {
            let j = choose|j: int|
                0 <= j < a.primary_key@.len() && (#[trigger] a.primary_key@[j])@ == name;
            assert(keys[j] == name);
        }
    }
    assert(pg_table(a).columns =~= my_table(b).columns);
}

/// A catalog keeps names, types and order; a column may hold no value exactly where the engine says
/// `yes`, and is a key and unique exactly where it is listed as one; only a `view` is a view.
pub proof fn law_catalogs_keep_what_the_engine_said(rel: PgRelation, i: int)
    requires
        0 <= i < rel.columns@.len(),
    ensures
        pg_table(rel).name == rel.name@,
        pg_table(rel).columns.len() == rel.columns@.len(),
        pg_table(rel).columns[i].name == rel.columns@[i].name@,
        pg_table(rel).columns[i].ty == rel.columns@[i].ty@,
        pg_table(rel).columns[i].nullable <==> folded(rel.columns@[i].is_nullable@) == "yes"@,
        pg_table(rel).columns[i].primary_key <==> exists|j: int|
            0 <= j < rel.primary_key@.len() && (#[trigger] rel.primary_key@[j])@
                == rel.columns@[i].name@,
        pg_table(rel).columns[i].unique == pg_table(rel).columns[i].primary_key,
        pg_table(rel).kind == RelationKind::View <==> folded(rel.table_type@) == "view"@,
{
    reveal_strlit("yes");
    reveal_strlit("view");
    assert(folded("yes"@) =~= "yes"@);
    assert(folded("view"@) =~= "view"@);
}

/// Parameters are bound in their places: there are as many as the statement has, the one at each
/// place goes to Postgres as it is, and reads back from MySQL as what it was. Only where there are
/// none is nothing bound.
pub proof fn law_parameters_keep_their_places(
    params: Vec<Param>,
    pg: Vec<PgBind>,
    my: MyParams,
    i: int,
)
    requires
        call_ensures(pg_params, (&params,), pg),
        call_ensures(my_params, (&params,), my),
        0 <= i < params@.len(),
    ensures
        pg@.len() == params@.len(),
        pg@[i].0@ == params@[i]@,
        my is Positional,
        my->Positional_0@.len() == params@.len(),
        match params@[i]@ {
            ParamView::Bool(b) => my_meaning(my->Positional_0@[i]@) == ValueView::Int(if b {
                1
            } else {
                0
            }),
            ParamView::Bytes(b) => valid_utf8(b) || my_meaning(my->Positional_0@[i]@) == value_of(
                params@[i]@,
            ),
            other => my_meaning(my->Positional_0@[i]@) == value_of(other),
        },
{
    let value = my->Positional_0@[i];
    assert(value@ == my_bound(params@[i]@));
    law_bound_values_read_back(params@[i]@);
    assert(pg@[i].0@ == params@[i]@);
}

/// A row has one value for each cell, in its place; of MySQL only a cell without a value is null,
/// and a row of Postgres fails with its first cell that could not be read.
pub proof fn law_rows_keep_their_cells_in_place(
    my: Vec<Option<MyValue>>,
    my_read: Row,
    pg: Vec<Result<PgCell, String>>,
    pg_read: Result<Row, SqlError>,
    i: int,
)
    requires
        call_ensures(my_row, (&my,), my_read),
        call_ensures(pg_row, (&pg,), pg_read),
        0 <= i,
    ensures
        my_read@.len() == my@.len(),
        i < my@.len() ==> (my_read@[i] is Null <==> my@[i] is None || my@[i]->Some_0@ is Null),
        i < my@.len() && my@[i] is Some ==> my_read@[i] == my_meaning(my@[i]->Some_0@),
        pg_read is Ok <==> forall|k: int| 0 <= k < pg@.len() ==> #[trigger] pg@[k] is Ok,
        pg_read matches Ok(row) ==> {
            &&& row@.len() == pg@.len()
            &&& i < pg@.len() ==> row@[i] == pg_meaning(pg@[i]->Ok_0)
        },
        pg_read matches Err(e) ==> (i < pg@.len() && pg@[i] is Err && forall|k: int|
            0 <= k < i ==> #[trigger] pg@[k] is Ok) ==> e@.message == pg@[i]->Err_0@,
{
    if i < my@.len() {
        assert(my_row_meaning(my@)[i] == match my@[i] {
            Some(v) => my_meaning(v@),
            None => ValueView::Null,
        });
    }
    if pg_read is Ok && i < pg@.len() {
        assert(pg@[i] is Ok);
    }
}

/// Numbers of MySQL keep their value as far as the range goes: signed and unsigned ones of the same
/// value are the same integer, both widths of floating point the same number, and a larger unsigned
/// one is never the smaller integer.
pub proof fn law_mysql_numbers_keep_their_value(n: int, m: int, bits: u64)
    requires
        0 <= n <= m <= u64::MAX,
    ensures
        n <= i64::MAX ==> my_meaning(MyView::UInt(n)) == my_meaning(MyView::Int(n)),
        my_meaning(MyView::UInt(n)) is Int,
        my_meaning(MyView::UInt(n))->Int_0 <= my_meaning(MyView::UInt(m))->Int_0 <= i64::MAX,
        n > i64::MAX ==> my_meaning(MyView::UInt(n))->Int_0 == i64::MAX,
        my_meaning(MyView::Int(-n)) == ValueView::Int(-n),
        my_meaning(MyView::Float(bits)) == my_meaning(MyView::Double(bits)),
        my_meaning(MyView::Double(bits)) == ValueView::Float(bits),
{
}

/// What MySQL sends as text is text, a time as it is written too; bytes that are no text stay the
/// bytes they are. Nothing else becomes text or bytes, and only no value is null.
pub proof fn law_mysql_texts_and_bytes_stay_themselves(v: MyView, s: Seq<char>)
    ensures
        my_meaning(MyView::Time(s)) == ValueView::Text(s),
        my_meaning(MyView::Bytes(encode_utf8(s))) == ValueView::Text(s),
        v matches MyView::Bytes(b) ==> !valid_utf8(b) ==> my_meaning(v) == ValueView::Bytes(b),
        my_meaning(v) is Null <==> v is Null,
        my_meaning(v) is Text || my_meaning(v) is Bytes ==> v is Bytes || v is Time,
{
    law_bound_values_read_back(ParamView::Text(s));
}

/// The password that a login has is the one at hand and no other: where a locator carries its own
/// for Postgres none is handed on, for MySQL the one at hand takes its place; the schema does not
/// depend on it.
pub proof fn law_logins_hand_on_the_password_at_hand(
    own: Seq<u8>,
    message: Seq<char>,
    at_hand: Option<Seq<char>>,
    read: Result<Option<String>, String>,
    given: Option<String>,
    other: Option<String>,
    login: Result<MyLogin, SqlError>,
    another: Result<MyLogin, SqlError>,
)
    requires
        call_ensures(login_for, (read, given), login),
        call_ensures(login_for, (read, other), another),
    ensures
        password_given(Ok(None), at_hand) == Ok::<Option<Seq<char>>, SqlErrorView>(at_hand),
        password_given(Ok(Some(own)), at_hand) == Ok::<Option<Seq<char>>, SqlErrorView>(None),
        password_given(Err(message), at_hand) == password_given(Err(message), None),
        password_given(Err(message), at_hand) is Err,
        password_given(Err(message), at_hand)->Err_0.message == message,
        login is Ok <==> read is Ok,
        login is Ok ==> opt_view(login->Ok_0.password) == opt_view(given),
        login is Ok ==> login->Ok_0.schema@ == another->Ok_0.schema@,
        read matches Ok(Some(name)) ==> login->Ok_0.schema@ == name@,
        read matches Ok(None) ==> login->Ok_0.schema@.len() == 0,
        read matches Err(m) ==> login->Err_0@.message == m@,
{
    reveal_strlit("");
}

/// A value read from a cell is null exactly where the cell is empty, and else is of the kind that
/// the cell is of and holds what the cell holds: a number the same number, in every width.
pub proof fn law_cells_are_read_as_what_they_hold(cell: PgCell, read: Value)
    requires
        call_ensures(pg_value, (&cell,), read),
    ensures
        read@ is Null <==> !holds_value(cell),
        holds_value(cell) ==> match cell {
            PgCell::Bool(v) => read@ == ValueView::Bool(v->Some_0),
            PgCell::Int2(v) => read@ == ValueView::Int(v->Some_0 as int),
            PgCell::Int4(v) => read@ == ValueView::Int(v->Some_0 as int),
            PgCell::Int8(v) => read@ == ValueView::Int(v->Some_0 as int),
            PgCell::Float4(v) => read@ == ValueView::Float(v->Some_0),
            PgCell::Float8(v) => read@ == ValueView::Float(v->Some_0),
            PgCell::Bytea(v) => read@ == ValueView::Bytes(v->Some_0@),
            PgCell::Other(v) => read@ == ValueView::Text(v->Some_0@),
        },
{
}

/// What was bound for MySQL reads back: null, numbers and texts as they were, truths as one and
/// zero, bytes as they were where they are no text.
pub proof fn law_mysql_values_read_back(sent: MyValue, read: Value, p: ParamView)
    requires
        call_ensures(my_value, (&sent,), read),
        sent@ == my_bound(p),
    ensures
        match p {
            ParamView::Null => read@ is Null,
            ParamView::Bool(b) => read@ == ValueView::Int(if b {
                1
            } else {
                0
            }),
            ParamView::Int(n) => read@ == ValueView::Int(n),
            ParamView::Float(bits) => read@ == ValueView::Float(bits),
            ParamView::Text(s) => read@ == ValueView::Text(s),
            ParamView::Bytes(b) => valid_utf8(b) || read@ == ValueView::Bytes(b),
        },
{
    law_bound_values_read_back(p);
}

/// A transaction begins, runs its statements one by one in their order, and only then commits; a
/// step that fails is told by the stage it was of: the beginning, a statement, or the commit.
pub proof fn law_statements_run_in_order(
    engine: Seq<char>,
    ops: nat,
    replies: Seq<Reply>,
    m: String,
)
    requires
        forall|i: int| 0 <= i < replies.len() ==> #[trigger] replies[i] is Ok,
    ensures
        replies.len() == 0 ==> commit_plan(engine, ops, replies) is Begin,
        0 < replies.len() <= ops ==> commit_plan(engine, ops, replies) == CommitStepView::Execute(
            replies.len() - 1,
        ),
        replies.len() == ops + 1 ==> commit_plan(engine, ops, replies) is Commit,
        replies.len() >= ops + 2 ==> (commit_plan(engine, ops, replies) matches CommitStepView::Finish(
            r,
        ) && r is Ok),
        commit_plan(engine, ops, replies.push(Err(m))) == CommitStepView::Finish(
            Err(
                SqlErrorView {
                    engine,
                    stage: if replies.len() == 0 {
                        "begin"@
                    } else if replies.len() <= ops {
                        "dml"@
                    } else {
                        "commit"@
                    },
                    message: m@,
                },
            ),
        ),
{
    lemma_no_failure(replies);
    let failed = replies.push(Err(m));
    assert(failed.drop_last() =~= replies);
    assert(failed.last() is Err);
    assert(first_failure(failed) == replies.len());
}

/// Where every reply is good, none is the first that is not.
proof fn lemma_no_failure(replies: Seq<Reply>)
    requires
        forall|i: int| 0 <= i < replies.len() ==> #[trigger] replies[i] is Ok,
    ensures
        first_failure(replies) == replies.len(),
    decreases replies.len(),
{
    if replies.len() > 0 {
        assert forall|i: int| 0 <= i < replies.drop_last().len() implies #[trigger] replies.drop_last()[i] is Ok by {
            assert(replies[i] is Ok);
        }
        lemma_no_failure(replies.drop_last());
        assert(replies[replies.len() - 1] is Ok);
    }
}

/// A statement whose columns can all be read is run as it is; else it is run whole inside of one
/// that reads the others as text.
pub proof fn law_readable_statements_run_as_they_are(sql: Seq<char>, readable: Seq<bool>)
    ensures
        (forall|i: int| 0 <= i < readable.len() ==> readable[i]) ==> readable_query(sql, readable)
            == sql,
        (exists|i: int| 0 <= i < readable.len() && !readable[i]) ==> exists|i: int|
            stands_at(readable_query(sql, readable), i, " FROM ("@ + sql + ") AS q("@),
{
    if exists|i: int| 0 <= i < readable.len() && !readable[i] {
        let before = "SELECT "@ + selected(readable, readable.len() as int);
        let inner = " FROM ("@ + sql + ") AS q("@;
        let q = readable_query(sql, readable);
        let n = before.len() as int;
        assert(q.subrange(n, n + inner.len()) =~= inner);
        assert(stands_at(q, n, inner));
    }
}

} // verus!
