//! Values, rows and batches of rows: the data that flows through a pipeline.
use crate::text::{decimal, nat_text};
use crate::types::schema::{
    column_views, lemma_column_views, Column, ColumnType, ColumnView, Schema, TypeView,
};
use serde_json::Value as JsonTree;
use vstd::prelude::*;

verus! {

/// One value.
#[derive(Debug, PartialEq)]
#[non_exhaustive]
pub enum Value {
    /// No value.
    Null,
    /// A boolean.
    Bool(bool),
    /// A signed integer of 64 bits.
    Int(i64),
    /// A floating-point number of 64 bits, as its bits.
    Float(u64),
    /// Text.
    Text(String),
    /// Bytes.
    Bytes(Vec<u8>),
    /// A moment, as an integer since an epoch.
    Timestamp(i64),
    /// A record.
    Struct(Row),
    /// A collection.
    Array(Vec<Value>),
    /// JSON of any shape.
    Json(JsonTree),
}

/// One row: its values in the order of the columns.
#[derive(Debug, PartialEq)]
pub struct Row {
    /// The values.
    pub values: Vec<Value>,
}

/// A batch of rows with their schema.
#[derive(Debug, PartialEq)]
pub struct RowBatch {
    /// The schema of the rows.
    pub schema: Schema,
    /// The rows.
    pub rows: Vec<Row>,
}

/// What a [`Value`] denotes.
#[verifier::ext_equal]
pub ghost enum ValueView {
    Null,
    Bool(bool),
    Int(int),
    Float(u64),
    Text(Seq<char>),
    Bytes(Seq<u8>),
    Timestamp(int),
    Struct(Seq<ValueView>),
    Array(Seq<ValueView>),
    Json(JsonTree),
}

impl Value {
    /// What the value denotes.
    pub open spec fn denotes(self) -> ValueView
        decreases self,
    {
        match self {
            Value::Null => ValueView::Null,
            Value::Bool(b) => ValueView::Bool(b),
            Value::Int(n) => ValueView::Int(n as int),
            Value::Float(bits) => ValueView::Float(bits),
            Value::Text(s) => ValueView::Text(s@),
            Value::Bytes(b) => ValueView::Bytes(b@),
            Value::Timestamp(t) => ValueView::Timestamp(t as int),
            Value::Struct(row) => ValueView::Struct(value_views(row.values@)),
            Value::Array(items) => ValueView::Array(value_views(items@)),
            Value::Json(j) => ValueView::Json(j),
        }
    }
}

/// What the values of a list denote.
pub open spec fn value_views(values: Seq<Value>) -> Seq<ValueView>
    decreases values,
{
    if values.len() == 0 {
        Seq::empty()
    } else {
        value_views(values.drop_last()).push(values.last().denotes())
    }
}

/// A list of values denotes what its values denote, one by one.
pub broadcast proof fn lemma_value_views(values: Seq<Value>)
    ensures
        (#[trigger] value_views(values)).len() == values.len(),
        forall|i: int| 0 <= i < values.len() ==> #[trigger] value_views(values)[i] == values[i]@,
    decreases values.len(),
{
    if values.len() > 0 {
        lemma_value_views(values.drop_last());
    }
}

impl Default for Row {
    fn default() -> (r: Row)
        ensures
            r.values@.len() == 0,
    {
        Row { values: Vec::new() }
    }
}

impl Default for RowBatch {
    fn default() -> (r: RowBatch)
        ensures
            r.schema.columns@.len() == 0,
            r.rows@.len() == 0,
    {
        RowBatch { schema: Schema::default(), rows: Vec::new() }
    }
}

impl View for Value {
    type V = ValueView;

    open spec fn view(&self) -> ValueView {
        self.denotes()
    }
}

impl View for Row {
    type V = Seq<ValueView>;

    open spec fn view(&self) -> Seq<ValueView> {
        value_views(self.values@)
    }
}

/// Whether a value is one that a column of type `ty` may hold: `Null` in a nullable column only,
/// anything else in a column whose type is not known or is JSON.
pub open spec fn conforms(v: ValueView, ty: TypeView, nullable: bool) -> bool
    decreases v,
{
    match (v, ty) {
        (ValueView::Null, _) => nullable,
        (_, TypeView::Unknown) => true,
        (_, TypeView::Json) => true,
        (ValueView::Bool(_), TypeView::Bool) => true,
        (ValueView::Int(_), TypeView::Int) => true,
        (ValueView::Int(_), TypeView::Timestamp) => true,
        (ValueView::Int(_), TypeView::Date) => true,
        (ValueView::Float(_), TypeView::Float) => true,
        (ValueView::Text(_), TypeView::Text) => true,
        (ValueView::Text(_), TypeView::Decimal) => true,
        (ValueView::Text(_), TypeView::Uuid) => true,
        (ValueView::Bytes(_), TypeView::Bytes) => true,
        (ValueView::Timestamp(_), TypeView::Timestamp) => true,
        (ValueView::Timestamp(_), TypeView::Int) => true,
        (ValueView::Struct(row), TypeView::Struct(columns)) => row_conforms(row, columns),
        (ValueView::Array(items), TypeView::Array(elem)) => items_conform(items, *elem),
        _ => false,
    }
}

/// Whether a nullable column of type `ty` may hold each of the values.
pub open spec fn items_conform(items: Seq<ValueView>, ty: TypeView) -> bool
    decreases items,
{
    forall|i: int| 0 <= i < items.len() ==> conforms(#[trigger] items[i], ty, true)
}

/// Whether a row has as many values as there are columns, each one that its column may hold.
pub open spec fn row_conforms(row: Seq<ValueView>, columns: Seq<ColumnView>) -> bool
    decreases row,
{
    row.len() == columns.len() && forall|i: int|
        0 <= i < row.len() ==> conforms(#[trigger] row[i], columns[i].ty, columns[i].nullable)
}

/// The type that a value inhabits, as far as its structure shows: `Null` shows none, an array that
/// of its first element.
pub open spec fn type_view(v: ValueView) -> TypeView
    decreases v,
{
    match v {
        ValueView::Null => TypeView::Unknown,
        ValueView::Bool(_) => TypeView::Bool,
        ValueView::Int(_) => TypeView::Int,
        ValueView::Float(_) => TypeView::Float,
        ValueView::Text(_) => TypeView::Text,
        ValueView::Bytes(_) => TypeView::Bytes,
        ValueView::Timestamp(_) => TypeView::Timestamp,
        ValueView::Struct(row) => TypeView::Struct(schema_view(row)),
        ValueView::Array(items) => TypeView::Array(
            Box::new(
                if items.len() == 0 {
                    TypeView::Unknown
                } else {
                    type_view(items[0])
                },
            ),
        ),
        ValueView::Json(_) => TypeView::Json,
    }
}

/// The schema that a row shows by itself: a column for each value, called by its position, and
/// nullable where the value is `Null`.
pub open spec fn schema_view(row: Seq<ValueView>) -> Seq<ColumnView>
    decreases row,
{
    if row.len() == 0 {
        Seq::empty()
    } else {
        schema_view(row.drop_last()).push(
            ColumnView {
                name: nat_text((row.len() - 1) as nat),
                ty: type_view(row.last()),
                nullable: row.last() is Null,
            },
        )
    }
}

impl Value {
    /// The type that the value inhabits.
    #[must_use]
    pub fn type_of(&self) -> (r: ColumnType)
        ensures
            r@ == type_view(self@),
        decreases self,
    {
        match self {
            Value::Null => ColumnType::Unknown,
            Value::Bool(_) => ColumnType::Bool,
            Value::Int(_) => ColumnType::Int,
            Value::Float(_) => ColumnType::Float,
            Value::Text(_) => ColumnType::Text,
            Value::Bytes(_) => ColumnType::Bytes,
            Value::Timestamp(_) => ColumnType::Timestamp,
            Value::Struct(row) => {
                ColumnType::Struct(row.schema_of())
            },
            Value::Array(items) => {
                proof {
                    lemma_value_views(items@);
                }
                let elem: ColumnType = if items.len() == 0 {
                    ColumnType::Unknown
                } else {
                    items[0].type_of()
                };
                assert(elem@ == if items@.len() == 0 {
                    TypeView::Unknown
                } else {
                    type_view(value_views(items@)[0])
                });
                let r: ColumnType = ColumnType::Array(Box::new(elem));
                assert(r@ == TypeView::Array(Box::new(elem@)));
                r
            },
            Value::Json(_) => ColumnType::Json,
        }
    }

    /// Whether a column of type `ty` may hold the value.
    #[must_use]
    pub fn conforms_to(&self, ty: &ColumnType, nullable: bool) -> (r: bool)
        ensures
            r == conforms(self@, ty@, nullable),
        decreases self,
    {
        match (self, ty) {
            (Value::Null, _) => nullable,
            (_, ColumnType::Unknown) => true,
            (_, ColumnType::Json) => true,
            (Value::Bool(_), ColumnType::Bool) => true,
            (Value::Int(_), ColumnType::Int) => true,
            (Value::Int(_), ColumnType::Timestamp) => true,
            (Value::Int(_), ColumnType::Date) => true,
            (Value::Float(_), ColumnType::Float) => true,
            (Value::Text(_), ColumnType::Text) => true,
            (Value::Text(_), ColumnType::Decimal) => true,
            (Value::Text(_), ColumnType::Uuid) => true,
            (Value::Bytes(_), ColumnType::Bytes) => true,
            (Value::Timestamp(_), ColumnType::Timestamp) => true,
            (Value::Timestamp(_), ColumnType::Int) => true,
            (Value::Struct(row), ColumnType::Struct(schema)) => row.conforms_to(schema),
            (Value::Array(items), ColumnType::Array(elem)) => {
                assert(ty@ == TypeView::Array(Box::new(elem@)));
                all_conform(items, elem)
            },
            _ => false,
        }
    }
}

/// Whether a nullable column of type `ty` may hold each of the values.
fn all_conform(items: &Vec<Value>, ty: &ColumnType) -> (r: bool)
    ensures
        r == items_conform(value_views(items@), ty@),
    decreases items,
{
    proof {
        lemma_value_views(items@);
    }
    let mut i: usize = 0;
    while i < items.len()
        invariant
            value_views(items@).len() == items@.len(),
            forall|j: int|
                0 <= j < items@.len() ==> #[trigger] value_views(items@)[j] == items@[j]@,
            i <= items.len(),
            forall|j: int| 0 <= j < i ==> conforms(#[trigger] value_views(items@)[j], ty@, true),
        decreases items.len() - i,
    {
        if !items[i].conforms_to(ty, true) {
            assert(!conforms(value_views(items@)[i as int], ty@, true));
            return false;
        }
        i = i + 1;
    }
    true
}

impl Row {
    /// A row with these values.
    #[must_use]
    pub fn new(values: Vec<Value>) -> (r: Row)
        ensures
            r.values == values,
            r@ == value_views(values@),
    {
        Row { values }
    }

    /// Whether the row has as many values as `schema` has columns, each one that its column may
    /// hold.
    #[must_use]
    pub fn conforms_to(&self, schema: &Schema) -> (r: bool)
        ensures
            r == row_conforms(self@, schema@),
        decreases self,
    {
        proof {
            lemma_value_views(self.values@);
            lemma_column_views(schema.columns@);
        }
        if self.values.len() != schema.columns.len() {
            return false;
        }
        let mut i: usize = 0;
        while i < self.values.len()
            invariant
                self@.len() == self.values@.len() == schema@.len() == schema.columns@.len(),
                forall|j: int|
                    0 <= j < self.values@.len() ==> #[trigger] self@[j] == self.values@[j]@,
                forall|j: int|
                    0 <= j < schema.columns@.len() ==> #[trigger] schema@[j] == schema.columns@[j]@,
                i <= self.values.len(),
                forall|j: int|
                    0 <= j < i ==> conforms(
                        #[trigger] self@[j],
                        schema@[j].ty,
                        schema@[j].nullable,
                    ),
            decreases self.values.len() - i,
        {
            let column: &Column = &schema.columns[i];
            assert(schema@[i as int] == column@);
            if !self.values[i].conforms_to(&column.ty, column.nullable) {
                assert(!conforms(self@[i as int], schema@[i as int].ty, schema@[i as int].nullable));
                return false;
            }
            i = i + 1;
        }
        true
    }

    /// The schema that the row shows by itself.
    #[must_use]
    fn schema_of(&self) -> (r: Schema)
        ensures
            r@ == schema_view(self@),
        decreases self,
    {
        let mut columns: Vec<Column> = Vec::new();
        let mut i: usize = 0;
        proof {
            lemma_value_views(self.values@);
        }
        assert(self@.take(0) =~= Seq::empty());
        assert(column_views(columns@) =~= schema_view(self@.take(0)));
        while i < self.values.len()
            invariant
                self@.len() == self.values@.len(),
                forall|j: int|
                    0 <= j < self.values@.len() ==> #[trigger] self@[j] == self.values@[j]@,
                i <= self.values.len(),
                column_views(columns@) == schema_view(self@.take(i as int)),
            decreases self.values.len() - i,
        {
            let value: &Value = &self.values[i];
            let nullable: bool = match value {
                Value::Null => true,
                _ => false,
            };
            let ghost had = columns@;
            columns.push(Column::new(decimal(i as u64), value.type_of(), nullable));
            proof {
                assert(columns@.drop_last() =~= had);
                assert(self@.take(i + 1).drop_last() =~= self@.take(i as int));
                assert(self@.take(i + 1).last() == self@[i as int]);
                assert(column_views(columns@) =~= schema_view(self@.take(i + 1)));
            }
            i = i + 1;
        }
        assert(self@.take(i as int) =~= self@);
        Schema::new(columns)
    }
}

impl RowBatch {
    /// A batch of these rows.
    #[must_use]
    pub fn new(schema: Schema, rows: Vec<Row>) -> (r: RowBatch)
        ensures
            r.schema == schema,
            r.rows == rows,
    {
        RowBatch { schema, rows }
    }

    /// Whether every row conforms to the schema.
    #[must_use]
    pub fn is_conformant(&self) -> (r: bool)
        ensures
            r == (forall|i: int|
                0 <= i < self.rows@.len() ==> row_conforms(
                    (#[trigger] self.rows@[i])@,
                    self.schema@,
                )),
    {
        let mut i: usize = 0;
        while i < self.rows.len()
            invariant
                i <= self.rows.len(),
                forall|j: int|
                    0 <= j < i ==> row_conforms((#[trigger] self.rows@[j])@, self.schema@),
            decreases self.rows.len() - i,
        {
            if !self.rows[i].conforms_to(&self.schema) {
                assert(!row_conforms(self.rows@[i as int]@, self.schema@));
                return false;
            }
            i = i + 1;
        }
        true
    }
}

/// A value in which every array is of one type: each of its elements is one that the type of the
/// first allows.
pub open spec fn homogeneous(v: ValueView) -> bool
    decreases v,
{
    match v {
        ValueView::Struct(row) => forall|i: int|
            0 <= i < row.len() ==> homogeneous(#[trigger] row[i]),
        ValueView::Array(items) => items_conform(items, type_view(items[0])),
        _ => true,
    }
}

proof fn lemma_schema_view(row: Seq<ValueView>)
    ensures
        schema_view(row).len() == row.len(),
        forall|i: int|
            #![trigger schema_view(row)[i]]
            0 <= i < row.len() ==> schema_view(row)[i].ty == type_view(row[i]) && schema_view(
                row,
            )[i].nullable == (row[i] is Null),
    decreases row.len(),
{
    if row.len() > 0 {
        lemma_schema_view(row.drop_last());
    }
}

/// A value conforms to the type that it inhabits exactly where every array in it is of one type.
pub proof fn law_value_conforms_to_its_type(v: ValueView)
    ensures
        conforms(v, type_view(v), true) <==> homogeneous(v),
    decreases v,
{
    match v {
        ValueView::Struct(row) => {
            lemma_schema_view(row);
            assert forall|i: int| 0 <= i < row.len() implies conforms(
                #[trigger] row[i],
                schema_view(row)[i].ty,
                schema_view(row)[i].nullable,
            ) == homogeneous(row[i]) by {
                law_value_conforms_to_its_type(row[i]);
            }
            let columns = schema_view(row);
            if row_conforms(row, columns) {
                assert forall|i: int| 0 <= i < row.len() implies homogeneous(#[trigger] row[i]) by {
                    assert(conforms(row[i], columns[i].ty, columns[i].nullable));
                }
            }
            if homogeneous(v) {
                assert forall|i: int| 0 <= i < row.len() implies conforms(
                    #[trigger] row[i],
                    columns[i].ty,
                    columns[i].nullable,
                ) by {
                    assert(homogeneous(row[i]));
                }
            }
        },
        ValueView::Array(items) => {
            if items.len() > 0 {
                assert(*(type_view(v)->Array_0) == type_view(items[0]));
            }
        },
        _ => {},
    }
}

/// Whether a column may be empty matters to nothing but null: null fits exactly where it may be,
/// whatever the type, and any other value fits or not by its type alone.
pub proof fn law_only_null_asks_for_room(v: ValueView, ty: TypeView, nullable: bool)
    ensures
        conforms(ValueView::Null, ty, nullable) == nullable,
        !(v is Null) ==> conforms(v, ty, nullable) == conforms(v, ty, !nullable),
        !(v is Null) ==> conforms(v, TypeView::Unknown, nullable) && conforms(
            v,
            TypeView::Json,
            nullable,
        ),
{
}

/// Which values each type holds, null aside: texts also as decimals and identifiers, integers and
/// moments each as the other, integers also as dates, and all else only its own kind.
pub proof fn law_types_hold_their_own_kind(v: ValueView)
    requires
        !(v is Null),
    ensures
        conforms(v, TypeView::Bool, false) <==> v is Bool,
        conforms(v, TypeView::Float, false) <==> v is Float,
        conforms(v, TypeView::Bytes, false) <==> v is Bytes,
        conforms(v, TypeView::Text, false) <==> v is Text,
        conforms(v, TypeView::Decimal, false) == conforms(v, TypeView::Text, false),
        conforms(v, TypeView::Uuid, false) == conforms(v, TypeView::Text, false),
        conforms(v, TypeView::Int, false) <==> v is Int || v is Timestamp,
        conforms(v, TypeView::Timestamp, false) == conforms(v, TypeView::Int, false),
        conforms(v, TypeView::Date, false) <==> v is Int,
        forall|columns: Seq<ColumnView>| #[trigger]
            conforms(v, TypeView::Struct(columns), false) ==> v is Struct,
        forall|elem: Box<TypeView>| #[trigger]
            conforms(v, TypeView::Array(elem), false) ==> v is Array,
{
}

/// A row fits its columns cell by cell, each cell the column at its place, and no cell may be
/// missing or left over; an array fits where each of its items does, null among them.
pub proof fn law_rows_fit_cell_by_cell(
    row: Seq<ValueView>,
    columns: Seq<ColumnView>,
    v: ValueView,
    column: ColumnView,
    ty: TypeView,
)
    requires
        row.len() == columns.len(),
    ensures
        row_conforms(row.push(v), columns.push(column)) <==> row_conforms(row, columns) && conforms(
            v,
            column.ty,
            column.nullable,
        ),
        !row_conforms(row.push(v), columns),
        !row_conforms(row, columns.push(column)),
        items_conform(row.push(v), ty) <==> items_conform(row, ty) && conforms(v, ty, true),
        items_conform(row.push(ValueView::Null), ty) <==> items_conform(row, ty),
{
    let longer = row.push(v);
    let wider = columns.push(column);
    assert(forall|i: int| 0 <= i < row.len() ==> longer[i] == row[i] && wider[i] == columns[i]);
    assert(longer[row.len() as int] == v);
    assert(wider[row.len() as int] == column);
    if row_conforms(longer, wider) {
        assert forall|i: int| 0 <= i < row.len() implies conforms(
            #[trigger] row[i],
            columns[i].ty,
            columns[i].nullable,
        ) by {
            assert(conforms(longer[i], wider[i].ty, wider[i].nullable));
        }
        assert(conforms(longer[row.len() as int], column.ty, column.nullable));
    }
    if items_conform(longer, ty) {
        assert forall|i: int| 0 <= i < row.len() implies conforms(#[trigger] row[i], ty, true) by {
            assert(conforms(longer[i], ty, true));
        }
        assert(conforms(longer[row.len() as int], ty, true));
    }
    let with_null = row.push(ValueView::Null);
    assert(forall|i: int| 0 <= i < row.len() ==> with_null[i] == row[i]);
    if items_conform(with_null, ty) {
        assert forall|i: int| 0 <= i < row.len() implies conforms(#[trigger] row[i], ty, true) by {
            assert(conforms(with_null[i], ty, true));
        }
    }
}

} // verus!
