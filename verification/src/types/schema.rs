//! Schemas: the names, types and nullability of columns.
use vstd::prelude::*;

verus! {

/// The type of a column.
#[derive(Debug, PartialEq, Eq)]
#[non_exhaustive]
pub enum ColumnType {
    /// Not known until the rows are there.
    Unknown,
    /// Booleans.
    Bool,
    /// Signed integers of 64 bits.
    Int,
    /// Floating-point numbers of 64 bits.
    Float,
    /// Text.
    Text,
    /// Bytes.
    Bytes,
    /// Moments, as an integer since an epoch.
    Timestamp,
    /// Days.
    Date,
    /// Decimal numbers, written out.
    Decimal,
    /// UUIDs, written out.
    Uuid,
    /// JSON of any shape.
    Json,
    /// Records with this schema.
    Struct(Schema),
    /// Collections of elements of this type.
    Array(Box<ColumnType>),
}

/// One column.
#[derive(Debug, PartialEq, Eq)]
pub struct Column {
    /// The column's name.
    pub name: String,
    /// The type of its values.
    pub ty: ColumnType,
    /// Whether it may hold no value.
    pub nullable: bool,
}

/// The columns of a row, in order.
#[derive(Debug, PartialEq, Eq)]
pub struct Schema {
    /// The columns.
    pub columns: Vec<Column>,
}

/// What a [`ColumnType`] denotes.
#[verifier::ext_equal]
pub ghost enum TypeView {
    Unknown,
    Bool,
    Int,
    Float,
    Text,
    Bytes,
    Timestamp,
    Date,
    Decimal,
    Uuid,
    Json,
    Struct(Seq<ColumnView>),
    Array(Box<TypeView>),
}

/// What a [`Column`] denotes.
#[verifier::ext_equal]
pub ghost struct ColumnView {
    pub name: Seq<char>,
    pub ty: TypeView,
    pub nullable: bool,
}

impl ColumnType {
    /// What the type denotes.
    pub open spec fn denotes(self) -> TypeView
        decreases self,
    {
        match self {
            ColumnType::Unknown => TypeView::Unknown,
            ColumnType::Bool => TypeView::Bool,
            ColumnType::Int => TypeView::Int,
            ColumnType::Float => TypeView::Float,
            ColumnType::Text => TypeView::Text,
            ColumnType::Bytes => TypeView::Bytes,
            ColumnType::Timestamp => TypeView::Timestamp,
            ColumnType::Date => TypeView::Date,
            ColumnType::Decimal => TypeView::Decimal,
            ColumnType::Uuid => TypeView::Uuid,
            ColumnType::Json => TypeView::Json,
            ColumnType::Struct(schema) => TypeView::Struct(column_views(schema.columns@)),
            ColumnType::Array(elem) => TypeView::Array(Box::new(elem.denotes())),
        }
    }
}

/// What the columns of a list denote.
pub open spec fn column_views(columns: Seq<Column>) -> Seq<ColumnView>
    decreases columns,
{
    if columns.len() == 0 {
        Seq::empty()
    } else {
        let last = columns.last();
        column_views(columns.drop_last()).push(
            ColumnView { name: last.name@, ty: last.ty.denotes(), nullable: last.nullable },
        )
    }
}

impl View for ColumnType {
    type V = TypeView;

    open spec fn view(&self) -> TypeView {
        self.denotes()
    }
}

impl View for Column {
    type V = ColumnView;

    open spec fn view(&self) -> ColumnView {
        ColumnView { name: self.name@, ty: self.ty@, nullable: self.nullable }
    }
}

impl View for Schema {
    type V = Seq<ColumnView>;

    open spec fn view(&self) -> Seq<ColumnView> {
        column_views(self.columns@)
    }
}

/// A list of columns denotes what its columns denote, one by one.
pub broadcast proof fn lemma_column_views(columns: Seq<Column>)
    ensures
        (#[trigger] column_views(columns)).len() == columns.len(),
        forall|i: int| 0 <= i < columns.len() ==> #[trigger] column_views(columns)[i] == columns[i]@,
    decreases columns.len(),
{
    if columns.len() > 0 {
        lemma_column_views(columns.drop_last());
    }
}

impl Column {
    /// A column.
    #[must_use]
    pub fn new(name: String, ty: ColumnType, nullable: bool) -> (r: Column)
        ensures
            r@ == (ColumnView { name: name@, ty: ty@, nullable }),
    {
        Column { name, ty, nullable }
    }
}

impl Default for Schema {
    fn default() -> (r: Schema)
        ensures
            r.columns@.len() == 0,
    {
        Schema { columns: Vec::new() }
    }
}

impl Schema {
    /// A schema with these columns.
    #[must_use]
    pub fn new(columns: Vec<Column>) -> (r: Schema)
        ensures
            r.columns == columns,
            r@ == column_views(columns@),
    {
        Schema { columns }
    }
}

fn copy_type(ty: &ColumnType) -> (r: ColumnType)
    ensures
        r@ == ty@,
    decreases ty,
{
    match ty {
        ColumnType::Unknown => ColumnType::Unknown,
        ColumnType::Bool => ColumnType::Bool,
        ColumnType::Int => ColumnType::Int,
        ColumnType::Float => ColumnType::Float,
        ColumnType::Text => ColumnType::Text,
        ColumnType::Bytes => ColumnType::Bytes,
        ColumnType::Timestamp => ColumnType::Timestamp,
        ColumnType::Date => ColumnType::Date,
        ColumnType::Decimal => ColumnType::Decimal,
        ColumnType::Uuid => ColumnType::Uuid,
        ColumnType::Json => ColumnType::Json,
        ColumnType::Struct(schema) => ColumnType::Struct(copy_schema(schema)),
        ColumnType::Array(elem) => ColumnType::Array(Box::new(copy_type(elem))),
    }
}

fn copy_schema(schema: &Schema) -> (r: Schema)
    ensures
        r@ == schema@,
    decreases schema,
{
    let mut columns: Vec<Column> = Vec::new();
    let mut i: usize = 0;
    while i < schema.columns.len()
        invariant
            i <= schema.columns.len(),
            columns@.len() == i,
            forall|j: int| 0 <= j < i ==> (#[trigger] columns@[j])@ == schema.columns@[j]@,
        decreases schema.columns.len() - i,
    {
        let c: &Column = &schema.columns[i];
        columns.push(Column { name: c.name.clone(), ty: copy_type(&c.ty), nullable: c.nullable });
        i = i + 1;
    }
    proof {
        lemma_column_views(columns@);
        lemma_column_views(schema.columns@);
        assert(column_views(columns@) =~= column_views(schema.columns@));
    }
    Schema { columns }
}

impl Clone for ColumnType {
    fn clone(&self) -> (r: Self)
        ensures
            r@ == self@,
    {
        copy_type(self)
    }
}

impl Clone for Schema {
    fn clone(&self) -> (r: Self)
        ensures
            r@ == self@,
    {
        copy_schema(self)
    }
}

impl Clone for Column {
    fn clone(&self) -> (r: Self)
        ensures
            r@ == self@,
    {
        Column { name: self.name.clone(), ty: copy_type(&self.ty), nullable: self.nullable }
    }
}

} // verus!
