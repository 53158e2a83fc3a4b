use crate::stmt;
use vstd::prelude::*;

verus! {

/// Identifies a table by its position in [`Schema::tables`].
#[derive(Clone, Copy, Debug, PartialEq, Eq, Hash, Structural)]
pub struct TableId(pub usize);

/// Identifies a column: the table it belongs to and its position in that
/// table's column list.
#[derive(Clone, Copy, Debug, PartialEq, Eq, Hash, Structural)]
pub struct ColumnId {
    pub table: TableId,
    pub index: usize,
}

/// Identifies an index: the table it belongs to and its position in that
/// table's index list.
#[derive(Clone, Copy, Debug, PartialEq, Eq, Hash, Structural)]
pub struct IndexId {
    pub table: TableId,
    pub index: usize,
}

/// The storage type of a column in the database.
#[derive(Clone, Copy, Debug, PartialEq, Eq, Structural)]
pub enum Type {
    /// A boolean.
    Boolean,
    /// A signed integer with the given width in bytes.
    Integer(u8),
    /// An unsigned integer with the given width in bytes.
    UnsignedInteger(u8),
    /// Unbounded text.
    Text,
    /// Text with a maximum length.
    VarChar(u64),
    /// Raw bytes.
    Blob,
    /// A UUID.
    Uuid,
}

/// A column of a table.
#[derive(Clone, Debug)]
pub struct Column {
    pub id: ColumnId,
    pub name: String,
    pub ty: stmt::Type,
    pub storage_ty: Type,
    pub nullable: bool,
    pub primary_key: bool,
    pub auto_increment: bool,
}

/// The comparison an index supports on a column.
#[derive(Clone, Copy, Debug, PartialEq, Eq, Structural)]
pub enum IndexOp {
    Eq,
    Sort,
}

/// Whether an index column partitions or sorts.
#[derive(Clone, Copy, Debug, PartialEq, Eq, Structural)]
pub enum IndexScope {
    Partition,
    Local,
}

/// One column of an index.
#[derive(Clone, Copy, Debug, PartialEq, Eq, Structural)]
pub struct IndexColumn {
    pub column: ColumnId,
    pub op: IndexOp,
    pub scope: IndexScope,
}

/// An index on a table.
#[derive(Clone, Debug)]
pub struct Index {
    pub id: IndexId,
    pub name: String,
    pub on: TableId,
    pub columns: Vec<IndexColumn>,
    pub unique: bool,
    pub primary_key: bool,
}

/// The primary key of a table.
#[derive(Clone, Debug)]
pub struct PrimaryKey {
    pub columns: Vec<ColumnId>,
    pub index: IndexId,
}

/// A database table.
#[derive(Clone, Debug)]
pub struct Table {
    pub id: TableId,
    pub name: String,
    pub columns: Vec<Column>,
    pub primary_key: PrimaryKey,
    pub indices: Vec<Index>,
}

/// A database schema: the list of its tables.
#[derive(Clone, Debug)]
pub struct Schema {
    pub tables: Vec<Table>,
}

impl Default for Schema {
    fn default() -> (s: Self)
        ensures
            s.tables@.len() == 0,
    {
        Schema { tables: Vec::new() }
    }
}

} // verus!
