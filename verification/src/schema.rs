//! The schema registry: the fixed column layout of each output table.
//!
//! Eight tables are produced per run, one file each. The layout of a table is
//! immutable for its whole lifetime; every column is required (non-nullable).

use vstd::prelude::*;

verus! {

/// The eight output tables.
#[derive(Clone, Copy, PartialEq, Eq, Structural, Debug)]
pub enum TableKind {
    /// One row per point: (id, lat, lon).
    Points,
    /// One row per tag of a point: (id, k, v).
    PointTags,
    /// One row per polyline: (id).
    Polylines,
    /// One row per tag of a polyline: (id, k, v).
    PolylineTags,
    /// One row per point reference of a polyline: (polyline, point).
    PolylineMembers,
    /// One row per relation: (id).
    Relations,
    /// One row per tag of a relation: (id, k, v).
    RelationTags,
    /// One row per member of a relation: (relation, member, role, kind).
    RelationMembers,
}

/// The most characters one text cell (a tag key or value, a member role or
/// kind label) may hold and still be storable. A character is at most four
/// bytes in UTF-8, a data page holds its byte budget plus at most one whole
/// cell, and a page must stay under the format's 31-bit size field and the
/// compressor's 32-bit input bound — four bytes times this count leaves
/// comfortable room under both.
pub const MAX_CELL_CHARS: usize = 0x1000_0000;

/// The physical type of one column.
#[derive(Clone, Copy, PartialEq, Eq, Structural, Debug)]
pub enum ColumnType {
    /// A 64-bit signed integer.
    Int64,
    /// A 64-bit IEEE-754 floating-point number.
    Double,
    /// A byte string, treated as UTF-8 text.
    Text,
}

/// The column types of a table, in column order.
pub open spec fn spec_columns(kind: TableKind) -> Seq<ColumnType> {
    match kind {
        TableKind::Points => seq![ColumnType::Int64, ColumnType::Double, ColumnType::Double],
        TableKind::PointTags => seq![ColumnType::Int64, ColumnType::Text, ColumnType::Text],
        TableKind::Polylines => seq![ColumnType::Int64],
        TableKind::PolylineTags => seq![ColumnType::Int64, ColumnType::Text, ColumnType::Text],
        TableKind::PolylineMembers => seq![ColumnType::Int64, ColumnType::Int64],
        TableKind::Relations => seq![ColumnType::Int64],
        TableKind::RelationTags => seq![ColumnType::Int64, ColumnType::Text, ColumnType::Text],
        TableKind::RelationMembers => seq![
            ColumnType::Int64,
            ColumnType::Int64,
            ColumnType::Text,
            ColumnType::Text,
        ],
    }
}

/// The column types of a table, in column order.
pub fn columns(kind: TableKind) -> (r: Vec<ColumnType>)
    ensures
        r@ == spec_columns(kind),
{
    let r: Vec<ColumnType> = match kind {
        TableKind::Points => vec![ColumnType::Int64, ColumnType::Double, ColumnType::Double],
        TableKind::PointTags => vec![ColumnType::Int64, ColumnType::Text, ColumnType::Text],
        TableKind::Polylines => vec![ColumnType::Int64],
        TableKind::PolylineTags => vec![ColumnType::Int64, ColumnType::Text, ColumnType::Text],
        TableKind::PolylineMembers => vec![ColumnType::Int64, ColumnType::Int64],
        TableKind::Relations => vec![ColumnType::Int64],
        TableKind::RelationTags => vec![ColumnType::Int64, ColumnType::Text, ColumnType::Text],
        TableKind::RelationMembers => vec![
            ColumnType::Int64,
            ColumnType::Int64,
            ColumnType::Text,
            ColumnType::Text,
        ],
    };
    proof {
        assert(r@ =~= spec_columns(kind));
    }
    r
}

/// The schema text of a table, as the column-file writer parses it.
pub open spec fn spec_message_type(kind: TableKind) -> Seq<char> {
    match kind {
        TableKind::Points => "message schema {
    REQUIRED INT64 id;
    REQUIRED DOUBLE lat;
    REQUIRED DOUBLE lon;
}"@,
        TableKind::PointTags => "message schema {
    REQUIRED INT64 id;
    REQUIRED BYTE_ARRAY k;
    REQUIRED BYTE_ARRAY v;
}"@,
        TableKind::Polylines => "message schema {
    REQUIRED INT64 id;
}"@,
        TableKind::PolylineTags => "message schema {
    REQUIRED INT64 id;
    REQUIRED BYTE_ARRAY k;
    REQUIRED BYTE_ARRAY v;
}"@,
        TableKind::PolylineMembers => "message schema {
    REQUIRED INT64 polyline;
    REQUIRED INT64 point;
}"@,
        TableKind::Relations => "message schema {
    REQUIRED INT64 id;
}"@,
        TableKind::RelationTags => "message schema {
    REQUIRED INT64 id;
    REQUIRED BYTE_ARRAY k;
    REQUIRED BYTE_ARRAY v;
}"@,
        TableKind::RelationMembers => "message schema {
    REQUIRED INT64 relation;
    REQUIRED INT64 member;
    REQUIRED BYTE_ARRAY role;
    REQUIRED BYTE_ARRAY kind;
}"@,
    }
}

/// The schema text of a table, as the column-file writer parses it.
pub fn message_type(kind: TableKind) -> (r: &'static str)
    ensures
        r@ == spec_message_type(kind),
{
    match kind {
        TableKind::Points => "message schema {
    REQUIRED INT64 id;
    REQUIRED DOUBLE lat;
    REQUIRED DOUBLE lon;
}",
        TableKind::PointTags => "message schema {
    REQUIRED INT64 id;
    REQUIRED BYTE_ARRAY k;
    REQUIRED BYTE_ARRAY v;
}",
        TableKind::Polylines => "message schema {
    REQUIRED INT64 id;
}",
        TableKind::PolylineTags => "message schema {
    REQUIRED INT64 id;
    REQUIRED BYTE_ARRAY k;
    REQUIRED BYTE_ARRAY v;
}",
        TableKind::PolylineMembers => "message schema {
    REQUIRED INT64 polyline;
    REQUIRED INT64 point;
}",
        TableKind::Relations => "message schema {
    REQUIRED INT64 id;
}",
        TableKind::RelationTags => "message schema {
    REQUIRED INT64 id;
    REQUIRED BYTE_ARRAY k;
    REQUIRED BYTE_ARRAY v;
}",
        TableKind::RelationMembers => "message schema {
    REQUIRED INT64 relation;
    REQUIRED INT64 member;
    REQUIRED BYTE_ARRAY role;
    REQUIRED BYTE_ARRAY kind;
}",
    }
}

/// The file a table is written to, named from the table's logical name.
pub open spec fn spec_file_name(kind: TableKind) -> Seq<char> {
    match kind {
        TableKind::Points => "points.parquet"@,
        TableKind::PointTags => "point-tags.parquet"@,
        TableKind::Polylines => "polylines.parquet"@,
        TableKind::PolylineTags => "polyline-tags.parquet"@,
        TableKind::PolylineMembers => "polyline-members.parquet"@,
        TableKind::Relations => "relations.parquet"@,
        TableKind::RelationTags => "relation-tags.parquet"@,
        TableKind::RelationMembers => "relation-members.parquet"@,
    }
}

/// The file a table is written to, named from the table's logical name.
pub fn file_name(kind: TableKind) -> (r: &'static str)
    ensures
        r@ == spec_file_name(kind),
{
    match kind {
        TableKind::Points => "points.parquet",
        TableKind::PointTags => "point-tags.parquet",
        TableKind::Polylines => "polylines.parquet",
        TableKind::PolylineTags => "polyline-tags.parquet",
        TableKind::PolylineMembers => "polyline-members.parquet",
        TableKind::Relations => "relations.parquet",
        TableKind::RelationTags => "relation-tags.parquet",
        TableKind::RelationMembers => "relation-members.parquet",
    }
}

} // verus!
