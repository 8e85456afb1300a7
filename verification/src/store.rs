//! The trusted boundary to the column-file writer, and the table handles
//! built on it.
//!
//! Each open table owns one in-memory `parquet` file writer. The writer
//! itself is opaque; two names carry what the contracts need of it: which
//! registry layout it was opened with, and how many row groups have been
//! appended. What the library tracks beyond that, and what every contract
//! speaks of, is the sequence of rows handed to the writer.
//!
//! Every write lands in an in-memory byte buffer, so success is a function of
//! the arguments alone: a writer opened on a registry layout accepts every
//! row group whose columns match that layout and have equal lengths, as long
//! as fewer than [`MAX_ROW_GROUPS`] groups have been appended and every text
//! cell stays within [`MAX_CELL_CHARS`] — a larger cell could push one data
//! page past the format's 31-bit size field. The trusted contracts say so,
//! and the table handles check both bounds and turn them into typed errors
//! instead of ever reaching a storage failure.
//! Closing a table writes the file footer and hands back the finished file
//! bytes; writing those bytes to disk is the caller's business.

use vstd::prelude::*;

use crate::columns::{LineMemberColumns, RelMemberColumns, TagColumns};
use crate::rows::{LineMemberRow, RelMemberRow, TagRow};
use crate::schema::{ColumnType, MAX_CELL_CHARS, TableKind, message_type, spec_columns};
use parquet::basic::Compression;
use parquet::column::writer::ColumnWriter;
use parquet::data_type::ByteArray;
use parquet::errors::ParquetError;
use parquet::file::properties::WriterProperties;
use parquet::file::writer::{SerializedFileWriter, SerializedRowGroupWriter};
use parquet::schema::parser::parse_message_type;
use std::sync::Arc;

verus! {

#[verifier::external_type_specification]
#[verifier::external_body]
pub struct ExParquetError(ParquetError);

/// An open column-file writer, opaque to the verifier. It holds the
/// `parquet` file writer over an in-memory byte buffer; Verus would need the
/// `std::io::Write` bound of that type declared, which it does not accept, so
/// the writer is held behind this struct instead.
#[verifier::external_body]
pub struct TableWriter {
    w: SerializedFileWriter<Vec<u8>>,
}

/// One row group being written, opaque to the verifier. It borrows the table
/// writer until it is closed, and never crosses the trusted boundary: each
/// append wrapper opens, fills and closes its row group in one body.
#[verifier::external_body]
struct RowGroup<'a> {
    rg: SerializedRowGroupWriter<'a, Vec<u8>>,
}

/// The registry layout a writer was opened with. Named so that the trusted
/// contracts can demand a matching layout for each append.
pub uninterp spec fn writer_kind(w: TableWriter) -> TableKind;

/// How many row groups have been appended to a writer. Named so that the
/// trusted contracts can promise success below the row-group bound.
pub uninterp spec fn writer_groups(w: TableWriter) -> int;

/// The most row groups one file accepts: the file's metadata counts them in
/// a 31-bit field, and the writer refuses further groups at that bound.
pub const MAX_ROW_GROUPS: u32 = 0x7fff_ffff;

/// A failure of the storage layer, naming the table it struck. With the
/// storage in memory, the only failure the library can reach is an append
/// beyond [`MAX_ROW_GROUPS`], reported as `Write`; `Open` and `Close` exist
/// so that every stage of a table's life has its typed failure.
#[derive(Clone, Copy, PartialEq, Eq, Structural, Debug)]
pub enum StoreError {
    /// The table's writer could not be opened.
    Open(TableKind),
    /// A row group could not be appended to the table.
    Write(TableKind),
    /// The table's file could not be finalized.
    Close(TableKind),
}

/// Relies on parquet's `parse_message_type` and `SerializedFileWriter::new`:
/// opens an in-memory writer for `kind`'s registry schema, with
/// SNAPPY-compressed pages. The eight registry texts parse, and over an
/// in-memory buffer the only fallible step of `new` is writing the magic
/// header into that buffer, which cannot fail — so the call succeeds.
#[verifier::external_body]
fn pq_open(kind: TableKind, msg: &str) -> (r: Result<TableWriter, ParquetError>)
    requires
        msg@ == crate::schema::spec_message_type(kind),
    ensures
        r is Ok,
        r matches Ok(w) ==> writer_kind(w) == kind && writer_groups(w) == 0,
{
    let parsed = parse_message_type(msg)?;
    let props = WriterProperties::builder().set_compression(Compression::SNAPPY).build();
    Ok(TableWriter { w: SerializedFileWriter::new(Vec::new(), Arc::new(parsed), Arc::new(props))? })
}

/// Relies on parquet's `next_column` and the INT64 column writer: appends
/// `vals` as the next column of the row group. A column of another type is
/// reported as an error, never a panic.
#[verifier::external_body]
fn pq_write_i64_column(rg: &mut RowGroup<'_>, vals: &Vec<i64>) -> (r: Result<(), ParquetError>) {
    let mut c = match rg.rg.next_column()? {
        Some(c) => c,
        None => return Err(ParquetError::General(String::from("too many columns"))),
    };
    match c.untyped() {
        ColumnWriter::Int64ColumnWriter(t) => {
            t.write_batch(vals, None, None)?;
        },
        _ => return Err(ParquetError::General(String::from("column type mismatch"))),
    }
    c.close()?;
    Ok(())
}

/// Relies on parquet's `next_column` and the BYTE_ARRAY column writer:
/// appends `vals`, one byte array per string, as the next column of the row
/// group. A column of another type is reported as an error, never a panic.
#[verifier::external_body]
fn pq_write_text_column(rg: &mut RowGroup<'_>, vals: &Vec<String>) -> (r: Result<
    (),
    ParquetError,
>) {
    let arrays: Vec<ByteArray> = vals.iter().map(|s| s.as_str().into()).collect();
    let mut c = match rg.rg.next_column()? {
        Some(c) => c,
        None => return Err(ParquetError::General(String::from("too many columns"))),
    };
    match c.untyped() {
        ColumnWriter::ByteArrayColumnWriter(t) => {
            t.write_batch(&arrays, None, None)?;
        },
        _ => return Err(ParquetError::General(String::from("column type mismatch"))),
    }
    c.close()?;
    Ok(())
}

/// Relies on parquet's `next_row_group`, the column writers and the
/// row-group `close`: appends one row group holding the single id column.
/// Below the row-group bound, on the single-INT64 layout, every step returns
/// `Ok`: the write target is memory, the one column matches the schema, and
/// there is no second column to leave unequal.
#[verifier::external_body]
fn pq_append_ids(w: &mut TableWriter, ids: &Vec<i64>) -> (r: Result<(), ParquetError>)
    requires
        spec_columns(writer_kind(*old(w))) == seq![ColumnType::Int64],
        0 <= writer_groups(*old(w)) < MAX_ROW_GROUPS,
    ensures
        writer_kind(*final(w)) == writer_kind(*old(w)),
        writer_groups(*final(w)) == writer_groups(*old(w)) + 1,
        r is Ok,
{
    let mut rg = RowGroup { rg: w.w.next_row_group()? };
    pq_write_i64_column(&mut rg, ids)?;
    rg.rg.close()?;
    Ok(())
}

/// Relies on the same parquet calls as [`pq_append_ids`]: appends one row
/// group holding the polyline-member columns. Below the row-group bound, on
/// the matching layout and with equal column lengths, every step returns
/// `Ok`.
#[verifier::external_body]
fn pq_append_line_members(w: &mut TableWriter, cols: &LineMemberColumns) -> (r: Result<
    (),
    ParquetError,
>)
    requires
        cols.wf(),
        spec_columns(writer_kind(*old(w))) == seq![ColumnType::Int64, ColumnType::Int64],
        0 <= writer_groups(*old(w)) < MAX_ROW_GROUPS,
    ensures
        writer_kind(*final(w)) == writer_kind(*old(w)),
        writer_groups(*final(w)) == writer_groups(*old(w)) + 1,
        r is Ok,
{
    let mut rg = RowGroup { rg: w.w.next_row_group()? };
    pq_write_i64_column(&mut rg, &cols.lines)?;
    pq_write_i64_column(&mut rg, &cols.points)?;
    rg.rg.close()?;
    Ok(())
}

/// Relies on the same parquet calls as [`pq_append_ids`]: appends one row
/// group holding the tag columns. Below the row-group bound, on the tag
/// layout, with equal column lengths and with every text cell within
/// [`MAX_CELL_CHARS`], every step returns `Ok`: a data page holds its byte
/// budget plus at most one whole cell, so no page can reach the format's
/// 31-bit page-size field or the compressor's 32-bit input bound.
#[verifier::external_body]
fn pq_append_tags(w: &mut TableWriter, cols: &TagColumns) -> (r: Result<(), ParquetError>)
    requires
        cols.wf(),
        cols.fits(),
        spec_columns(writer_kind(*old(w))) == seq![
            ColumnType::Int64,
            ColumnType::Text,
            ColumnType::Text,
        ],
        0 <= writer_groups(*old(w)) < MAX_ROW_GROUPS,
    ensures
        writer_kind(*final(w)) == writer_kind(*old(w)),
        writer_groups(*final(w)) == writer_groups(*old(w)) + 1,
        r is Ok,
{
    let mut rg = RowGroup { rg: w.w.next_row_group()? };
    pq_write_i64_column(&mut rg, &cols.owners)?;
    pq_write_text_column(&mut rg, &cols.keys)?;
    pq_write_text_column(&mut rg, &cols.values)?;
    rg.rg.close()?;
    Ok(())
}

/// Relies on the same parquet calls as [`pq_append_ids`]: appends one row
/// group holding the relation-member columns. Below the row-group bound, on
/// the matching layout, with equal column lengths and with every text cell
/// within [`MAX_CELL_CHARS`], every step returns `Ok`, for the same page and
/// compressor bounds as the tag append.
#[verifier::external_body]
fn pq_append_rel_members(w: &mut TableWriter, cols: &RelMemberColumns) -> (r: Result<
    (),
    ParquetError,
>)
    requires
        cols.wf(),
        cols.fits(),
        spec_columns(writer_kind(*old(w))) == seq![
            ColumnType::Int64,
            ColumnType::Int64,
            ColumnType::Text,
            ColumnType::Text,
        ],
        0 <= writer_groups(*old(w)) < MAX_ROW_GROUPS,
    ensures
        writer_kind(*final(w)) == writer_kind(*old(w)),
        writer_groups(*final(w)) == writer_groups(*old(w)) + 1,
        r is Ok,
{
    let mut rg = RowGroup { rg: w.w.next_row_group()? };
    pq_write_i64_column(&mut rg, &cols.relations)?;
    pq_write_i64_column(&mut rg, &cols.members)?;
    pq_write_text_column(&mut rg, &cols.roles)?;
    pq_write_text_column(&mut rg, &cols.kinds)?;
    rg.rg.close()?;
    Ok(())
}

/// Relies on parquet's `into_inner`: writes the file footer and hands back
/// the finished file bytes. For a writer with a tracked open/append history —
/// which is what a provable group count means — no row group is left open and
/// all output is in memory, so the footer write succeeds.
#[verifier::external_body]
fn pq_finish(w: TableWriter) -> (r: Result<Vec<u8>, ParquetError>)
    requires
        0 <= writer_groups(w),
    ensures
        r is Ok,
{
    w.w.into_inner()
}

/// An open single-column table of 64-bit ids (the polyline and relation
/// tables).
pub struct IdTable {
    kind: TableKind,
    w: TableWriter,
    groups: u32,
    rows: Ghost<Seq<i64>>,
}

impl IdTable {
    /// Which of the eight tables this is.
    pub closed spec fn spec_kind(self) -> TableKind {
        self.kind
    }

    /// The id rows handed to the column-file writer so far, oldest first.
    pub closed spec fn rows(self) -> Seq<i64> {
        self.rows@
    }

    /// How many row groups have been appended.
    pub closed spec fn spec_groups(self) -> int {
        self.groups as int
    }

    /// Well-formed: the writer carries this table's single-INT64 layout and
    /// as many row groups as the table has appended.
    pub closed spec fn wf(self) -> bool {
        &&& writer_kind(self.w) == self.kind
        &&& writer_groups(self.w) == self.groups as int
        &&& spec_columns(self.kind) == seq![ColumnType::Int64]
    }

    /// Opens the table's writer with the registry layout for `kind`.
    pub fn open(kind: TableKind) -> (r: Result<Self, StoreError>)
        requires
            spec_columns(kind) == seq![ColumnType::Int64],
        ensures
            r is Ok,
            r matches Ok(t) ==> t.wf() && t.spec_kind() == kind && t.rows() == Seq::<i64>::empty()
                && t.spec_groups() == 0,
    {
        match pq_open(kind, message_type(kind)) {
            Ok(w) => Ok(IdTable { kind, w, groups: 0, rows: Ghost(Seq::empty()) }),
            Err(_) => unreached(),
        }
    }

    /// Appends one row group holding the given ids, one row each. Succeeds
    /// below the row-group bound; at the bound it reports a write failure and
    /// leaves the table as it was.
    pub fn append(&mut self, ids: &Vec<i64>) -> (r: Result<(), StoreError>)
        requires
            old(self).wf(),
        ensures
            final(self).wf(),
            final(self).spec_kind() == old(self).spec_kind(),
            r is Ok <==> old(self).spec_groups() < MAX_ROW_GROUPS,
            r matches Ok(_) ==> final(self).rows() == old(self).rows() + ids@
                && final(self).spec_groups() == old(self).spec_groups() + 1,
            r matches Err(e) ==> *final(self) == *old(self) && e == StoreError::Write(
                old(self).spec_kind(),
            ),
    {
        if self.groups >= MAX_ROW_GROUPS {
            return Err(StoreError::Write(self.kind));
        }
        match pq_append_ids(&mut self.w, ids) {
            Ok(()) => {
                self.groups = self.groups + 1;
                self.rows = Ghost(self.rows@ + ids@);
                Ok(())
            },
            Err(_) => unreached(),
        }
    }

    /// Finalizes the table and hands back the finished file bytes.
    pub fn close(self) -> (r: Result<Vec<u8>, StoreError>)
        requires
            self.wf(),
        ensures
            r is Ok,
    {
        match pq_finish(self.w) {
            Ok(bytes) => Ok(bytes),
            Err(_) => unreached(),
        }
    }
}

/// An open three-column tag table (the point-tag, polyline-tag or
/// relation-tag table).
pub struct TagTable {
    kind: TableKind,
    w: TableWriter,
    groups: u32,
    rows: Ghost<Seq<TagRow>>,
}

impl TagTable {
    /// Which of the eight tables this is.
    pub closed spec fn spec_kind(self) -> TableKind {
        self.kind
    }

    /// The tag rows handed to the column-file writer so far, oldest first.
    pub closed spec fn rows(self) -> Seq<TagRow> {
        self.rows@
    }

    /// How many row groups have been appended.
    pub closed spec fn spec_groups(self) -> int {
        self.groups as int
    }

    /// Well-formed: the writer carries this table's tag layout and as many
    /// row groups as the table has appended.
    pub closed spec fn wf(self) -> bool {
        &&& writer_kind(self.w) == self.kind
        &&& writer_groups(self.w) == self.groups as int
        &&& spec_columns(self.kind) == seq![ColumnType::Int64, ColumnType::Text, ColumnType::Text]
    }

    /// Opens the table's writer with the registry layout for `kind`.
    pub fn open(kind: TableKind) -> (r: Result<Self, StoreError>)
        requires
            spec_columns(kind) == seq![ColumnType::Int64, ColumnType::Text, ColumnType::Text],
        ensures
            r is Ok,
            r matches Ok(t) ==> t.wf() && t.spec_kind() == kind && t.rows() == Seq::<
                TagRow,
            >::empty() && t.spec_groups() == 0,
    {
        match pq_open(kind, message_type(kind)) {
            Ok(w) => Ok(TagTable { kind, w, groups: 0, rows: Ghost(Seq::empty()) }),
            Err(_) => unreached(),
        }
    }

    /// Appends one row group holding the given tag columns. Succeeds exactly
    /// when the table is below the row-group bound and every text cell fits
    /// one page; otherwise it reports a write failure and leaves the table as
    /// it was.
    pub fn append(&mut self, cols: &TagColumns) -> (r: Result<(), StoreError>)
        requires
            old(self).wf(),
            cols.wf(),
        ensures
            final(self).wf(),
            final(self).spec_kind() == old(self).spec_kind(),
            r is Ok <==> (old(self).spec_groups() < MAX_ROW_GROUPS && cols.fits()),
            r matches Ok(_) ==> final(self).rows() == old(self).rows() + cols.rows()
                && final(self).spec_groups() == old(self).spec_groups() + 1,
            r matches Err(e) ==> *final(self) == *old(self) && e == StoreError::Write(
                old(self).spec_kind(),
            ),
    {
        if !cols.cells_fit() {
            return Err(StoreError::Write(self.kind));
        }
        if self.groups >= MAX_ROW_GROUPS {
            return Err(StoreError::Write(self.kind));
        }
        match pq_append_tags(&mut self.w, cols) {
            Ok(()) => {
                self.groups = self.groups + 1;
                self.rows = Ghost(self.rows@ + cols.rows());
                Ok(())
            },
            Err(_) => unreached(),
        }
    }

    /// Finalizes the table and hands back the finished file bytes.
    pub fn close(self) -> (r: Result<Vec<u8>, StoreError>)
        requires
            self.wf(),
        ensures
            r is Ok,
    {
        match pq_finish(self.w) {
            Ok(bytes) => Ok(bytes),
            Err(_) => unreached(),
        }
    }
}

/// The open polyline-member table: two 64-bit id columns.
pub struct LineMemberTable {
    w: TableWriter,
    groups: u32,
    rows: Ghost<Seq<LineMemberRow>>,
}

impl LineMemberTable {
    /// The member rows handed to the column-file writer so far, oldest first.
    pub closed spec fn rows(self) -> Seq<LineMemberRow> {
        self.rows@
    }

    /// How many row groups have been appended.
    pub closed spec fn spec_groups(self) -> int {
        self.groups as int
    }

    /// Well-formed: the writer carries the polyline-member layout and as
    /// many row groups as the table has appended.
    pub closed spec fn wf(self) -> bool {
        &&& writer_kind(self.w) == TableKind::PolylineMembers
        &&& writer_groups(self.w) == self.groups as int
    }

    /// Opens the table's writer with the registry layout.
    pub fn open() -> (r: Result<Self, StoreError>)
        ensures
            r is Ok,
            r matches Ok(t) ==> t.wf() && t.rows() == Seq::<LineMemberRow>::empty()
                && t.spec_groups() == 0,
    {
        match pq_open(TableKind::PolylineMembers, message_type(TableKind::PolylineMembers)) {
            Ok(w) => Ok(LineMemberTable { w, groups: 0, rows: Ghost(Seq::empty()) }),
            Err(_) => unreached(),
        }
    }

    /// Appends one row group holding the given member columns. Succeeds
    /// below the row-group bound; at the bound it reports a write failure and
    /// leaves the table as it was.
    pub fn append(&mut self, cols: &LineMemberColumns) -> (r: Result<(), StoreError>)
        requires
            old(self).wf(),
            cols.wf(),
        ensures
            final(self).wf(),
            r is Ok <==> old(self).spec_groups() < MAX_ROW_GROUPS,
            r matches Ok(_) ==> final(self).rows() == old(self).rows() + cols.rows()
                && final(self).spec_groups() == old(self).spec_groups() + 1,
            r matches Err(e) ==> *final(self) == *old(self) && e == StoreError::Write(
                TableKind::PolylineMembers,
            ),
    {
        if self.groups >= MAX_ROW_GROUPS {
            return Err(StoreError::Write(TableKind::PolylineMembers));
        }
        match pq_append_line_members(&mut self.w, cols) {
            Ok(()) => {
                self.groups = self.groups + 1;
                self.rows = Ghost(self.rows@ + cols.rows());
                Ok(())
            },
            Err(_) => unreached(),
        }
    }

    /// Finalizes the table and hands back the finished file bytes.
    pub fn close(self) -> (r: Result<Vec<u8>, StoreError>)
        requires
            self.wf(),
        ensures
            r is Ok,
    {
        match pq_finish(self.w) {
            Ok(bytes) => Ok(bytes),
            Err(_) => unreached(),
        }
    }
}

/// The open relation-member table: relation and member id columns, then the
/// role and kind text columns.
pub struct RelMemberTable {
    w: TableWriter,
    groups: u32,
    rows: Ghost<Seq<RelMemberRow>>,
}

impl RelMemberTable {
    /// The member rows handed to the column-file writer so far, oldest first.
    pub closed spec fn rows(self) -> Seq<RelMemberRow> {
        self.rows@
    }

    /// How many row groups have been appended.
    pub closed spec fn spec_groups(self) -> int {
        self.groups as int
    }

    /// Well-formed: the writer carries the relation-member layout and as
    /// many row groups as the table has appended.
    pub closed spec fn wf(self) -> bool {
        &&& writer_kind(self.w) == TableKind::RelationMembers
        &&& writer_groups(self.w) == self.groups as int
    }

    /// Opens the table's writer with the registry layout.
    pub fn open() -> (r: Result<Self, StoreError>)
        ensures
            r is Ok,
            r matches Ok(t) ==> t.wf() && t.rows() == Seq::<RelMemberRow>::empty()
                && t.spec_groups() == 0,
    {
        match pq_open(TableKind::RelationMembers, message_type(TableKind::RelationMembers)) {
            Ok(w) => Ok(RelMemberTable { w, groups: 0, rows: Ghost(Seq::empty()) }),
            Err(_) => unreached(),
        }
    }

    /// Appends one row group holding the given member columns. Succeeds
    /// exactly when the table is below the row-group bound and every text
    /// cell fits one page; otherwise it reports a write failure and leaves
    /// the table as it was.
    pub fn append(&mut self, cols: &RelMemberColumns) -> (r: Result<(), StoreError>)
        requires
            old(self).wf(),
            cols.wf(),
        ensures
            final(self).wf(),
            r is Ok <==> (old(self).spec_groups() < MAX_ROW_GROUPS && cols.fits()),
            r matches Ok(_) ==> final(self).rows() == old(self).rows() + cols.rows()
                && final(self).spec_groups() == old(self).spec_groups() + 1,
            r matches Err(e) ==> *final(self) == *old(self) && e == StoreError::Write(
                TableKind::RelationMembers,
            ),
    {
        if !cols.cells_fit() {
            return Err(StoreError::Write(TableKind::RelationMembers));
        }
        if self.groups >= MAX_ROW_GROUPS {
            return Err(StoreError::Write(TableKind::RelationMembers));
        }
        match pq_append_rel_members(&mut self.w, cols) {
            Ok(()) => {
                self.groups = self.groups + 1;
                self.rows = Ghost(self.rows@ + cols.rows());
                Ok(())
            },
            Err(_) => unreached(),
        }
    }

    /// Finalizes the table and hands back the finished file bytes.
    pub fn close(self) -> (r: Result<Vec<u8>, StoreError>)
        requires
            self.wf(),
        ensures
            r is Ok,
    {
        match pq_finish(self.w) {
            Ok(bytes) => Ok(bytes),
            Err(_) => unreached(),
        }
    }
}

} // verus!
