//! The per-kind lanes: each buffers decoded primitives of one kind and, when
//! the buffer reaches the flush threshold, normalizes it into one row group
//! per table of that kind and appends the row groups to the lane's tables.
//!
//! A lane's view is the split of everything it accepted into the primitives
//! already flushed to its tables and the primitives still buffered. On
//! end-of-input, `finish` flushes the residue — an empty flush appends zero
//! rows and is not an error — and closes every table the lane owns.
//!
//! The storage is in memory, so a lane cannot fail as long as the writers'
//! two format bounds hold: every contract here promises success while the
//! lane has flushed fewer than [`MAX_ROW_GROUPS`] times and every buffered
//! text cell fits one data page (see `MAX_CELL_CHARS`), and pins the lane's
//! state either way.
//!
//! The point lane is the one asymmetry: its point-table row groups carry
//! 64-bit float columns, which the verified library cannot serialize, so each
//! flush hands the normalized point columns back to the caller, whose sink
//! owns the point table; the point-tag table is the lane's own.

use vstd::prelude::*;

use crate::columns::{
    PointColumns, line_member_columns, point_columns, polyline_id_column, rel_member_columns,
    relation_id_column, tag_columns, tag_elems,
};
use crate::model::{Point, PointView, Polyline, PolylineView, Relation, RelationView};
use crate::rows::{
    LineMemberRow, PointRow, RelMemberRow, TagRow, lemma_point_rows_add, lemma_polyline_rows_add,
    lemma_rel_member_rows_fit, lemma_relation_rows_add, lemma_tag_rows_add, lemma_tag_rows_fit,
    line_member_rows, point_cells_fit, point_rows, point_tag_elems, polyline_cells_fit,
    polyline_rows, polyline_tag_elems, rel_member_rows, relation_cells_fit, relation_rows,
    relation_tag_elems, tag_rows, tags_fit,
};
use crate::schema::TableKind;
use crate::store::{
    IdTable, LineMemberTable, MAX_ROW_GROUPS, RelMemberTable, StoreError, TagTable,
};

verus! {

/// What the point lane hands back on `finish`: the final point-table row
/// group and the finished point-tag table.
pub struct PointLaneOutput {
    /// The final point-table row group, holding the residual buffer.
    pub group: PointColumns,
    /// The finished point-tag-table file bytes.
    pub tags: Vec<u8>,
    /// The rows the point-tag table was handed over the whole run.
    pub tag_rows: Ghost<Seq<TagRow>>,
}

/// The point lane.
pub struct PointLane {
    buf: Vec<Point>,
    threshold: usize,
    tags: TagTable,
    done: Ghost<Seq<PointView>>,
}

impl PointLane {
    /// The flush threshold.
    pub closed spec fn spec_threshold(self) -> int {
        self.threshold as int
    }

    /// How many times the lane has flushed.
    pub closed spec fn spec_flushes(self) -> int {
        self.tags.spec_groups()
    }

    /// The primitives already flushed out of the buffer, oldest first.
    pub closed spec fn flushed(self) -> Seq<PointView> {
        self.done@
    }

    /// The primitives still buffered.
    pub closed spec fn buffered(self) -> Seq<PointView> {
        self.buf.deep_view()
    }

    /// Everything the lane has accepted, in arrival order.
    pub open spec fn accepted(self) -> Seq<PointView> {
        self.flushed() + self.buffered()
    }

    /// Well-formed: the threshold is at least one, and the tag table holds
    /// exactly the tag rows of the flushed primitives.
    pub closed spec fn wf(self) -> bool {
        &&& self.threshold >= 1
        &&& self.tags.wf()
        &&& self.tags.spec_kind() == TableKind::PointTags
        &&& self.tags.rows() == tag_rows(point_tag_elems(self.done@))
    }

    /// Opens the lane with an empty buffer and a fresh point-tag table.
    pub fn new(threshold: usize) -> (r: Result<Self, StoreError>)
        requires
            threshold >= 1,
        ensures
            r is Ok,
            r matches Ok(l) ==> l.wf() && l.spec_threshold() == threshold && l.spec_flushes() == 0
                && l.flushed() == Seq::<PointView>::empty() && l.buffered() == Seq::<
                PointView,
            >::empty(),
    {
        let tags = match TagTable::open(TableKind::PointTags) {
            Ok(t) => t,
            Err(_) => unreached(),
        };
        let lane = PointLane { buf: Vec::new(), threshold, tags, done: Ghost(Seq::empty()) };
        proof {
            assert(tag_rows(point_tag_elems(Seq::<PointView>::empty())) =~= Seq::<
                TagRow,
            >::empty());
            assert(lane.buf.deep_view() =~= Seq::<PointView>::empty());
        }
        Ok(lane)
    }

    /// How many primitives are buffered.
    pub fn buffered_len(&self) -> (r: usize)
        ensures
            r == self.buffered().len(),
    {
        self.buf.len()
    }

    /// Normalizes and flushes the whole buffer, whatever its size: appends
    /// one row group to the point-tag table, empties the buffer, and hands
    /// back the point-table row group for the caller's sink. Flushing an
    /// empty buffer appends zero rows to every table, and is not an error:
    /// below the row-group bound, with every buffered text cell fitting one
    /// page, a flush always succeeds.
    pub fn flush(&mut self) -> (r: Result<PointColumns, StoreError>)
        requires
            old(self).wf(),
        ensures
            final(self).spec_threshold() == old(self).spec_threshold(),
            old(self).spec_flushes() < MAX_ROW_GROUPS && point_cells_fit(old(self).buffered())
                ==> r is Ok,
            r matches Ok(cols) ==> {
                &&& final(self).wf()
                &&& cols.wf()
                &&& cols.rows() == point_rows(old(self).buffered())
                &&& final(self).flushed() == old(self).flushed() + old(self).buffered()
                &&& final(self).buffered() == Seq::<PointView>::empty()
                &&& final(self).accepted() == old(self).accepted()
                &&& final(self).spec_flushes() == old(self).spec_flushes() + 1
                &&& old(self).buffered().len() == 0 ==> cols.rows() == Seq::<PointRow>::empty()
                    && final(self).flushed() == old(self).flushed()
            },
            r matches Err(e) ==> {
                &&& final(self).wf()
                &&& final(self).accepted() == old(self).accepted()
                &&& final(self).flushed() == old(self).flushed()
                &&& final(self).buffered() == old(self).buffered()
                &&& final(self).spec_flushes() == old(self).spec_flushes()
                &&& e == StoreError::Write(TableKind::PointTags)
            },
    {
        let cols = point_columns(&self.buf);
        let tcols = tag_columns(&self.buf);
        proof {
            assert(tag_elems(self.buf@) =~= point_tag_elems(self.buf.deep_view()));
        }
        match self.tags.append(&tcols) {
            Ok(()) => {
                proof {
                    lemma_point_rows_add(self.done@, self.buf.deep_view());
                    lemma_tag_rows_add(
                        point_tag_elems(self.done@),
                        point_tag_elems(self.buf.deep_view()),
                    );
                }
                self.done = Ghost(self.done@ + self.buf.deep_view());
                self.buf.clear();
                proof {
                    assert(self.buf.deep_view() =~= Seq::<PointView>::empty());
                    assert(final(self).accepted() =~= old(self).accepted());
                    if old(self).buffered().len() == 0 {
                        assert(cols.rows() =~= Seq::<PointRow>::empty());
                        assert(final(self).flushed() =~= old(self).flushed());
                        assert(final(self).wf()) by {
                            assert(point_tag_elems(self.done@) =~= point_tag_elems(
                                old(self).flushed(),
                            ));
                        }
                    }
                }
                Ok(cols)
            },
            Err(e) => {
                proof {
                    if old(self).spec_flushes() < MAX_ROW_GROUPS && point_cells_fit(
                        old(self).buffered(),
                    ) {
                        assert forall|i: int|
                            0 <= i < point_tag_elems(self.buf.deep_view()).len() implies tags_fit(
                            (#[trigger] point_tag_elems(self.buf.deep_view())[i]).1,
                        ) by {
                            assert(point_tag_elems(self.buf.deep_view())[i].1
                                == self.buf.deep_view()[i].tags);
                        }
                        lemma_tag_rows_fit(point_tag_elems(self.buf.deep_view()));
                        assert(tcols.fits());
                        assert(false);
                    }
                }
                Err(e)
            },
        }
    }

    /// Accepts one decoded batch: appends it to the buffer, preserving order,
    /// and flushes when the buffer has reached the threshold. A flush hands
    /// the point-table row group back for the caller's sink. Below the
    /// threshold no storage call is made; below the row-group bound, with
    /// every text cell fitting one page, the call always succeeds.
    pub fn push_batch(&mut self, batch: Vec<Point>) -> (r: Result<Option<PointColumns>, StoreError>)
        requires
            old(self).wf(),
        ensures
            final(self).spec_threshold() == old(self).spec_threshold(),
            old(self).buffered().len() + batch@.len() < old(self).spec_threshold() ==> r is Ok,
            old(self).spec_flushes() < MAX_ROW_GROUPS && point_cells_fit(
                old(self).buffered() + batch.deep_view(),
            ) ==> r is Ok,
            r matches Ok(out) ==> {
                &&& final(self).wf()
                &&& final(self).accepted() == old(self).accepted() + batch.deep_view()
                &&& final(self).spec_flushes() <= old(self).spec_flushes() + 1
                &&& (out is Some <==> old(self).buffered().len() + batch@.len() >= old(
                    self,
                ).spec_threshold())
                &&& (out matches Some(cols) ==> cols.wf() && cols.rows() == point_rows(
                    old(self).buffered() + batch.deep_view(),
                ) && final(self).buffered() == Seq::<PointView>::empty())
                &&& (out is None ==> final(self).flushed() == old(self).flushed()
                    && final(self).spec_flushes() == old(self).spec_flushes())
            },
            r matches Err(e) ==> {
                &&& final(self).wf()
                &&& final(self).accepted() == old(self).accepted() + batch.deep_view()
                &&& final(self).flushed() == old(self).flushed()
                &&& final(self).spec_flushes() == old(self).spec_flushes()
                &&& e == StoreError::Write(TableKind::PointTags)
            },
    {
        let ghost bv = batch.deep_view();
        let ghost obuf = self.buf.deep_view();
        let mut b = batch;
        self.buf.append(&mut b);
        proof {
            assert(self.buf.deep_view() =~= obuf + bv);
            assert(self.done@ + (obuf + bv) =~= (self.done@ + obuf) + bv);
        }
        if self.buf.len() >= self.threshold {
            match self.flush() {
                Ok(cols) => Ok(Some(cols)),
                Err(e) => Err(e),
            }
        } else {
            Ok(None)
        }
    }

    /// Ends the lane's input: flushes the residual buffer (even when empty)
    /// and closes the lane's tag table. Below the row-group bound, with every
    /// buffered text cell fitting one page, this always succeeds.
    pub fn finish(self) -> (r: Result<PointLaneOutput, StoreError>)
        requires
            self.wf(),
        ensures
            self.spec_flushes() < MAX_ROW_GROUPS && point_cells_fit(self.buffered()) ==> r is Ok,
            r matches Ok(out) ==> {
                &&& out.group.wf()
                &&& out.group.rows() == point_rows(self.buffered())
                &&& out.tag_rows@ == tag_rows(point_tag_elems(self.accepted()))
            },
            r matches Err(e) ==> e == StoreError::Write(TableKind::PointTags),
    {
        let mut lane = self;
        let group = match lane.flush() {
            Ok(cols) => cols,
            Err(e) => return Err(e),
        };
        let ghost rows = lane.tags.rows();
        let tags = match lane.tags.close() {
            Ok(bytes) => bytes,
            Err(_) => unreached(),
        };
        Ok(PointLaneOutput { group, tags, tag_rows: Ghost(rows) })
    }
}

/// What the polyline lane hands back on `finish`: its three finished tables.
pub struct PolylineLaneOutput {
    /// The finished polyline-table file bytes.
    pub lines: Vec<u8>,
    /// The finished polyline-tag-table file bytes.
    pub tags: Vec<u8>,
    /// The finished polyline-member-table file bytes.
    pub members: Vec<u8>,
    /// The rows the polyline table was handed over the whole run.
    pub line_rows: Ghost<Seq<i64>>,
    /// The rows the polyline-tag table was handed over the whole run.
    pub tag_rows: Ghost<Seq<TagRow>>,
    /// The rows the polyline-member table was handed over the whole run.
    pub member_rows: Ghost<Seq<LineMemberRow>>,
}

/// The polyline lane.
pub struct PolylineLane {
    buf: Vec<Polyline>,
    threshold: usize,
    lines: IdTable,
    tags: TagTable,
    members: LineMemberTable,
    done: Ghost<Seq<PolylineView>>,
}

impl PolylineLane {
    /// The flush threshold.
    pub closed spec fn spec_threshold(self) -> int {
        self.threshold as int
    }

    /// How many times the lane has flushed.
    pub closed spec fn spec_flushes(self) -> int {
        self.lines.spec_groups()
    }

    /// The primitives already flushed out of the buffer, oldest first.
    pub closed spec fn flushed(self) -> Seq<PolylineView> {
        self.done@
    }

    /// The primitives still buffered.
    pub closed spec fn buffered(self) -> Seq<PolylineView> {
        self.buf.deep_view()
    }

    /// Everything the lane has accepted, in arrival order.
    pub open spec fn accepted(self) -> Seq<PolylineView> {
        self.flushed() + self.buffered()
    }

    /// Well-formed: the threshold is at least one, the three tables have
    /// flushed in step, and each holds exactly its rows of the flushed
    /// primitives.
    pub closed spec fn wf(self) -> bool {
        &&& self.threshold >= 1
        &&& self.lines.wf()
        &&& self.tags.wf()
        &&& self.members.wf()
        &&& self.lines.spec_kind() == TableKind::Polylines
        &&& self.tags.spec_kind() == TableKind::PolylineTags
        &&& self.tags.spec_groups() == self.lines.spec_groups()
        &&& self.members.spec_groups() == self.lines.spec_groups()
        &&& self.lines.rows() == polyline_rows(self.done@)
        &&& self.tags.rows() == tag_rows(polyline_tag_elems(self.done@))
        &&& self.members.rows() == line_member_rows(self.done@)
    }

    /// Opens the lane with an empty buffer and its three fresh tables.
    pub fn new(threshold: usize) -> (r: Result<Self, StoreError>)
        requires
            threshold >= 1,
        ensures
            r is Ok,
            r matches Ok(l) ==> l.wf() && l.spec_threshold() == threshold && l.spec_flushes() == 0
                && l.flushed() == Seq::<PolylineView>::empty() && l.buffered() == Seq::<
                PolylineView,
            >::empty(),
    {
        let lines = match IdTable::open(TableKind::Polylines) {
            Ok(t) => t,
            Err(_) => unreached(),
        };
        let tags = match TagTable::open(TableKind::PolylineTags) {
            Ok(t) => t,
            Err(_) => unreached(),
        };
        let members = match LineMemberTable::open() {
            Ok(t) => t,
            Err(_) => unreached(),
        };
        let lane = PolylineLane {
            buf: Vec::new(),
            threshold,
            lines,
            tags,
            members,
            done: Ghost(Seq::empty()),
        };
        proof {
            assert(polyline_rows(Seq::<PolylineView>::empty()) =~= Seq::<i64>::empty());
            assert(tag_rows(polyline_tag_elems(Seq::<PolylineView>::empty())) =~= Seq::<
                TagRow,
            >::empty());
            assert(line_member_rows(Seq::<PolylineView>::empty()) =~= Seq::<
                LineMemberRow,
            >::empty());
            assert(lane.buf.deep_view() =~= Seq::<PolylineView>::empty());
        }
        Ok(lane)
    }

    /// How many primitives are buffered.
    pub fn buffered_len(&self) -> (r: usize)
        ensures
            r == self.buffered().len(),
    {
        self.buf.len()
    }

    /// Normalizes and flushes the whole buffer, whatever its size: appends
    /// one row group to each of the lane's three tables and empties the
    /// buffer. Flushing an empty buffer appends zero rows to every table, and
    /// is not an error: below the row-group bound, with every buffered text
    /// cell fitting one page, a flush always succeeds.
    pub fn flush(&mut self) -> (r: Result<(), StoreError>)
        requires
            old(self).wf(),
        ensures
            final(self).spec_threshold() == old(self).spec_threshold(),
            old(self).spec_flushes() < MAX_ROW_GROUPS && polyline_cells_fit(old(self).buffered())
                ==> r is Ok,
            r matches Ok(_) ==> {
                &&& final(self).wf()
                &&& final(self).flushed() == old(self).flushed() + old(self).buffered()
                &&& final(self).buffered() == Seq::<PolylineView>::empty()
                &&& final(self).accepted() == old(self).accepted()
                &&& final(self).spec_flushes() == old(self).spec_flushes() + 1
                &&& old(self).buffered().len() == 0 ==> final(self).flushed() == old(
                    self,
                ).flushed()
            },
            r matches Err(e) ==> {
                &&& final(self).wf()
                &&& final(self).flushed() == old(self).flushed()
                &&& final(self).buffered() == old(self).buffered()
                &&& final(self).accepted() == old(self).accepted()
                &&& final(self).spec_flushes() == old(self).spec_flushes()
                &&& (e == StoreError::Write(TableKind::Polylines) || e == StoreError::Write(
                    TableKind::PolylineTags,
                ))
            },
    {
        let ids = polyline_id_column(&self.buf);
        let tcols = tag_columns(&self.buf);
        let mcols = line_member_columns(&self.buf);
        proof {
            assert(tag_elems(self.buf@) =~= polyline_tag_elems(self.buf.deep_view()));
        }
        if !tcols.cells_fit() {
            proof {
                if polyline_cells_fit(old(self).buffered()) {
                    assert forall|i: int|
                        0 <= i < polyline_tag_elems(self.buf.deep_view()).len() implies tags_fit(
                        (#[trigger] polyline_tag_elems(self.buf.deep_view())[i]).1,
                    ) by {
                        assert(polyline_tag_elems(self.buf.deep_view())[i].1 == self.buf.deep_view(
                        )[i].tags);
                    }
                    lemma_tag_rows_fit(polyline_tag_elems(self.buf.deep_view()));
                    assert(false);
                }
            }
            return Err(StoreError::Write(TableKind::PolylineTags));
        }
        match self.lines.append(&ids) {
            Ok(()) => (),
            Err(e) => {
                return Err(e);
            },
        }
        match self.tags.append(&tcols) {
            Ok(()) => (),
            Err(_) => {
                return unreached();
            },
        }
        match self.members.append(&mcols) {
            Ok(()) => (),
            Err(_) => {
                return unreached();
            },
        }
        proof {
            lemma_polyline_rows_add(self.done@, self.buf.deep_view());
            lemma_tag_rows_add(
                polyline_tag_elems(self.done@),
                polyline_tag_elems(self.buf.deep_view()),
            );
        }
        self.done = Ghost(self.done@ + self.buf.deep_view());
        self.buf.clear();
        proof {
            assert(self.buf.deep_view() =~= Seq::<PolylineView>::empty());
            assert(final(self).accepted() =~= old(self).accepted());
            if old(self).buffered().len() == 0 {
                assert(final(self).flushed() =~= old(self).flushed());
                assert(final(self).wf()) by {
                    assert(self.done@ =~= old(self).flushed());
                }
            }
        }
        Ok(())
    }

    /// Accepts one decoded batch: appends it to the buffer, preserving order,
    /// and flushes when the buffer has reached the threshold. Below the
    /// threshold no storage call is made; below the row-group bound the call
    /// always succeeds.
    pub fn push_batch(&mut self, batch: Vec<Polyline>) -> (r: Result<(), StoreError>)
        requires
            old(self).wf(),
        ensures
            final(self).spec_threshold() == old(self).spec_threshold(),
            old(self).buffered().len() + batch@.len() < old(self).spec_threshold() ==> r is Ok,
            old(self).spec_flushes() < MAX_ROW_GROUPS && polyline_cells_fit(
                old(self).buffered() + batch.deep_view(),
            ) ==> r is Ok,
            r matches Ok(_) ==> {
                &&& final(self).wf()
                &&& final(self).accepted() == old(self).accepted() + batch.deep_view()
                &&& final(self).spec_flushes() <= old(self).spec_flushes() + 1
                &&& (old(self).buffered().len() + batch@.len() >= old(self).spec_threshold()
                    ==> final(self).buffered() == Seq::<PolylineView>::empty())
                &&& (old(self).buffered().len() + batch@.len() < old(self).spec_threshold()
                    ==> final(self).flushed() == old(self).flushed() && final(self).spec_flushes()
                    == old(self).spec_flushes())
            },
            r matches Err(e) ==> {
                &&& final(self).wf()
                &&& final(self).accepted() == old(self).accepted() + batch.deep_view()
                &&& final(self).flushed() == old(self).flushed()
                &&& final(self).spec_flushes() == old(self).spec_flushes()
                &&& (e == StoreError::Write(TableKind::Polylines) || e == StoreError::Write(
                    TableKind::PolylineTags,
                ))
            },
    {
        let ghost bv = batch.deep_view();
        let ghost obuf = self.buf.deep_view();
        let mut b = batch;
        self.buf.append(&mut b);
        proof {
            assert(self.buf.deep_view() =~= obuf + bv);
            assert(self.done@ + (obuf + bv) =~= (self.done@ + obuf) + bv);
        }
        if self.buf.len() >= self.threshold {
            self.flush()
        } else {
            Ok(())
        }
    }

    /// Ends the lane's input: flushes the residual buffer (even when empty)
    /// and closes the lane's three tables. Below the row-group bound, with
    /// every buffered text cell fitting one page, this always succeeds.
    pub fn finish(self) -> (r: Result<PolylineLaneOutput, StoreError>)
        requires
            self.wf(),
        ensures
            self.spec_flushes() < MAX_ROW_GROUPS && polyline_cells_fit(self.buffered())
                ==> r is Ok,
            r matches Ok(out) ==> {
                &&& out.line_rows@ == polyline_rows(self.accepted())
                &&& out.tag_rows@ == tag_rows(polyline_tag_elems(self.accepted()))
                &&& out.member_rows@ == line_member_rows(self.accepted())
            },
            r matches Err(e) ==> e == StoreError::Write(TableKind::Polylines) || e
                == StoreError::Write(TableKind::PolylineTags),
    {
        let mut lane = self;
        match lane.flush() {
            Ok(()) => (),
            Err(e) => {
                return Err(e);
            },
        }
        let ghost lr = lane.lines.rows();
        let ghost tr = lane.tags.rows();
        let ghost mr = lane.members.rows();
        let lines = match lane.lines.close() {
            Ok(bytes) => bytes,
            Err(_) => unreached(),
        };
        let tags = match lane.tags.close() {
            Ok(bytes) => bytes,
            Err(_) => unreached(),
        };
        let members = match lane.members.close() {
            Ok(bytes) => bytes,
            Err(_) => unreached(),
        };
        Ok(
            PolylineLaneOutput {
                lines,
                tags,
                members,
                line_rows: Ghost(lr),
                tag_rows: Ghost(tr),
                member_rows: Ghost(mr),
            },
        )
    }
}

/// What the relation lane hands back on `finish`: its three finished tables.
pub struct RelationLaneOutput {
    /// The finished relation-table file bytes.
    pub relations: Vec<u8>,
    /// The finished relation-tag-table file bytes.
    pub tags: Vec<u8>,
    /// The finished relation-member-table file bytes.
    pub members: Vec<u8>,
    /// The rows the relation table was handed over the whole run.
    pub relation_rows: Ghost<Seq<i64>>,
    /// The rows the relation-tag table was handed over the whole run.
    pub tag_rows: Ghost<Seq<TagRow>>,
    /// The rows the relation-member table was handed over the whole run.
    pub member_rows: Ghost<Seq<RelMemberRow>>,
}

/// The relation lane.
pub struct RelationLane {
    buf: Vec<Relation>,
    threshold: usize,
    relations: IdTable,
    tags: TagTable,
    members: RelMemberTable,
    done: Ghost<Seq<RelationView>>,
}

impl RelationLane {
    /// The flush threshold.
    pub closed spec fn spec_threshold(self) -> int {
        self.threshold as int
    }

    /// How many times the lane has flushed.
    pub closed spec fn spec_flushes(self) -> int {
        self.relations.spec_groups()
    }

    /// The primitives already flushed out of the buffer, oldest first.
    pub closed spec fn flushed(self) -> Seq<RelationView> {
        self.done@
    }

    /// The primitives still buffered.
    pub closed spec fn buffered(self) -> Seq<RelationView> {
        self.buf.deep_view()
    }

    /// Everything the lane has accepted, in arrival order.
    pub open spec fn accepted(self) -> Seq<RelationView> {
        self.flushed() + self.buffered()
    }

    /// Well-formed: the threshold is at least one, the three tables have
    /// flushed in step, and each holds exactly its rows of the flushed
    /// primitives.
    pub closed spec fn wf(self) -> bool {
        &&& self.threshold >= 1
        &&& self.relations.wf()
        &&& self.tags.wf()
        &&& self.members.wf()
        &&& self.relations.spec_kind() == TableKind::Relations
        &&& self.tags.spec_kind() == TableKind::RelationTags
        &&& self.tags.spec_groups() == self.relations.spec_groups()
        &&& self.members.spec_groups() == self.relations.spec_groups()
        &&& self.relations.rows() == relation_rows(self.done@)
        &&& self.tags.rows() == tag_rows(relation_tag_elems(self.done@))
        &&& self.members.rows() == rel_member_rows(self.done@)
    }

    /// Opens the lane with an empty buffer and its three fresh tables.
    pub fn new(threshold: usize) -> (r: Result<Self, StoreError>)
        requires
            threshold >= 1,
        ensures
            r is Ok,
            r matches Ok(l) ==> l.wf() && l.spec_threshold() == threshold && l.spec_flushes() == 0
                && l.flushed() == Seq::<RelationView>::empty() && l.buffered() == Seq::<
                RelationView,
            >::empty(),
    {
        let relations = match IdTable::open(TableKind::Relations) {
            Ok(t) => t,
            Err(_) => unreached(),
        };
        let tags = match TagTable::open(TableKind::RelationTags) {
            Ok(t) => t,
            Err(_) => unreached(),
        };
        let members = match RelMemberTable::open() {
            Ok(t) => t,
            Err(_) => unreached(),
        };
        let lane = RelationLane {
            buf: Vec::new(),
            threshold,
            relations,
            tags,
            members,
            done: Ghost(Seq::empty()),
        };
        proof {
            assert(relation_rows(Seq::<RelationView>::empty()) =~= Seq::<i64>::empty());
            assert(tag_rows(relation_tag_elems(Seq::<RelationView>::empty())) =~= Seq::<
                TagRow,
            >::empty());
            assert(rel_member_rows(Seq::<RelationView>::empty()) =~= Seq::<
                RelMemberRow,
            >::empty());
            assert(lane.buf.deep_view() =~= Seq::<RelationView>::empty());
        }
        Ok(lane)
    }

    /// How many primitives are buffered.
    pub fn buffered_len(&self) -> (r: usize)
        ensures
            r == self.buffered().len(),
    {
        self.buf.len()
    }

    /// Normalizes and flushes the whole buffer, whatever its size: appends
    /// one row group to each of the lane's three tables and empties the
    /// buffer. Flushing an empty buffer appends zero rows to every table, and
    /// is not an error: below the row-group bound, with every buffered text
    /// cell fitting one page, a flush always succeeds.
    pub fn flush(&mut self) -> (r: Result<(), StoreError>)
        requires
            old(self).wf(),
        ensures
            final(self).spec_threshold() == old(self).spec_threshold(),
            old(self).spec_flushes() < MAX_ROW_GROUPS && relation_cells_fit(old(self).buffered())
                ==> r is Ok,
            r matches Ok(_) ==> {
                &&& final(self).wf()
                &&& final(self).flushed() == old(self).flushed() + old(self).buffered()
                &&& final(self).buffered() == Seq::<RelationView>::empty()
                &&& final(self).accepted() == old(self).accepted()
                &&& final(self).spec_flushes() == old(self).spec_flushes() + 1
                &&& old(self).buffered().len() == 0 ==> final(self).flushed() == old(
                    self,
                ).flushed()
            },
            r matches Err(e) ==> {
                &&& final(self).wf()
                &&& final(self).flushed() == old(self).flushed()
                &&& final(self).buffered() == old(self).buffered()
                &&& final(self).accepted() == old(self).accepted()
                &&& final(self).spec_flushes() == old(self).spec_flushes()
                &&& (e == StoreError::Write(TableKind::Relations) || e == StoreError::Write(
                    TableKind::RelationTags,
                ) || e == StoreError::Write(TableKind::RelationMembers))
            },
    {
        let ids = relation_id_column(&self.buf);
        let tcols = tag_columns(&self.buf);
        let mcols = rel_member_columns(&self.buf);
        proof {
            assert(tag_elems(self.buf@) =~= relation_tag_elems(self.buf.deep_view()));
        }
        if !tcols.cells_fit() {
            proof {
                if relation_cells_fit(old(self).buffered()) {
                    assert forall|i: int|
                        0 <= i < relation_tag_elems(self.buf.deep_view()).len() implies tags_fit(
                        (#[trigger] relation_tag_elems(self.buf.deep_view())[i]).1,
                    ) by {
                        assert(relation_tag_elems(self.buf.deep_view())[i].1 == self.buf.deep_view(
                        )[i].tags);
                    }
                    lemma_tag_rows_fit(relation_tag_elems(self.buf.deep_view()));
                    assert(false);
                }
            }
            return Err(StoreError::Write(TableKind::RelationTags));
        }
        if !mcols.cells_fit() {
            proof {
                if relation_cells_fit(old(self).buffered()) {
                    lemma_rel_member_rows_fit(self.buf.deep_view());
                    assert(false);
                }
            }
            return Err(StoreError::Write(TableKind::RelationMembers));
        }
        match self.relations.append(&ids) {
            Ok(()) => (),
            Err(e) => {
                return Err(e);
            },
        }
        match self.tags.append(&tcols) {
            Ok(()) => (),
            Err(_) => {
                return unreached();
            },
        }
        match self.members.append(&mcols) {
            Ok(()) => (),
            Err(_) => {
                return unreached();
            },
        }
        proof {
            lemma_relation_rows_add(self.done@, self.buf.deep_view());
            lemma_tag_rows_add(
                relation_tag_elems(self.done@),
                relation_tag_elems(self.buf.deep_view()),
            );
        }
        self.done = Ghost(self.done@ + self.buf.deep_view());
        self.buf.clear();
        proof {
            assert(self.buf.deep_view() =~= Seq::<RelationView>::empty());
            assert(final(self).accepted() =~= old(self).accepted());
            if old(self).buffered().len() == 0 {
                assert(final(self).flushed() =~= old(self).flushed());
                assert(final(self).wf()) by {
                    assert(self.done@ =~= old(self).flushed());
                }
            }
        }
        Ok(())
    }

    /// Accepts one decoded batch: appends it to the buffer, preserving order,
    /// and flushes when the buffer has reached the threshold. Below the
    /// threshold no storage call is made; below the row-group bound the call
    /// always succeeds.
    pub fn push_batch(&mut self, batch: Vec<Relation>) -> (r: Result<(), StoreError>)
        requires
            old(self).wf(),
        ensures
            final(self).spec_threshold() == old(self).spec_threshold(),
            old(self).buffered().len() + batch@.len() < old(self).spec_threshold() ==> r is Ok,
            old(self).spec_flushes() < MAX_ROW_GROUPS && relation_cells_fit(
                old(self).buffered() + batch.deep_view(),
            ) ==> r is Ok,
            r matches Ok(_) ==> {
                &&& final(self).wf()
                &&& final(self).accepted() == old(self).accepted() + batch.deep_view()
                &&& final(self).spec_flushes() <= old(self).spec_flushes() + 1
                &&& (old(self).buffered().len() + batch@.len() >= old(self).spec_threshold()
                    ==> final(self).buffered() == Seq::<RelationView>::empty())
                &&& (old(self).buffered().len() + batch@.len() < old(self).spec_threshold()
                    ==> final(self).flushed() == old(self).flushed() && final(self).spec_flushes()
                    == old(self).spec_flushes())
            },
            r matches Err(e) ==> {
                &&& final(self).wf()
                &&& final(self).accepted() == old(self).accepted() + batch.deep_view()
                &&& final(self).flushed() == old(self).flushed()
                &&& final(self).spec_flushes() == old(self).spec_flushes()
                &&& (e == StoreError::Write(TableKind::Relations) || e == StoreError::Write(
                    TableKind::RelationTags,
                ) || e == StoreError::Write(TableKind::RelationMembers))
            },
    {
        let ghost bv = batch.deep_view();
        let ghost obuf = self.buf.deep_view();
        let mut b = batch;
        self.buf.append(&mut b);
        proof {
            assert(self.buf.deep_view() =~= obuf + bv);
            assert(self.done@ + (obuf + bv) =~= (self.done@ + obuf) + bv);
        }
        if self.buf.len() >= self.threshold {
            self.flush()
        } else {
            Ok(())
        }
    }

    /// Ends the lane's input: flushes the residual buffer (even when empty)
    /// and closes the lane's three tables. Below the row-group bound, with
    /// every buffered text cell fitting one page, this always succeeds.
    pub fn finish(self) -> (r: Result<RelationLaneOutput, StoreError>)
        requires
            self.wf(),
        ensures
            self.spec_flushes() < MAX_ROW_GROUPS && relation_cells_fit(self.buffered())
                ==> r is Ok,
            r matches Ok(out) ==> {
                &&& out.relation_rows@ == relation_rows(self.accepted())
                &&& out.tag_rows@ == tag_rows(relation_tag_elems(self.accepted()))
                &&& out.member_rows@ == rel_member_rows(self.accepted())
            },
            r matches Err(e) ==> e == StoreError::Write(TableKind::Relations) || e
                == StoreError::Write(TableKind::RelationTags) || e == StoreError::Write(
                TableKind::RelationMembers,
            ),
    {
        let mut lane = self;
        match lane.flush() {
            Ok(()) => (),
            Err(e) => {
                return Err(e);
            },
        }
        let ghost rr = lane.relations.rows();
        let ghost tr = lane.tags.rows();
        let ghost mr = lane.members.rows();
        let relations = match lane.relations.close() {
            Ok(bytes) => bytes,
            Err(_) => unreached(),
        };
        let tags = match lane.tags.close() {
            Ok(bytes) => bytes,
            Err(_) => unreached(),
        };
        let members = match lane.members.close() {
            Ok(bytes) => bytes,
            Err(_) => unreached(),
        };
        Ok(
            RelationLaneOutput {
                relations,
                tags,
                members,
                relation_rows: Ghost(rr),
                tag_rows: Ghost(tr),
                member_rows: Ghost(mr),
            },
        )
    }
}

} // verus!
