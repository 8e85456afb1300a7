//! The dispatcher and the whole-run composition: consume the decoded batches
//! in source order, route each to the lane of its kind, then drain every
//! lane — one final flush of any residue, even an empty one — and close every
//! table.
//!
//! The contract of [`run`] pins each table's rows as a function of the
//! decoded batches alone. The flush threshold never appears in that function:
//! flushing early or late moves row-group boundaries only, which is the
//! threshold-independence law stated in [`lemma_threshold_independence`].

use vstd::prelude::*;

use crate::columns::PointColumns;
use crate::lane::{PointLane, PolylineLane, RelationLane};
use crate::model::{Batch, BatchView, PointView, PolylineView, RelationView};
use crate::rows::{
    LineMemberRow, PointRow, RelMemberRow, TagRow, lemma_flat_map_add,
    lemma_line_member_row_count, lemma_point_rows_add, lemma_rel_member_row_count,
    lemma_tag_row_count, line_member_rows, point_cells_fit, point_rows, point_tag_elems,
    polyline_cells_fit, polyline_rows, polyline_tag_elems, rel_member_rows, relation_cells_fit,
    relation_rows, relation_tag_elems, roles_fit, tag_rows, tags_fit, total_line_members,
    total_rel_members, total_tags,
};
use crate::store::{MAX_ROW_GROUPS, StoreError};

verus! {

/// The points carried by a run of batches, in decode order.
pub open spec fn points_of(bs: Seq<BatchView>) -> Seq<PointView> {
    bs.flat_map(
        |b: BatchView|
            match b {
                BatchView::Points(ps) => ps,
                _ => Seq::<PointView>::empty(),
            },
    )
}

/// The polylines carried by a run of batches, in decode order.
pub open spec fn polylines_of(bs: Seq<BatchView>) -> Seq<PolylineView> {
    bs.flat_map(
        |b: BatchView|
            match b {
                BatchView::Polylines(ls) => ls,
                _ => Seq::<PolylineView>::empty(),
            },
    )
}

/// The relations carried by a run of batches, in decode order.
pub open spec fn relations_of(bs: Seq<BatchView>) -> Seq<RelationView> {
    bs.flat_map(
        |b: BatchView|
            match b {
                BatchView::Relations(rs) => rs,
                _ => Seq::<RelationView>::empty(),
            },
    )
}

/// The rows of the eight tables that a successful run yields: a function of
/// the decoded batches alone.
pub struct RunRows {
    /// The point-table rows.
    pub points: Seq<PointRow>,
    /// The point-tag-table rows.
    pub point_tags: Seq<TagRow>,
    /// The polyline-table rows.
    pub polylines: Seq<i64>,
    /// The polyline-tag-table rows.
    pub polyline_tags: Seq<TagRow>,
    /// The polyline-member-table rows.
    pub polyline_members: Seq<LineMemberRow>,
    /// The relation-table rows.
    pub relations: Seq<i64>,
    /// The relation-tag-table rows.
    pub relation_tags: Seq<TagRow>,
    /// The relation-member-table rows.
    pub relation_members: Seq<RelMemberRow>,
}

/// The rows every successful run over `bs` hands its tables, whatever its
/// flush threshold.
pub open spec fn run_rows(bs: Seq<BatchView>) -> RunRows {
    RunRows {
        points: point_rows(points_of(bs)),
        point_tags: tag_rows(point_tag_elems(points_of(bs))),
        polylines: polyline_rows(polylines_of(bs)),
        polyline_tags: tag_rows(polyline_tag_elems(polylines_of(bs))),
        polyline_members: line_member_rows(polylines_of(bs)),
        relations: relation_rows(relations_of(bs)),
        relation_tags: tag_rows(relation_tag_elems(relations_of(bs))),
        relation_members: rel_member_rows(relations_of(bs)),
    }
}

/// Every text cell carried by a run of batches fits one data page: all tags
/// of all three kinds, and all relation-member roles.
pub open spec fn batches_cells_fit(bs: Seq<BatchView>) -> bool {
    &&& point_cells_fit(points_of(bs))
    &&& polyline_cells_fit(polylines_of(bs))
    &&& relation_cells_fit(relations_of(bs))
}

/// The rows held by a run of point-table row groups, concatenated in flush
/// order.
pub open spec fn group_rows(gs: Seq<PointColumns>) -> Seq<PointRow> {
    gs.flat_map(|g: PointColumns| g.rows())
}

/// Everything a successful run produces: seven finished table files, the
/// point-table row groups for the caller's sink, and the rows each table was
/// handed.
pub struct RunOutput {
    /// The point-table row groups, in flush order; the sink appends them in
    /// this order and closes the point table.
    pub point_groups: Vec<PointColumns>,
    /// The finished point-tag-table file bytes.
    pub point_tags: Vec<u8>,
    /// The finished polyline-table file bytes.
    pub polylines: Vec<u8>,
    /// The finished polyline-tag-table file bytes.
    pub polyline_tags: Vec<u8>,
    /// The finished polyline-member-table file bytes.
    pub polyline_members: Vec<u8>,
    /// The finished relation-table file bytes.
    pub relations: Vec<u8>,
    /// The finished relation-tag-table file bytes.
    pub relation_tags: Vec<u8>,
    /// The finished relation-member-table file bytes.
    pub relation_members: Vec<u8>,
    /// The rows each table was handed over the run.
    pub rows: Ghost<RunRows>,
}

/// Runs the whole pipeline over the decoded batches, single-threaded: routes
/// each batch to the lane of its kind in source order, flushes each lane at
/// its threshold and once more at end-of-input, and closes every table. The
/// storage is in memory and each lane flushes at most once per batch, so a
/// run over fewer batches than the writers' row-group bound, whose every text
/// cell fits one data page, always succeeds; a storage failure beyond those
/// bounds aborts the run.
pub fn run(batches: Vec<Batch>, threshold: usize) -> (r: Result<RunOutput, StoreError>)
    requires
        threshold >= 1,
    ensures
        batches@.len() < MAX_ROW_GROUPS && batches_cells_fit(batches.deep_view()) ==> r is Ok,
        r matches Ok(out) ==> {
            &&& out.rows@ == run_rows(batches.deep_view())
            &&& group_rows(out.point_groups@) == out.rows@.points
            &&& forall|i: int|
                0 <= i < out.point_groups@.len() ==> (#[trigger] out.point_groups@[i]).wf()
        },
{
    let ghost all = batches.deep_view();
    proof {
        assert(all.len() == batches@.len());
    }
    let mut point_lane = match PointLane::new(threshold) {
        Ok(l) => l,
        Err(_) => unreached(),
    };
    let mut polyline_lane = match PolylineLane::new(threshold) {
        Ok(l) => l,
        Err(_) => unreached(),
    };
    let mut relation_lane = match RelationLane::new(threshold) {
        Ok(l) => l,
        Err(_) => unreached(),
    };
    let mut groups: Vec<PointColumns> = Vec::new();
    let mut bs = batches;
    let ghost k: int = 0;
    proof {
        assert(bs.deep_view() =~= all.skip(0));
        assert(points_of(all.take(0)) =~= Seq::<PointView>::empty());
        assert(polylines_of(all.take(0)) =~= Seq::<PolylineView>::empty());
        assert(relations_of(all.take(0)) =~= Seq::<RelationView>::empty());
        assert(point_lane.accepted() =~= points_of(all.take(0)));
        assert(polyline_lane.accepted() =~= polylines_of(all.take(0)));
        assert(relation_lane.accepted() =~= relations_of(all.take(0)));
        assert(group_rows(groups@) =~= point_rows(point_lane.flushed()));
    }
    while bs.len() > 0
        invariant
            all == batches.deep_view(),
            all.len() == batches@.len(),
            0 <= k <= all.len(),
            bs.deep_view() == all.skip(k),
            point_lane.wf(),
            polyline_lane.wf(),
            relation_lane.wf(),
            point_lane.accepted() == points_of(all.take(k)),
            polyline_lane.accepted() == polylines_of(all.take(k)),
            relation_lane.accepted() == relations_of(all.take(k)),
            point_lane.spec_flushes() <= k,
            polyline_lane.spec_flushes() <= k,
            relation_lane.spec_flushes() <= k,
            group_rows(groups@) == point_rows(point_lane.flushed()),
            forall|i: int| 0 <= i < groups@.len() ==> (#[trigger] groups@[i]).wf(),
        decreases bs@.len(),
    {
        let ghost obs = bs.deep_view();
        let ghost ovec = bs@;
        let b = bs.remove(0);
        proof {
            assert(ovec.len() > 0);
            assert(obs.len() == ovec.len());
            assert(obs == all.skip(k));
            assert(all.skip(k).len() == all.len() - k);
            assert(k < all.len());
            assert(obs[0] == ovec[0].deep_view());
            assert(all.skip(k)[0] == all[k]);
            assert(b@ == all[k]);
            ovec.remove_ensures(0);
            assert forall|i: int| 0 <= i < bs.deep_view().len() implies bs.deep_view()[i]
                == all.skip(k + 1)[i] by {
                assert(bs@[i] == ovec.remove(0)[i]);
                assert(bs@[i] == ovec[i + 1]);
                assert(bs.deep_view()[i] == bs@[i].deep_view());
                assert(obs[i + 1] == ovec[i + 1].deep_view());
                assert(obs[i + 1] == all.skip(k)[i + 1]);
                assert(all.skip(k)[i + 1] == all[k + 1 + i]);
                assert(all.skip(k + 1)[i] == all[k + 1 + i]);
            }
            assert(bs.deep_view() =~= all.skip(k + 1));
            assert(all.take(k + 1) =~= all.take(k).push(all[k]));
            all.take(k).lemma_flat_map_push(
                |b2: BatchView|
                    match b2 {
                        BatchView::Points(ps) => ps,
                        _ => Seq::<PointView>::empty(),
                    },
                all[k],
            );
            all.take(k).lemma_flat_map_push(
                |b2: BatchView|
                    match b2 {
                        BatchView::Polylines(ls) => ls,
                        _ => Seq::<PolylineView>::empty(),
                    },
                all[k],
            );
            all.take(k).lemma_flat_map_push(
                |b2: BatchView|
                    match b2 {
                        BatchView::Relations(rs) => rs,
                        _ => Seq::<RelationView>::empty(),
                    },
                all[k],
            );
        }
        match b {
            Batch::Points(ps) => {
                proof {
                    assert(all[k] == BatchView::Points(ps.deep_view()));
                    assert(points_of(all.take(k + 1)) =~= points_of(all.take(k))
                        + ps.deep_view());
                    assert(polylines_of(all.take(k + 1)) =~= polylines_of(all.take(k)));
                    assert(relations_of(all.take(k + 1)) =~= relations_of(all.take(k)));
                }
                let ghost pv = ps.deep_view();
                let ghost oflushed = point_lane.flushed();
                let ghost obuf = point_lane.buffered();
                match point_lane.push_batch(ps) {
                    Ok(Some(cols)) => {
                        proof {
                            groups@.lemma_flat_map_push(|g: PointColumns| g.rows(), cols);
                            lemma_point_rows_add(oflushed, obuf + pv);
                        }
                        let ghost ogroups = groups@;
                        groups.push(cols);
                        proof {
                            assert(groups@ =~= ogroups.push(cols));
                            assert(point_lane.flushed() =~= oflushed + (obuf + pv));
                            assert(group_rows(groups@) == point_rows(point_lane.flushed()));
                        }
                    },
                    Ok(None) => (),
                    Err(e) => {
                        proof {
                            if all.len() < MAX_ROW_GROUPS && batches_cells_fit(all) {
                                assert(all =~= all.take(k + 1) + all.skip(k + 1));
                                lemma_flat_map_add(
                                    all.take(k + 1),
                                    all.skip(k + 1),
                                    |b2: BatchView|
                                        match b2 {
                                            BatchView::Points(ps2) => ps2,
                                            _ => Seq::<PointView>::empty(),
                                        },
                                );
                                let after = oflushed + (obuf + pv);
                                assert(after =~= (oflushed + obuf) + pv);
                                assert(after == points_of(all.take(k + 1)));
                                assert forall|i: int|
                                    0 <= i < (obuf + pv).len() implies tags_fit(
                                    (#[trigger] (obuf + pv)[i]).tags,
                                ) by {
                                    let j = oflushed.len() + i;
                                    assert((obuf + pv)[i] == after[j]);
                                    assert((points_of(all.take(k + 1)) + points_of(
                                        all.skip(k + 1),
                                    ))[j] == points_of(all.take(k + 1))[j]);
                                    assert(after[j] == points_of(all)[j]);
                                }
                                assert(point_cells_fit(obuf + pv));
                                assert(false);
                            }
                        }
                        return Err(e);
                    },
                }
            },
            Batch::Polylines(ls) => {
                proof {
                    assert(all[k] == BatchView::Polylines(ls.deep_view()));
                    assert(polylines_of(all.take(k + 1)) =~= polylines_of(all.take(k))
                        + ls.deep_view());
                    assert(points_of(all.take(k + 1)) =~= points_of(all.take(k)));
                    assert(relations_of(all.take(k + 1)) =~= relations_of(all.take(k)));
                }
                let ghost lv = ls.deep_view();
                let ghost oflushed = polyline_lane.flushed();
                let ghost obuf = polyline_lane.buffered();
                match polyline_lane.push_batch(ls) {
                    Ok(()) => (),
                    Err(e) => {
                        proof {
                            if all.len() < MAX_ROW_GROUPS && batches_cells_fit(all) {
                                assert(all =~= all.take(k + 1) + all.skip(k + 1));
                                lemma_flat_map_add(
                                    all.take(k + 1),
                                    all.skip(k + 1),
                                    |b2: BatchView|
                                        match b2 {
                                            BatchView::Polylines(ls2) => ls2,
                                            _ => Seq::<PolylineView>::empty(),
                                        },
                                );
                                let after = oflushed + (obuf + lv);
                                assert(after =~= (oflushed + obuf) + lv);
                                assert(after == polylines_of(all.take(k + 1)));
                                assert forall|i: int|
                                    0 <= i < (obuf + lv).len() implies tags_fit(
                                    (#[trigger] (obuf + lv)[i]).tags,
                                ) by {
                                    let j = oflushed.len() + i;
                                    assert((obuf + lv)[i] == after[j]);
                                    assert((polylines_of(all.take(k + 1)) + polylines_of(
                                        all.skip(k + 1),
                                    ))[j] == polylines_of(all.take(k + 1))[j]);
                                    assert(after[j] == polylines_of(all)[j]);
                                }
                                assert(polyline_cells_fit(obuf + lv));
                                assert(false);
                            }
                        }
                        return Err(e);
                    },
                }
            },
            Batch::Relations(rs) => {
                proof {
                    assert(all[k] == BatchView::Relations(rs.deep_view()));
                    assert(relations_of(all.take(k + 1)) =~= relations_of(all.take(k))
                        + rs.deep_view());
                    assert(points_of(all.take(k + 1)) =~= points_of(all.take(k)));
                    assert(polylines_of(all.take(k + 1)) =~= polylines_of(all.take(k)));
                }
                let ghost rv = rs.deep_view();
                let ghost oflushed = relation_lane.flushed();
                let ghost obuf = relation_lane.buffered();
                match relation_lane.push_batch(rs) {
                    Ok(()) => (),
                    Err(e) => {
                        proof {
                            if all.len() < MAX_ROW_GROUPS && batches_cells_fit(all) {
                                assert(all =~= all.take(k + 1) + all.skip(k + 1));
                                lemma_flat_map_add(
                                    all.take(k + 1),
                                    all.skip(k + 1),
                                    |b2: BatchView|
                                        match b2 {
                                            BatchView::Relations(rs2) => rs2,
                                            _ => Seq::<RelationView>::empty(),
                                        },
                                );
                                let after = oflushed + (obuf + rv);
                                assert(after =~= (oflushed + obuf) + rv);
                                assert(after == relations_of(all.take(k + 1)));
                                assert forall|i: int|
                                    0 <= i < (obuf + rv).len() implies tags_fit(
                                    (#[trigger] (obuf + rv)[i]).tags,
                                ) && roles_fit((obuf + rv)[i].members) by {
                                    let j = oflushed.len() + i;
                                    assert((obuf + rv)[i] == after[j]);
                                    assert((relations_of(all.take(k + 1)) + relations_of(
                                        all.skip(k + 1),
                                    ))[j] == relations_of(all.take(k + 1))[j]);
                                    assert(after[j] == relations_of(all)[j]);
                                }
                                assert(relation_cells_fit(obuf + rv));
                                assert(false);
                            }
                        }
                        return Err(e);
                    },
                }
            },
        }
        proof {
            k = k + 1;
        }
    }
    proof {
        assert(k == all.len());
        assert(all.take(k) =~= all);
    }
    let ghost final_flushed = point_lane.flushed();
    let ghost final_buffered = point_lane.buffered();
    proof {
        assert(points_of(all.take(k)) == points_of(all));
        assert(polylines_of(all.take(k)) == polylines_of(all));
        assert(relations_of(all.take(k)) == relations_of(all));
    }
    let point_out = match point_lane.finish() {
        Ok(out) => out,
        Err(e) => {
            proof {
                if all.len() < MAX_ROW_GROUPS && batches_cells_fit(all) {
                    assert forall|i: int|
                        0 <= i < final_buffered.len() implies tags_fit(
                        (#[trigger] final_buffered[i]).tags,
                    ) by {
                        assert((final_flushed + final_buffered)[final_flushed.len() + i]
                            == final_buffered[i]);
                        assert(points_of(all)[final_flushed.len() + i] == final_buffered[i]);
                    }
                    assert(point_cells_fit(final_buffered));
                    assert(false);
                }
            }
            return Err(e);
        },
    };
    let ghost pl_flushed = polyline_lane.flushed();
    let ghost pl_buffered = polyline_lane.buffered();
    let polyline_out = match polyline_lane.finish() {
        Ok(out) => out,
        Err(e) => {
            proof {
                if all.len() < MAX_ROW_GROUPS && batches_cells_fit(all) {
                    assert forall|i: int|
                        0 <= i < pl_buffered.len() implies tags_fit(
                        (#[trigger] pl_buffered[i]).tags,
                    ) by {
                        assert((pl_flushed + pl_buffered)[pl_flushed.len() + i] == pl_buffered[i]);
                        assert(polylines_of(all)[pl_flushed.len() + i] == pl_buffered[i]);
                    }
                    assert(polyline_cells_fit(pl_buffered));
                    assert(false);
                }
            }
            return Err(e);
        },
    };
    let ghost rl_flushed = relation_lane.flushed();
    let ghost rl_buffered = relation_lane.buffered();
    let relation_out = match relation_lane.finish() {
        Ok(out) => out,
        Err(e) => {
            proof {
                if all.len() < MAX_ROW_GROUPS && batches_cells_fit(all) {
                    assert forall|i: int|
                        0 <= i < rl_buffered.len() implies tags_fit(
                        (#[trigger] rl_buffered[i]).tags,
                    ) && roles_fit(rl_buffered[i].members) by {
                        assert((rl_flushed + rl_buffered)[rl_flushed.len() + i] == rl_buffered[i]);
                        assert(relations_of(all)[rl_flushed.len() + i] == rl_buffered[i]);
                    }
                    assert(relation_cells_fit(rl_buffered));
                    assert(false);
                }
            }
            return Err(e);
        },
    };
    proof {
        groups@.lemma_flat_map_push(|g: PointColumns| g.rows(), point_out.group);
        lemma_point_rows_add(final_flushed, final_buffered);
    }
    let ghost ogroups = groups@;
    groups.push(point_out.group);
    proof {
        assert(groups@ =~= ogroups.push(point_out.group));
        assert(group_rows(groups@) == point_rows(points_of(all)));
    }
    Ok(
        RunOutput {
            point_groups: groups,
            point_tags: point_out.tags,
            polylines: polyline_out.lines,
            polyline_tags: polyline_out.tags,
            polyline_members: polyline_out.members,
            relations: relation_out.relations,
            relation_tags: relation_out.tags,
            relation_members: relation_out.members,
            rows: Ghost(
                RunRows {
                    points: point_rows(points_of(all)),
                    point_tags: point_out.tag_rows@,
                    polylines: polyline_out.line_rows@,
                    polyline_tags: polyline_out.tag_rows@,
                    polyline_members: polyline_out.member_rows@,
                    relations: relation_out.relation_rows@,
                    relation_tags: relation_out.tag_rows@,
                    relation_members: relation_out.member_rows@,
                },
            ),
        },
    )
}

/// Row-count conservation, at the level of [`run`]'s contract: each
/// one-row-per-primitive table holds exactly one row per primitive of its
/// kind; each tag table holds exactly the kind's total tag count; each member
/// table holds exactly the kind's total member count.
pub proof fn lemma_run_row_counts(bs: Seq<BatchView>)
    ensures
        run_rows(bs).points.len() == points_of(bs).len(),
        run_rows(bs).polylines.len() == polylines_of(bs).len(),
        run_rows(bs).relations.len() == relations_of(bs).len(),
        run_rows(bs).point_tags.len() == total_tags(point_tag_elems(points_of(bs))),
        run_rows(bs).polyline_tags.len() == total_tags(polyline_tag_elems(polylines_of(bs))),
        run_rows(bs).relation_tags.len() == total_tags(relation_tag_elems(relations_of(bs))),
        run_rows(bs).polyline_members.len() == total_line_members(polylines_of(bs)),
        run_rows(bs).relation_members.len() == total_rel_members(relations_of(bs)),
{
    lemma_tag_row_count(point_tag_elems(points_of(bs)));
    lemma_tag_row_count(polyline_tag_elems(polylines_of(bs)));
    lemma_tag_row_count(relation_tag_elems(relations_of(bs)));
    lemma_line_member_row_count(polylines_of(bs));
    lemma_rel_member_row_count(relations_of(bs));
}

/// Threshold-independence: the table rows that [`run`]'s contract pins are
/// the same for every choice of flush threshold, because they are a function
/// of the decoded batches alone. Two successful runs over the same batches —
/// whatever their thresholds — therefore hand their tables identical rows;
/// only the row-group boundaries may differ.
pub proof fn lemma_threshold_independence(bs: Seq<BatchView>, a: RunRows, b: RunRows)
    requires
        a == run_rows(bs),
        b == run_rows(bs),
    ensures
        a == b,
{
}

} // verus!
