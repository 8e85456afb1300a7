//! Batch normalization: flattening a buffer of primitives of one kind into
//! the parallel column arrays of that kind's tables, expanding one-to-many
//! relationships (tags, member lists) by repeating the owner's id.

use vstd::prelude::*;

use crate::model::{Element, Point, Polyline, PolylineView, Relation, RelationView, TagView};
use crate::rows::{
    LineMemberRow, PointRow, RelMemberRow, TagRow, lemma_tag_rows_add, line_member_rows,
    line_member_rows_of, point_rows, polyline_rows, rel_member_rows, rel_member_rows_of,
    rel_member_rows_fit, relation_rows, tag_rows, tag_rows_of, tag_rows_fit,
};
use crate::schema::MAX_CELL_CHARS;

verus! {

/// The rows held by the parallel columns of a point-table row group.
pub open spec fn point_col_rows(ids: Seq<i64>, lat_bits: Seq<u64>, lon_bits: Seq<u64>) -> Seq<
    PointRow,
> {
    Seq::new(ids.len(), |i: int| PointRow { id: ids[i], lat_bits: lat_bits[i], lon_bits: lon_bits[i] })
}

/// The rows held by the parallel columns of a tag-table row group.
pub open spec fn tag_col_rows(owners: Seq<i64>, keys: Seq<Seq<char>>, values: Seq<Seq<char>>) -> Seq<
    TagRow,
> {
    Seq::new(owners.len(), |i: int| TagRow { owner: owners[i], key: keys[i], value: values[i] })
}

/// The rows held by the parallel columns of a polyline-member-table row group.
pub open spec fn line_col_rows(lines: Seq<i64>, points: Seq<i64>) -> Seq<LineMemberRow> {
    Seq::new(lines.len(), |i: int| LineMemberRow { line: lines[i], point: points[i] })
}

/// The rows held by the parallel columns of a relation-member-table row group.
pub open spec fn rel_col_rows(
    relations: Seq<i64>,
    members: Seq<i64>,
    roles: Seq<Seq<char>>,
    kinds: Seq<Seq<char>>,
) -> Seq<RelMemberRow> {
    Seq::new(
        relations.len(),
        |i: int|
            RelMemberRow { relation: relations[i], member: members[i], role: roles[i], kind: kinds[i] },
    )
}

proof fn lemma_tag_col_rows_push(
    owners: Seq<i64>,
    keys: Seq<Seq<char>>,
    values: Seq<Seq<char>>,
    o: i64,
    k: Seq<char>,
    v: Seq<char>,
)
    requires
        keys.len() == owners.len(),
        values.len() == owners.len(),
    ensures
        tag_col_rows(owners.push(o), keys.push(k), values.push(v)) == tag_col_rows(
            owners,
            keys,
            values,
        ).push(TagRow { owner: o, key: k, value: v }),
{
    assert(tag_col_rows(owners.push(o), keys.push(k), values.push(v)) =~= tag_col_rows(
        owners,
        keys,
        values,
    ).push(TagRow { owner: o, key: k, value: v }));
}

proof fn lemma_line_col_rows_push(lines: Seq<i64>, points: Seq<i64>, l: i64, p: i64)
    requires
        points.len() == lines.len(),
    ensures
        line_col_rows(lines.push(l), points.push(p)) == line_col_rows(lines, points).push(
            LineMemberRow { line: l, point: p },
        ),
{
    assert(line_col_rows(lines.push(l), points.push(p)) =~= line_col_rows(lines, points).push(
        LineMemberRow { line: l, point: p },
    ));
}

proof fn lemma_rel_col_rows_push(
    relations: Seq<i64>,
    members: Seq<i64>,
    roles: Seq<Seq<char>>,
    kinds: Seq<Seq<char>>,
    rel: i64,
    m: i64,
    role: Seq<char>,
    kind: Seq<char>,
)
    requires
        members.len() == relations.len(),
        roles.len() == relations.len(),
        kinds.len() == relations.len(),
    ensures
        rel_col_rows(relations.push(rel), members.push(m), roles.push(role), kinds.push(kind))
            == rel_col_rows(relations, members, roles, kinds).push(
            RelMemberRow { relation: rel, member: m, role: role, kind: kind },
        ),
{
    assert(rel_col_rows(relations.push(rel), members.push(m), roles.push(role), kinds.push(kind))
        =~= rel_col_rows(relations, members, roles, kinds).push(
        RelMemberRow { relation: rel, member: m, role: role, kind: kind },
    ));
}

/// The column arrays of one point-table row group.
pub struct PointColumns {
    /// The id column.
    pub ids: Vec<i64>,
    /// The latitude column, as 64-bit float bit patterns.
    pub lat_bits: Vec<u64>,
    /// The longitude column, as 64-bit float bit patterns.
    pub lon_bits: Vec<u64>,
}

impl PointColumns {
    /// The columns are parallel: every column has one entry per row.
    pub open spec fn wf(self) -> bool {
        self.lat_bits@.len() == self.ids@.len() && self.lon_bits@.len() == self.ids@.len()
    }

    /// The rows the columns hold, row-major.
    pub open spec fn rows(self) -> Seq<PointRow> {
        point_col_rows(self.ids@, self.lat_bits@, self.lon_bits@)
    }
}

/// Normalizes a buffer of points into the point table's columns: one row per
/// point, in buffer order.
pub fn point_columns(ps: &Vec<Point>) -> (r: PointColumns)
    ensures
        r.wf(),
        r.rows() == point_rows(ps.deep_view()),
{
    let mut ids: Vec<i64> = Vec::new();
    let mut lat_bits: Vec<u64> = Vec::new();
    let mut lon_bits: Vec<u64> = Vec::new();
    for k in 0..ps.len()
        invariant
            ids@.len() == k,
            lat_bits@.len() == k,
            lon_bits@.len() == k,
            forall|i: int| 0 <= i < k ==> ids@[i] == ps.deep_view()[i].id,
            forall|i: int| 0 <= i < k ==> lat_bits@[i] == ps.deep_view()[i].lat_bits,
            forall|i: int| 0 <= i < k ==> lon_bits@[i] == ps.deep_view()[i].lon_bits,
    {
        ids.push(ps[k].id);
        lat_bits.push(ps[k].lat_bits);
        lon_bits.push(ps[k].lon_bits);
    }
    let r = PointColumns { ids, lat_bits, lon_bits };
    proof {
        assert(r.rows() =~= point_rows(ps.deep_view()));
    }
    r
}

/// Normalizes a buffer of polylines into the polyline table's id column: one
/// row per polyline, in buffer order.
pub fn polyline_id_column(ls: &Vec<Polyline>) -> (r: Vec<i64>)
    ensures
        r@ == polyline_rows(ls.deep_view()),
{
    let mut ids: Vec<i64> = Vec::new();
    for k in 0..ls.len()
        invariant
            ids@.len() == k,
            forall|i: int| 0 <= i < k ==> ids@[i] == ls.deep_view()[i].id,
    {
        ids.push(ls[k].id);
    }
    proof {
        assert(ids@ =~= polyline_rows(ls.deep_view()));
    }
    ids
}

/// Normalizes a buffer of relations into the relation table's id column: one
/// row per relation, in buffer order.
pub fn relation_id_column(rs: &Vec<Relation>) -> (r: Vec<i64>)
    ensures
        r@ == relation_rows(rs.deep_view()),
{
    let mut ids: Vec<i64> = Vec::new();
    for k in 0..rs.len()
        invariant
            ids@.len() == k,
            forall|i: int| 0 <= i < k ==> ids@[i] == rs.deep_view()[i].id,
    {
        ids.push(rs[k].id);
    }
    proof {
        assert(ids@ =~= relation_rows(rs.deep_view()));
    }
    ids
}

/// The column arrays of one tag-table row group. The same shape serves the
/// tag tables of all three primitive kinds.
pub struct TagColumns {
    /// The owner-id column.
    pub owners: Vec<i64>,
    /// The key column.
    pub keys: Vec<String>,
    /// The value column.
    pub values: Vec<String>,
}

impl TagColumns {
    /// The columns are parallel: every column has one entry per row.
    pub open spec fn wf(self) -> bool {
        self.keys@.len() == self.owners@.len() && self.values@.len() == self.owners@.len()
    }

    /// The rows the columns hold, row-major.
    pub open spec fn rows(self) -> Seq<TagRow> {
        tag_col_rows(self.owners@, self.keys.deep_view(), self.values.deep_view())
    }

    /// Every key and value fits one text cell, so the columns are storable.
    pub open spec fn fits(self) -> bool {
        tag_rows_fit(self.rows())
    }

    /// Decides [`Self::fits`].
    pub fn cells_fit(&self) -> (r: bool)
        requires
            self.wf(),
        ensures
            r == self.fits(),
    {
        for i in 0..self.owners.len()
            invariant
                self.wf(),
                forall|j: int|
                    0 <= j < i ==> (#[trigger] self.rows()[j]).key.len() <= MAX_CELL_CHARS
                        && self.rows()[j].value.len() <= MAX_CELL_CHARS,
        {
            proof {
                assert(self.rows()[i as int].key == self.keys.deep_view()[i as int]);
                assert(self.rows()[i as int].value == self.values.deep_view()[i as int]);
            }
            if self.keys[i].as_str().unicode_len() > MAX_CELL_CHARS || self.values[
                i
            ].as_str().unicode_len() > MAX_CELL_CHARS {
                proof {
                    assert(!self.fits()) by {
                        assert(self.rows()[i as int].key.len() > MAX_CELL_CHARS || self.rows()[
                            i as int
                        ].value.len() > MAX_CELL_CHARS);
                    }
                }
                return false;
            }
        }
        true
    }
}

/// A run of primitives as the tag normalizer sees it: the id and tag list of
/// each, in order.
pub open spec fn tag_elems<E: Element>(es: Seq<E>) -> Seq<(i64, Seq<TagView>)> {
    es.map_values(|e: E| (e.spec_id(), e.spec_tags()))
}

/// Normalizes the tag lists of a buffer of primitives into a tag table's
/// columns: one row per tag, the owner's id repeated once per tag, primitives
/// in buffer order and each primitive's tags in their own order. Primitives
/// without tags contribute no rows.
pub fn tag_columns<E: Element>(es: &Vec<E>) -> (r: TagColumns)
    ensures
        r.wf(),
        r.rows() == tag_rows(tag_elems(es@)),
{
    let mut owners: Vec<i64> = Vec::new();
    let mut keys: Vec<String> = Vec::new();
    let mut values: Vec<String> = Vec::new();
    for k in 0..es.len()
        invariant
            keys@.len() == owners@.len(),
            values@.len() == owners@.len(),
            tag_col_rows(owners@, keys.deep_view(), values.deep_view()) == tag_rows(
                tag_elems(es@.take(k as int)),
            ),
    {
        let e = &es[k];
        let id = e.id();
        let ts = e.tags();
        for j in 0..ts.len()
            invariant
                keys@.len() == owners@.len(),
                values@.len() == owners@.len(),
                id == e.spec_id(),
                ts.deep_view() == e.spec_tags(),
                j <= ts@.len(),
                tag_col_rows(owners@, keys.deep_view(), values.deep_view()) == tag_rows(
                    tag_elems(es@.take(k as int)),
                ) + tag_rows_of(e.spec_id(), e.spec_tags().take(j as int)),
        {
            let ghost po = owners@;
            let ghost pk = keys.deep_view();
            let ghost pv = values.deep_view();
            owners.push(id);
            keys.push(ts[j].key.clone());
            values.push(ts[j].value.clone());
            proof {
                let row = TagRow {
                    owner: e.spec_id(),
                    key: e.spec_tags()[j as int].key,
                    value: e.spec_tags()[j as int].value,
                };
                assert(keys.deep_view() =~= pk.push(row.key));
                assert(values.deep_view() =~= pv.push(row.value));
                lemma_tag_col_rows_push(po, pk, pv, row.owner, row.key, row.value);
                Seq::push_distributes_over_add(
                    tag_rows(tag_elems(es@.take(k as int))),
                    tag_rows_of(e.spec_id(), e.spec_tags().take(j as int)),
                    row,
                );
                assert(e.spec_tags().take(j + 1) =~= e.spec_tags().take(j as int).push(
                    e.spec_tags()[j as int],
                ));
                assert(tag_rows_of(e.spec_id(), e.spec_tags().take(j as int)).push(row)
                    =~= tag_rows_of(e.spec_id(), e.spec_tags().take(j + 1)));
            }
        }
        proof {
            let a = tag_elems(es@.take(k as int));
            let p = (e.spec_id(), e.spec_tags());
            assert(e.spec_tags().take(ts@.len() as int) =~= e.spec_tags());
            assert(tag_elems(es@.take(k + 1)) =~= a + seq![p]);
            lemma_tag_rows_add(a, seq![p]);
            seq![p].lemma_flat_map_singleton(|e2: (i64, Seq<TagView>)| tag_rows_of(e2.0, e2.1));
        }
    }
    let r = TagColumns { owners, keys, values };
    proof {
        assert(es@.take(es@.len() as int) =~= es@);
    }
    r
}

/// The column arrays of one polyline-member-table row group.
pub struct LineMemberColumns {
    /// The polyline-id column.
    pub lines: Vec<i64>,
    /// The point-id column.
    pub points: Vec<i64>,
}

impl LineMemberColumns {
    /// The columns are parallel: every column has one entry per row.
    pub open spec fn wf(self) -> bool {
        self.points@.len() == self.lines@.len()
    }

    /// The rows the columns hold, row-major.
    pub open spec fn rows(self) -> Seq<LineMemberRow> {
        line_col_rows(self.lines@, self.points@)
    }
}

/// Normalizes the member lists of a buffer of polylines into the
/// polyline-member table's columns: one row per point reference, the
/// polyline's id repeated once per reference, order preserved. Polylines
/// without references contribute no rows.
pub fn line_member_columns(ls: &Vec<Polyline>) -> (r: LineMemberColumns)
    ensures
        r.wf(),
        r.rows() == line_member_rows(ls.deep_view()),
{
    let mut lines: Vec<i64> = Vec::new();
    let mut points: Vec<i64> = Vec::new();
    for k in 0..ls.len()
        invariant
            points@.len() == lines@.len(),
            line_col_rows(lines@, points@) == line_member_rows(ls.deep_view().take(k as int)),
    {
        let l = &ls[k];
        for j in 0..l.points.len()
            invariant
                points@.len() == lines@.len(),
                j <= l.points@.len(),
                line_col_rows(lines@, points@) == line_member_rows(ls.deep_view().take(k as int))
                    + line_member_rows_of(l@).take(j as int),
        {
            let ghost pl = lines@;
            let ghost pp = points@;
            lines.push(l.id);
            points.push(l.points[j]);
            proof {
                let row = LineMemberRow { line: l@.id, point: l@.points[j as int] };
                lemma_line_col_rows_push(pl, pp, row.line, row.point);
                Seq::push_distributes_over_add(
                    line_member_rows(ls.deep_view().take(k as int)),
                    line_member_rows_of(l@).take(j as int),
                    row,
                );
                assert(line_member_rows_of(l@).take(j as int).push(row) =~= line_member_rows_of(
                    l@,
                ).take(j + 1));
            }
        }
        proof {
            assert(line_member_rows_of(l@).take(l.points@.len() as int) =~= line_member_rows_of(
                l@,
            ));
            assert(ls.deep_view().take(k + 1) =~= ls.deep_view().take(k as int).push(l@));
            ls.deep_view().take(k as int).lemma_flat_map_push(
                |x: PolylineView| line_member_rows_of(x),
                l@,
            );
        }
    }
    let r = LineMemberColumns { lines, points };
    proof {
        assert(ls.deep_view().take(ls@.len() as int) =~= ls.deep_view());
    }
    r
}

/// The column arrays of one relation-member-table row group. The kind column
/// holds each member kind's text label.
pub struct RelMemberColumns {
    /// The relation-id column.
    pub relations: Vec<i64>,
    /// The member-id column.
    pub members: Vec<i64>,
    /// The role column.
    pub roles: Vec<String>,
    /// The member-kind column, as text labels.
    pub kinds: Vec<String>,
}

impl RelMemberColumns {
    /// The columns are parallel: every column has one entry per row.
    pub open spec fn wf(self) -> bool {
        self.members@.len() == self.relations@.len() && self.roles@.len() == self.relations@.len()
            && self.kinds@.len() == self.relations@.len()
    }

    /// The rows the columns hold, row-major.
    pub open spec fn rows(self) -> Seq<RelMemberRow> {
        rel_col_rows(self.relations@, self.members@, self.roles.deep_view(), self.kinds.deep_view())
    }

    /// Every role and kind label fits one text cell, so the columns are
    /// storable.
    pub open spec fn fits(self) -> bool {
        rel_member_rows_fit(self.rows())
    }

    /// Decides [`Self::fits`].
    pub fn cells_fit(&self) -> (r: bool)
        requires
            self.wf(),
        ensures
            r == self.fits(),
    {
        for i in 0..self.relations.len()
            invariant
                self.wf(),
                forall|j: int|
                    0 <= j < i ==> (#[trigger] self.rows()[j]).role.len() <= MAX_CELL_CHARS
                        && self.rows()[j].kind.len() <= MAX_CELL_CHARS,
        {
            proof {
                assert(self.rows()[i as int].role == self.roles.deep_view()[i as int]);
                assert(self.rows()[i as int].kind == self.kinds.deep_view()[i as int]);
            }
            if self.roles[i].as_str().unicode_len() > MAX_CELL_CHARS || self.kinds[
                i
            ].as_str().unicode_len() > MAX_CELL_CHARS {
                proof {
                    assert(!self.fits()) by {
                        assert(self.rows()[i as int].role.len() > MAX_CELL_CHARS || self.rows()[
                            i as int
                        ].kind.len() > MAX_CELL_CHARS);
                    }
                }
                return false;
            }
        }
        true
    }
}

/// Normalizes the member lists of a buffer of relations into the
/// relation-member table's columns: one row per member, the relation's id
/// repeated once per member, order preserved. Relations without members
/// contribute no rows.
pub fn rel_member_columns(rs: &Vec<Relation>) -> (r: RelMemberColumns)
    ensures
        r.wf(),
        r.rows() == rel_member_rows(rs.deep_view()),
{
    let mut relations: Vec<i64> = Vec::new();
    let mut members: Vec<i64> = Vec::new();
    let mut roles: Vec<String> = Vec::new();
    let mut kinds: Vec<String> = Vec::new();
    for k in 0..rs.len()
        invariant
            members@.len() == relations@.len(),
            roles@.len() == relations@.len(),
            kinds@.len() == relations@.len(),
            rel_col_rows(relations@, members@, roles.deep_view(), kinds.deep_view())
                == rel_member_rows(rs.deep_view().take(k as int)),
    {
        let rel = &rs[k];
        for j in 0..rel.members.len()
            invariant
                members@.len() == relations@.len(),
                roles@.len() == relations@.len(),
                kinds@.len() == relations@.len(),
                j <= rel.members@.len(),
                rel_col_rows(relations@, members@, roles.deep_view(), kinds.deep_view())
                    == rel_member_rows(rs.deep_view().take(k as int)) + rel_member_rows_of(
                    rel@,
                ).take(j as int),
        {
            let ghost pr = relations@;
            let ghost pm = members@;
            let ghost po = roles.deep_view();
            let ghost pk = kinds.deep_view();
            let m = &rel.members[j];
            relations.push(rel.id);
            members.push(m.member_id);
            roles.push(m.role.clone());
            kinds.push(String::from_str(m.kind.label()));
            proof {
                let row = RelMemberRow {
                    relation: rel@.id,
                    member: rel@.members[j as int].member_id,
                    role: rel@.members[j as int].role,
                    kind: rel@.members[j as int].kind.spec_label(),
                };
                assert(roles.deep_view() =~= po.push(row.role));
                assert(kinds.deep_view() =~= pk.push(row.kind));
                lemma_rel_col_rows_push(pr, pm, po, pk, row.relation, row.member, row.role, row.kind);
                Seq::push_distributes_over_add(
                    rel_member_rows(rs.deep_view().take(k as int)),
                    rel_member_rows_of(rel@).take(j as int),
                    row,
                );
                assert(rel_member_rows_of(rel@).take(j as int).push(row) =~= rel_member_rows_of(
                    rel@,
                ).take(j + 1));
            }
        }
        proof {
            assert(rel_member_rows_of(rel@).take(rel.members@.len() as int) =~= rel_member_rows_of(
                rel@,
            ));
            assert(rs.deep_view().take(k + 1) =~= rs.deep_view().take(k as int).push(rel@));
            rs.deep_view().take(k as int).lemma_flat_map_push(
                |x: RelationView| rel_member_rows_of(x),
                rel@,
            );
        }
    }
    let r = RelMemberColumns { relations, members, roles, kinds };
    proof {
        assert(rs.deep_view().take(rs@.len() as int) =~= rs.deep_view());
    }
    r
}

} // verus!
