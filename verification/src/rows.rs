//! The mathematical row model of the eight tables: what each table holds
//! after a buffer of primitives is normalized into columns, and the laws that
//! normalization obeys — row-count conservation, order preservation, and
//! distribution over concatenation (the heart of threshold-independence).

use vstd::prelude::*;

use crate::model::{MemberKind, PointView, PolylineView, RelMemberView, RelationView, TagView};
use crate::schema::MAX_CELL_CHARS;

verus! {

/// One row of the point table.
pub struct PointRow {
    /// The point's id.
    pub id: i64,
    /// Bit pattern of the 64-bit latitude.
    pub lat_bits: u64,
    /// Bit pattern of the 64-bit longitude.
    pub lon_bits: u64,
}

/// One row of a tag table: one tag of one primitive.
pub struct TagRow {
    /// The id of the primitive that owns the tag.
    pub owner: i64,
    /// The tag's key.
    pub key: Seq<char>,
    /// The tag's value.
    pub value: Seq<char>,
}

/// One row of the polyline-member table: one point reference of one polyline.
pub struct LineMemberRow {
    /// The id of the polyline.
    pub line: i64,
    /// The id of the referenced point.
    pub point: i64,
}

/// One row of the relation-member table: one member of one relation.
pub struct RelMemberRow {
    /// The id of the relation.
    pub relation: i64,
    /// The id of the referenced primitive.
    pub member: i64,
    /// The member's role.
    pub role: Seq<char>,
    /// The text label of the referenced primitive's kind, as the kind column
    /// stores it.
    pub kind: Seq<char>,
}

/// The point-table rows of a run of points: one row per point, in order.
pub open spec fn point_rows(ps: Seq<PointView>) -> Seq<PointRow> {
    ps.map_values(|p: PointView| PointRow { id: p.id, lat_bits: p.lat_bits, lon_bits: p.lon_bits })
}

/// The polyline-table rows of a run of polylines: one id per polyline.
pub open spec fn polyline_rows(ls: Seq<PolylineView>) -> Seq<i64> {
    ls.map_values(|l: PolylineView| l.id)
}

/// The relation-table rows of a run of relations: one id per relation.
pub open spec fn relation_rows(rs: Seq<RelationView>) -> Seq<i64> {
    rs.map_values(|r: RelationView| r.id)
}

/// The tag rows of one primitive: its owner id repeated once per tag, tag
/// order kept.
pub open spec fn tag_rows_of(owner: i64, tags: Seq<TagView>) -> Seq<TagRow> {
    tags.map_values(|t: TagView| TagRow { owner: owner, key: t.key, value: t.value })
}

/// The tag-table rows of a run of primitives, each given as its id and tag
/// list: primitives in buffer order, each primitive's tags in its own order.
pub open spec fn tag_rows(elems: Seq<(i64, Seq<TagView>)>) -> Seq<TagRow> {
    elems.flat_map(|e: (i64, Seq<TagView>)| tag_rows_of(e.0, e.1))
}

/// A run of points as the tag normalizer sees it: id and tag list of each.
pub open spec fn point_tag_elems(ps: Seq<PointView>) -> Seq<(i64, Seq<TagView>)> {
    ps.map_values(|p: PointView| (p.id, p.tags))
}

/// A run of polylines as the tag normalizer sees it.
pub open spec fn polyline_tag_elems(ls: Seq<PolylineView>) -> Seq<(i64, Seq<TagView>)> {
    ls.map_values(|l: PolylineView| (l.id, l.tags))
}

/// A run of relations as the tag normalizer sees it.
pub open spec fn relation_tag_elems(rs: Seq<RelationView>) -> Seq<(i64, Seq<TagView>)> {
    rs.map_values(|r: RelationView| (r.id, r.tags))
}

/// The polyline-member rows of one polyline: its id paired with each of its
/// point references, in line order.
pub open spec fn line_member_rows_of(l: PolylineView) -> Seq<LineMemberRow> {
    l.points.map_values(|p: i64| LineMemberRow { line: l.id, point: p })
}

/// The polyline-member rows of a run of polylines, in buffer order.
pub open spec fn line_member_rows(ls: Seq<PolylineView>) -> Seq<LineMemberRow> {
    ls.flat_map(|l: PolylineView| line_member_rows_of(l))
}

/// The relation-member rows of one relation: one row per member, in order.
pub open spec fn rel_member_rows_of(r: RelationView) -> Seq<RelMemberRow> {
    r.members.map_values(
        |m: RelMemberView| RelMemberRow {
            relation: r.id,
            member: m.member_id,
            role: m.role,
            kind: m.kind.spec_label(),
        },
    )
}

/// The relation-member rows of a run of relations, in buffer order.
pub open spec fn rel_member_rows(rs: Seq<RelationView>) -> Seq<RelMemberRow> {
    rs.flat_map(|r: RelationView| rel_member_rows_of(r))
}

/// Mapping a sequence element-wise distributes over concatenation.
pub proof fn lemma_map_values_add<A, B>(a: Seq<A>, b: Seq<A>, f: spec_fn(A) -> B)
    ensures
        (a + b).map_values(f) == a.map_values(f) + b.map_values(f),
{
    assert((a + b).map_values(f) =~= a.map_values(f) + b.map_values(f));
}

/// Flat-mapping distributes over concatenation.
pub proof fn lemma_flat_map_add<A, B>(a: Seq<A>, b: Seq<A>, f: spec_fn(A) -> Seq<B>)
    ensures
        (a + b).flat_map(f) == a.flat_map(f) + b.flat_map(f),
    decreases b.len(),
{
    if b.len() == 0 {
        assert(a + b =~= a);
        assert(b.map_values(f) =~= Seq::<Seq<B>>::empty());
        assert(b.flat_map(f) =~= Seq::<B>::empty());
        assert((a + b).flat_map(f) =~= a.flat_map(f) + b.flat_map(f));
    } else {
        let bp = b.drop_last();
        lemma_flat_map_add(a, bp, f);
        assert(a + b =~= (a + bp).push(b.last()));
        (a + bp).lemma_flat_map_push(f, b.last());
        assert(b =~= bp.push(b.last()));
        bp.lemma_flat_map_push(f, b.last());
        assert((a + b).flat_map(f) =~= a.flat_map(f) + b.flat_map(f));
    }
}

/// Point rows distribute over concatenation: flushing early or late changes
/// row-group boundaries only, never the rows.
pub proof fn lemma_point_rows_add(a: Seq<PointView>, b: Seq<PointView>)
    ensures
        point_rows(a + b) == point_rows(a) + point_rows(b),
        point_tag_elems(a + b) == point_tag_elems(a) + point_tag_elems(b),
{
    lemma_map_values_add(
        a,
        b,
        |p: PointView| PointRow { id: p.id, lat_bits: p.lat_bits, lon_bits: p.lon_bits },
    );
    lemma_map_values_add(a, b, |p: PointView| (p.id, p.tags));
}

/// Polyline rows distribute over concatenation.
pub proof fn lemma_polyline_rows_add(a: Seq<PolylineView>, b: Seq<PolylineView>)
    ensures
        polyline_rows(a + b) == polyline_rows(a) + polyline_rows(b),
        polyline_tag_elems(a + b) == polyline_tag_elems(a) + polyline_tag_elems(b),
        line_member_rows(a + b) == line_member_rows(a) + line_member_rows(b),
{
    lemma_map_values_add(a, b, |l: PolylineView| l.id);
    lemma_map_values_add(a, b, |l: PolylineView| (l.id, l.tags));
    lemma_flat_map_add(a, b, |l: PolylineView| line_member_rows_of(l));
}

/// Relation rows distribute over concatenation.
pub proof fn lemma_relation_rows_add(a: Seq<RelationView>, b: Seq<RelationView>)
    ensures
        relation_rows(a + b) == relation_rows(a) + relation_rows(b),
        relation_tag_elems(a + b) == relation_tag_elems(a) + relation_tag_elems(b),
        rel_member_rows(a + b) == rel_member_rows(a) + rel_member_rows(b),
{
    lemma_map_values_add(a, b, |r: RelationView| r.id);
    lemma_map_values_add(a, b, |r: RelationView| (r.id, r.tags));
    lemma_flat_map_add(a, b, |r: RelationView| rel_member_rows_of(r));
}

/// Tag rows distribute over concatenation.
pub proof fn lemma_tag_rows_add(a: Seq<(i64, Seq<TagView>)>, b: Seq<(i64, Seq<TagView>)>)
    ensures
        tag_rows(a + b) == tag_rows(a) + tag_rows(b),
{
    lemma_flat_map_add(a, b, |e: (i64, Seq<TagView>)| tag_rows_of(e.0, e.1));
}

/// The total tag count over a run of primitives, each given as its id and tag
/// list.
pub open spec fn total_tags(elems: Seq<(i64, Seq<TagView>)>) -> int {
    elems.fold_left(0, |n: int, e: (i64, Seq<TagView>)| n + e.1.len())
}

/// The total member count over a run of polylines.
pub open spec fn total_line_members(ls: Seq<PolylineView>) -> int {
    ls.fold_left(0, |n: int, l: PolylineView| n + l.points.len())
}

/// The total member count over a run of relations.
pub open spec fn total_rel_members(rs: Seq<RelationView>) -> int {
    rs.fold_left(0, |n: int, r: RelationView| n + r.members.len())
}

/// Row-count conservation for the one-row-per-primitive tables: the point,
/// polyline and relation tables hold exactly one row per primitive decoded.
pub proof fn lemma_primitive_row_counts(
    ps: Seq<PointView>,
    ls: Seq<PolylineView>,
    rs: Seq<RelationView>,
)
    ensures
        point_rows(ps).len() == ps.len(),
        polyline_rows(ls).len() == ls.len(),
        relation_rows(rs).len() == rs.len(),
{
}

/// Row-count conservation for the tag tables: a kind's tag table holds
/// exactly as many rows as the primitives of that kind have tags, summed over
/// their tag lists.
pub proof fn lemma_tag_row_count(elems: Seq<(i64, Seq<TagView>)>)
    ensures
        tag_rows(elems).len() == total_tags(elems),
    decreases elems.len(),
{
    if elems.len() == 0 {
        assert(tag_rows(elems) =~= Seq::<TagRow>::empty());
    } else {
        let prefix = elems.drop_last();
        lemma_tag_row_count(prefix);
        assert(elems =~= prefix.push(elems.last()));
        prefix.lemma_flat_map_push(
            |e: (i64, Seq<TagView>)| tag_rows_of(e.0, e.1),
            elems.last(),
        );
    }
}

/// Row-count conservation for the polyline-member table: it holds exactly as
/// many rows as the polylines have point references, summed over their
/// member lists.
pub proof fn lemma_line_member_row_count(ls: Seq<PolylineView>)
    ensures
        line_member_rows(ls).len() == total_line_members(ls),
    decreases ls.len(),
{
    if ls.len() == 0 {
        assert(line_member_rows(ls) =~= Seq::<LineMemberRow>::empty());
    } else {
        let prefix = ls.drop_last();
        lemma_line_member_row_count(prefix);
        assert(ls =~= prefix.push(ls.last()));
        prefix.lemma_flat_map_push(|l: PolylineView| line_member_rows_of(l), ls.last());
    }
}

/// Row-count conservation for the relation-member table.
pub proof fn lemma_rel_member_row_count(rs: Seq<RelationView>)
    ensures
        rel_member_rows(rs).len() == total_rel_members(rs),
    decreases rs.len(),
{
    if rs.len() == 0 {
        assert(rel_member_rows(rs) =~= Seq::<RelMemberRow>::empty());
    } else {
        let prefix = rs.drop_last();
        lemma_rel_member_row_count(prefix);
        assert(rs =~= prefix.push(rs.last()));
        prefix.lemma_flat_map_push(|r: RelationView| rel_member_rows_of(r), rs.last());
    }
}

/// Filtering keeps a sequence whole when the predicate holds everywhere.
proof fn lemma_filter_all_true<A>(s: Seq<A>, pred: spec_fn(A) -> bool)
    requires
        forall|i: int| 0 <= i < s.len() ==> pred(#[trigger] s[i]),
    ensures
        s.filter(pred) == s,
    decreases s.len(),
{
    reveal(Seq::filter);
    if s.len() == 0 {
        assert(s.filter(pred) =~= s);
    } else {
        lemma_filter_all_true(s.drop_last(), pred);
        assert(s.drop_last().push(s.last()) =~= s);
        s.drop_last().lemma_filter_push(s.last(), pred);
        assert(s.filter(pred) =~= s);
    }
}

/// No polyline-member row carries a line id that no polyline has.
proof fn lemma_line_member_filter_none(ls: Seq<PolylineView>, x: i64)
    requires
        forall|j: int| 0 <= j < ls.len() ==> (#[trigger] ls[j]).id != x,
    ensures
        line_member_rows(ls).filter(|r: LineMemberRow| r.line == x) == Seq::<
            LineMemberRow,
        >::empty(),
    decreases ls.len(),
{
    let pred = |r: LineMemberRow| r.line == x;
    if ls.len() == 0 {
        reveal(Seq::filter);
        assert(line_member_rows(ls) =~= Seq::<LineMemberRow>::empty());
    } else {
        let prefix = ls.drop_last();
        lemma_line_member_filter_none(prefix, x);
        assert(ls =~= prefix.push(ls.last()));
        prefix.lemma_flat_map_push(|l: PolylineView| line_member_rows_of(l), ls.last());
        Seq::filter_distributes_over_add(
            line_member_rows(prefix),
            line_member_rows_of(ls.last()),
            pred,
        );
        assert(line_member_rows_of(ls.last()).all(|r: LineMemberRow| !pred(r)));
        line_member_rows_of(ls.last()).lemma_all_neg_filter_empty(pred);
        assert(line_member_rows(ls).filter(pred) =~= Seq::<LineMemberRow>::empty());
    }
}

/// Order preservation: when polyline ids are pairwise distinct, the
/// polyline-member rows restricted to one polyline's id carry exactly that
/// polyline's point references, in their original order — no reordering, no
/// deduplication.
pub proof fn lemma_line_member_order(ls: Seq<PolylineView>, i: int)
    requires
        0 <= i < ls.len(),
        polyline_rows(ls).no_duplicates(),
    ensures
        line_member_rows(ls).filter(|r: LineMemberRow| r.line == ls[i].id).map_values(
            |r: LineMemberRow| r.point,
        ) == ls[i].points,
    decreases ls.len(),
{
    let pred = |r: LineMemberRow| r.line == ls[i].id;
    let prefix = ls.drop_last();
    assert(ls =~= prefix.push(ls.last()));
    prefix.lemma_flat_map_push(|l: PolylineView| line_member_rows_of(l), ls.last());
    Seq::filter_distributes_over_add(
        line_member_rows(prefix),
        line_member_rows_of(ls.last()),
        pred,
    );
    if i == ls.len() - 1 {
        assert forall|j: int| 0 <= j < prefix.len() implies (#[trigger] prefix[j]).id
            != ls[i].id by {
            assert(polyline_rows(ls)[j] == ls[j].id);
            assert(polyline_rows(ls)[i] == ls[i].id);
        }
        lemma_line_member_filter_none(prefix, ls[i].id);
        assert(forall|k: int|
            0 <= k < line_member_rows_of(ls.last()).len() ==> pred(
                #[trigger] line_member_rows_of(ls.last())[k],
            ));
        lemma_filter_all_true(line_member_rows_of(ls.last()), pred);
        assert(line_member_rows(ls).filter(pred) =~= line_member_rows_of(ls.last()));
        assert(line_member_rows_of(ls.last()).map_values(|r: LineMemberRow| r.point)
            =~= ls[i].points);
    } else {
        assert(polyline_rows(prefix) =~= polyline_rows(ls).drop_last());
        assert(polyline_rows(prefix).no_duplicates());
        assert(prefix[i] == ls[i]);
        lemma_line_member_order(prefix, i);
        assert(ls.last().id != ls[i].id) by {
            assert(polyline_rows(ls)[ls.len() - 1] == ls.last().id);
            assert(polyline_rows(ls)[i] == ls[i].id);
        }
        assert(line_member_rows_of(ls.last()).all(|r: LineMemberRow| !pred(r)));
        line_member_rows_of(ls.last()).lemma_all_neg_filter_empty(pred);
        assert(line_member_rows(ls).filter(pred) =~= line_member_rows(prefix).filter(pred));
    }
}

/// Every tag in the list has a key and a value that fit one text cell.
pub open spec fn tags_fit(ts: Seq<TagView>) -> bool {
    forall|i: int|
        0 <= i < ts.len() ==> (#[trigger] ts[i]).key.len() <= MAX_CELL_CHARS && ts[i].value.len()
            <= MAX_CELL_CHARS
}

/// Every member in the list has a role that fits one text cell.
pub open spec fn roles_fit(ms: Seq<RelMemberView>) -> bool {
    forall|i: int| 0 <= i < ms.len() ==> (#[trigger] ms[i]).role.len() <= MAX_CELL_CHARS
}

/// Every text cell of a run of points fits: all their tags do.
pub open spec fn point_cells_fit(ps: Seq<PointView>) -> bool {
    forall|i: int| 0 <= i < ps.len() ==> tags_fit((#[trigger] ps[i]).tags)
}

/// Every text cell of a run of polylines fits: all their tags do.
pub open spec fn polyline_cells_fit(ls: Seq<PolylineView>) -> bool {
    forall|i: int| 0 <= i < ls.len() ==> tags_fit((#[trigger] ls[i]).tags)
}

/// Every text cell of a run of relations fits: all their tags and member
/// roles do. Member-kind labels are short constants and always fit.
pub open spec fn relation_cells_fit(rs: Seq<RelationView>) -> bool {
    forall|i: int|
        0 <= i < rs.len() ==> tags_fit((#[trigger] rs[i]).tags) && roles_fit(rs[i].members)
}

/// Every row in a run of tag rows has a key and a value that fit one text
/// cell.
pub open spec fn tag_rows_fit(rows: Seq<TagRow>) -> bool {
    forall|i: int|
        0 <= i < rows.len() ==> (#[trigger] rows[i]).key.len() <= MAX_CELL_CHARS
            && rows[i].value.len() <= MAX_CELL_CHARS
}

/// Every row in a run of relation-member rows has a role and a kind label
/// that fit one text cell.
pub open spec fn rel_member_rows_fit(rows: Seq<RelMemberRow>) -> bool {
    forall|i: int|
        0 <= i < rows.len() ==> (#[trigger] rows[i]).role.len() <= MAX_CELL_CHARS
            && rows[i].kind.len() <= MAX_CELL_CHARS
}

/// When every primitive's tags fit, so does every tag row built from them.
pub proof fn lemma_tag_rows_fit(elems: Seq<(i64, Seq<TagView>)>)
    requires
        forall|i: int| 0 <= i < elems.len() ==> tags_fit((#[trigger] elems[i]).1),
    ensures
        tag_rows_fit(tag_rows(elems)),
    decreases elems.len(),
{
    if elems.len() == 0 {
        assert(tag_rows(elems) =~= Seq::<TagRow>::empty());
    } else {
        let prefix = elems.drop_last();
        let last = elems.last();
        lemma_tag_rows_fit(prefix);
        assert(elems =~= prefix.push(last));
        prefix.lemma_flat_map_push(|e: (i64, Seq<TagView>)| tag_rows_of(e.0, e.1), last);
        assert(tags_fit(last.1)) by {
            assert(elems[elems.len() - 1] == last);
        }
        assert forall|i: int|
            0 <= i < tag_rows(elems).len() implies (#[trigger] tag_rows(elems)[i]).key.len()
            <= MAX_CELL_CHARS && tag_rows(elems)[i].value.len() <= MAX_CELL_CHARS by {
            let base = tag_rows(prefix).len() as int;
            if i < base {
                assert(tag_rows(elems)[i] == tag_rows(prefix)[i]);
            } else {
                assert(tag_rows(elems)[i] == tag_rows_of(last.0, last.1)[i - base]);
                assert(tag_rows_of(last.0, last.1)[i - base].key == last.1[i - base].key);
                assert(last.1[i - base].key.len() <= MAX_CELL_CHARS);
                assert(last.1[i - base].value.len() <= MAX_CELL_CHARS);
            }
        }
    }
}

/// When every relation's member roles fit, so does every relation-member row
/// built from them: the role cells are the roles, and the kind cells are the
/// three short labels.
pub proof fn lemma_rel_member_rows_fit(rs: Seq<RelationView>)
    requires
        forall|i: int| 0 <= i < rs.len() ==> roles_fit((#[trigger] rs[i]).members),
    ensures
        rel_member_rows_fit(rel_member_rows(rs)),
    decreases rs.len(),
{
    reveal_strlit("point");
    reveal_strlit("polyline");
    reveal_strlit("relation");
    assert(MemberKind::Point.spec_label().len() <= MAX_CELL_CHARS);
    assert(MemberKind::Polyline.spec_label().len() <= MAX_CELL_CHARS);
    assert(MemberKind::Relation.spec_label().len() <= MAX_CELL_CHARS);
    if rs.len() == 0 {
        assert(rel_member_rows(rs) =~= Seq::<RelMemberRow>::empty());
    } else {
        let prefix = rs.drop_last();
        let last = rs.last();
        lemma_rel_member_rows_fit(prefix);
        assert(rs =~= prefix.push(last));
        prefix.lemma_flat_map_push(|r: RelationView| rel_member_rows_of(r), last);
        assert(roles_fit(last.members)) by {
            assert(rs[rs.len() - 1] == last);
        }
        assert forall|i: int|
            0 <= i < rel_member_rows(rs).len() implies (#[trigger] rel_member_rows(rs)[i]).role.len()
            <= MAX_CELL_CHARS && rel_member_rows(rs)[i].kind.len() <= MAX_CELL_CHARS by {
            let base = rel_member_rows(prefix).len() as int;
            if i < base {
                assert(rel_member_rows(rs)[i] == rel_member_rows(prefix)[i]);
            } else {
                let m = last.members[i - base];
                assert(rel_member_rows(rs)[i] == rel_member_rows_of(last)[i - base]);
                assert(rel_member_rows_of(last)[i - base].role == m.role);
                assert(rel_member_rows_of(last)[i - base].kind == m.kind.spec_label());
                assert(m.role.len() <= MAX_CELL_CHARS);
                assert(m.kind.spec_label().len() <= MAX_CELL_CHARS) by {
                    match m.kind {
                        MemberKind::Point => {},
                        MemberKind::Polyline => {},
                        MemberKind::Relation => {},
                    }
                }
            }
        }
    }
}

} // verus!
