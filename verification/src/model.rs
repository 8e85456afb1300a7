//! The in-memory primitive model: points, polylines and relations, each
//! carrying a 64-bit id and an ordered tag list.
//!
//! Latitudes and longitudes are carried as the IEEE-754 bit patterns of the
//! 64-bit floating-point values in decimal degrees. The pipeline never
//! computes with them — it only moves them into the point table's columns —
//! and the verifier does not accept floating-point types, so the bits are the
//! faithful representation. The decoder boundary supplies the bits; the sink
//! that serializes the point table turns them back into doubles.

use vstd::prelude::*;

verus! {

/// One key/value tag. Keys need not be unique within a tag list; order is
/// preserved as the decoder produced it.
#[derive(Debug, Clone, PartialEq, Eq)]
pub struct Tag {
    /// The tag's key, raw UTF-8 text.
    pub key: String,
    /// The tag's value, raw UTF-8 text.
    pub value: String,
}

/// The mathematical view of a [`Tag`].
pub struct TagView {
    /// The tag's key.
    pub key: Seq<char>,
    /// The tag's value.
    pub value: Seq<char>,
}

impl View for Tag {
    type V = TagView;

    open spec fn view(&self) -> TagView {
        TagView { key: self.key@, value: self.value@ }
    }
}

impl DeepView for Tag {
    type V = TagView;

    open spec fn deep_view(&self) -> TagView {
        self@
    }
}

/// One point: a location with an id and tags.
#[derive(Debug, Clone, PartialEq, Eq)]
pub struct Point {
    /// The point's id, unique among points.
    pub id: i64,
    /// Bit pattern of the 64-bit latitude in decimal degrees.
    pub lat_bits: u64,
    /// Bit pattern of the 64-bit longitude in decimal degrees.
    pub lon_bits: u64,
    /// The point's tags, in order.
    pub tags: Vec<Tag>,
}

/// The mathematical view of a [`Point`].
pub struct PointView {
    /// The point's id.
    pub id: i64,
    /// Bit pattern of the 64-bit latitude.
    pub lat_bits: u64,
    /// Bit pattern of the 64-bit longitude.
    pub lon_bits: u64,
    /// The point's tags, in order.
    pub tags: Seq<TagView>,
}

impl View for Point {
    type V = PointView;

    open spec fn view(&self) -> PointView {
        PointView {
            id: self.id,
            lat_bits: self.lat_bits,
            lon_bits: self.lon_bits,
            tags: self.tags.deep_view(),
        }
    }
}

impl DeepView for Point {
    type V = PointView;

    open spec fn deep_view(&self) -> PointView {
        self@
    }
}

/// One polyline: an ordered list of point references with an id and tags.
/// The order of the references defines the line's geometry and is preserved
/// through every stage.
#[derive(Debug, Clone, PartialEq, Eq)]
pub struct Polyline {
    /// The polyline's id, unique among polylines.
    pub id: i64,
    /// The ids of the referenced points, in line order.
    pub points: Vec<i64>,
    /// The polyline's tags, in order.
    pub tags: Vec<Tag>,
}

/// The mathematical view of a [`Polyline`].
pub struct PolylineView {
    /// The polyline's id.
    pub id: i64,
    /// The ids of the referenced points, in line order.
    pub points: Seq<i64>,
    /// The polyline's tags, in order.
    pub tags: Seq<TagView>,
}

impl View for Polyline {
    type V = PolylineView;

    open spec fn view(&self) -> PolylineView {
        PolylineView { id: self.id, points: self.points@, tags: self.tags.deep_view() }
    }
}

impl DeepView for Polyline {
    type V = PolylineView;

    open spec fn deep_view(&self) -> PolylineView {
        self@
    }
}

/// The kind of a relation member.
#[derive(Debug, Clone, Copy, PartialEq, Eq, Structural)]
pub enum MemberKind {
    /// The member is a point.
    Point,
    /// The member is a polyline.
    Polyline,
    /// The member is another relation.
    Relation,
}

impl MemberKind {
    /// The text stored in the relation-member table's kind column.
    pub open spec fn spec_label(self) -> Seq<char> {
        match self {
            MemberKind::Point => "point"@,
            MemberKind::Polyline => "polyline"@,
            MemberKind::Relation => "relation"@,
        }
    }

    /// The text stored in the relation-member table's kind column.
    pub fn label(self) -> (r: &'static str)
        ensures
            r@ == self.spec_label(),
    {
        match self {
            MemberKind::Point => "point",
            MemberKind::Polyline => "polyline",
            MemberKind::Relation => "relation",
        }
    }
}

/// One member of a relation: a typed, role-labelled reference.
#[derive(Debug, Clone, PartialEq, Eq)]
pub struct RelMember {
    /// The id of the referenced primitive.
    pub member_id: i64,
    /// The kind of the referenced primitive.
    pub kind: MemberKind,
    /// The member's role within the relation, raw UTF-8 text.
    pub role: String,
}

/// The mathematical view of a [`RelMember`].
pub struct RelMemberView {
    /// The id of the referenced primitive.
    pub member_id: i64,
    /// The kind of the referenced primitive.
    pub kind: MemberKind,
    /// The member's role within the relation.
    pub role: Seq<char>,
}

impl View for RelMember {
    type V = RelMemberView;

    open spec fn view(&self) -> RelMemberView {
        RelMemberView { member_id: self.member_id, kind: self.kind, role: self.role@ }
    }
}

impl DeepView for RelMember {
    type V = RelMemberView;

    open spec fn deep_view(&self) -> RelMemberView {
        self@
    }
}

/// One relation: an ordered list of typed, role-labelled members with an id
/// and tags.
#[derive(Debug, Clone, PartialEq, Eq)]
pub struct Relation {
    /// The relation's id, unique among relations.
    pub id: i64,
    /// The relation's members, in order.
    pub members: Vec<RelMember>,
    /// The relation's tags, in order.
    pub tags: Vec<Tag>,
}

/// The mathematical view of a [`Relation`].
pub struct RelationView {
    /// The relation's id.
    pub id: i64,
    /// The relation's members, in order.
    pub members: Seq<RelMemberView>,
    /// The relation's tags, in order.
    pub tags: Seq<TagView>,
}

impl View for Relation {
    type V = RelationView;

    open spec fn view(&self) -> RelationView {
        RelationView { id: self.id, members: self.members.deep_view(), tags: self.tags.deep_view() }
    }
}

impl DeepView for Relation {
    type V = RelationView;

    open spec fn deep_view(&self) -> RelationView {
        self@
    }
}

/// One decoded batch: a finite, same-kind ordered run of primitives, tagged
/// with its kind by the decoder boundary.
#[derive(Debug, Clone, PartialEq, Eq)]
pub enum Batch {
    /// A batch of points.
    Points(Vec<Point>),
    /// A batch of polylines.
    Polylines(Vec<Polyline>),
    /// A batch of relations.
    Relations(Vec<Relation>),
}

/// The mathematical view of a [`Batch`].
pub enum BatchView {
    /// A batch of points.
    Points(Seq<PointView>),
    /// A batch of polylines.
    Polylines(Seq<PolylineView>),
    /// A batch of relations.
    Relations(Seq<RelationView>),
}

impl View for Batch {
    type V = BatchView;

    open spec fn view(&self) -> BatchView {
        match self {
            Batch::Points(ps) => BatchView::Points(ps.deep_view()),
            Batch::Polylines(ls) => BatchView::Polylines(ls.deep_view()),
            Batch::Relations(rs) => BatchView::Relations(rs.deep_view()),
        }
    }
}

impl DeepView for Batch {
    type V = BatchView;

    open spec fn deep_view(&self) -> BatchView {
        self@
    }
}

/// A primitive that carries an id and a tag list. One tag normalizer serves
/// the tag tables of all three primitive kinds through this trait.
pub trait Element {
    /// The owner id carried by the primitive's tag rows.
    spec fn spec_id(&self) -> i64;

    /// The primitive's tags, in order.
    spec fn spec_tags(&self) -> Seq<TagView>;

    /// The owner id carried by the primitive's tag rows.
    fn id(&self) -> (r: i64)
        ensures
            r == self.spec_id(),
    ;

    /// The primitive's tags, in order.
    fn tags(&self) -> (r: &Vec<Tag>)
        ensures
            r.deep_view() == self.spec_tags(),
    ;
}

impl Element for Point {
    open spec fn spec_id(&self) -> i64 {
        self.id
    }

    open spec fn spec_tags(&self) -> Seq<TagView> {
        self.tags.deep_view()
    }

    fn id(&self) -> (r: i64) {
        self.id
    }

    fn tags(&self) -> (r: &Vec<Tag>) {
        &self.tags
    }
}

impl Element for Polyline {
    open spec fn spec_id(&self) -> i64 {
        self.id
    }

    open spec fn spec_tags(&self) -> Seq<TagView> {
        self.tags.deep_view()
    }

    fn id(&self) -> (r: i64) {
        self.id
    }

    fn tags(&self) -> (r: &Vec<Tag>) {
        &self.tags
    }
}

impl Element for Relation {
    open spec fn spec_id(&self) -> i64 {
        self.id
    }

    open spec fn spec_tags(&self) -> Seq<TagView> {
        self.tags.deep_view()
    }

    fn id(&self) -> (r: i64) {
        self.id
    }

    fn tags(&self) -> (r: &Vec<Tag>) {
        &self.tags
    }
}

} // verus!
