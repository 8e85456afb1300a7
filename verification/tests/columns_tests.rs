use osm2parquet::columns::{
    line_member_columns, point_columns, polyline_id_column, rel_member_columns,
    relation_id_column, tag_columns,
};
use osm2parquet::model::{MemberKind, Point, Polyline, RelMember, Relation, Tag};

fn tag(key: &str, value: &str) -> Tag {
    Tag { key: String::from(key), value: String::from(value) }
}

#[test]
fn point_columns_are_parallel_and_ordered() {
    let ps = vec![
        Point { id: 3, lat_bits: 30, lon_bits: 31, tags: vec![] },
        Point { id: 1, lat_bits: 10, lon_bits: 11, tags: vec![] },
        Point { id: 2, lat_bits: 20, lon_bits: 21, tags: vec![] },
    ];
    let cols = point_columns(&ps);
    assert_eq!(cols.ids, vec![3, 1, 2]);
    assert_eq!(cols.lat_bits, vec![30, 10, 20]);
    assert_eq!(cols.lon_bits, vec![31, 11, 21]);
}

#[test]
fn tag_columns_repeat_owner_and_keep_order() {
    let ps = vec![
        Point { id: 1, lat_bits: 0, lon_bits: 0, tags: vec![tag("b", "2"), tag("a", "1")] },
        Point { id: 2, lat_bits: 0, lon_bits: 0, tags: vec![] },
        Point { id: 3, lat_bits: 0, lon_bits: 0, tags: vec![tag("a", "3")] },
    ];
    let cols = tag_columns(&ps);
    assert_eq!(cols.owners, vec![1, 1, 3]);
    assert_eq!(cols.keys, vec!["b", "a", "a"]);
    assert_eq!(cols.values, vec!["2", "1", "3"]);
}

#[test]
fn tag_columns_serve_every_kind() {
    let ls = vec![Polyline { id: 5, points: vec![], tags: vec![tag("x", "y")] }];
    let cols = tag_columns(&ls);
    assert_eq!(cols.owners, vec![5]);
    let rs = vec![Relation { id: 6, members: vec![], tags: vec![tag("p", "q")] }];
    let cols = tag_columns(&rs);
    assert_eq!(cols.owners, vec![6]);
    assert_eq!(cols.keys, vec!["p"]);
}

#[test]
fn line_member_columns_keep_order_and_duplicates() {
    let ls = vec![
        Polyline { id: 10, points: vec![5, 5, 3], tags: vec![] },
        Polyline { id: 11, points: vec![], tags: vec![] },
        Polyline { id: 12, points: vec![8], tags: vec![] },
    ];
    let cols = line_member_columns(&ls);
    assert_eq!(cols.lines, vec![10, 10, 10, 12]);
    assert_eq!(cols.points, vec![5, 5, 3, 8]);
}

#[test]
fn rel_member_columns_carry_roles_and_kind_labels() {
    let rs = vec![Relation {
        id: 20,
        members: vec![
            RelMember { member_id: 1, kind: MemberKind::Point, role: String::from("from") },
            RelMember { member_id: 2, kind: MemberKind::Polyline, role: String::from("via") },
            RelMember { member_id: 3, kind: MemberKind::Relation, role: String::from("") },
        ],
        tags: vec![],
    }];
    let cols = rel_member_columns(&rs);
    assert_eq!(cols.relations, vec![20, 20, 20]);
    assert_eq!(cols.members, vec![1, 2, 3]);
    assert_eq!(cols.roles, vec!["from", "via", ""]);
    assert_eq!(cols.kinds, vec!["point", "polyline", "relation"]);
}

#[test]
fn id_columns_list_each_primitive_once() {
    let ls = vec![
        Polyline { id: 1, points: vec![9, 9], tags: vec![] },
        Polyline { id: 2, points: vec![], tags: vec![] },
    ];
    assert_eq!(polyline_id_column(&ls), vec![1, 2]);
    let rs = vec![Relation { id: 7, members: vec![], tags: vec![] }];
    assert_eq!(relation_id_column(&rs), vec![7]);
}

#[test]
fn member_kind_labels() {
    assert_eq!(MemberKind::Point.label(), "point");
    assert_eq!(MemberKind::Polyline.label(), "polyline");
    assert_eq!(MemberKind::Relation.label(), "relation");
}
