use osm2parquet::schema::ColumnType::{Double, Int64, Text};
use osm2parquet::schema::{TableKind, columns, file_name, message_type};
use parquet::schema::parser::parse_message_type;

const ALL_KINDS: [TableKind; 8] = [
    TableKind::Points,
    TableKind::PointTags,
    TableKind::Polylines,
    TableKind::PolylineTags,
    TableKind::PolylineMembers,
    TableKind::Relations,
    TableKind::RelationTags,
    TableKind::RelationMembers,
];

#[test]
fn every_schema_text_parses() {
    for kind in ALL_KINDS {
        let parsed = parse_message_type(message_type(kind)).unwrap();
        assert_eq!(parsed.get_fields().len(), columns(kind).len());
    }
}

#[test]
fn column_layouts_are_fixed() {
    assert_eq!(columns(TableKind::Points), vec![Int64, Double, Double]);
    assert_eq!(columns(TableKind::PointTags), vec![Int64, Text, Text]);
    assert_eq!(columns(TableKind::Polylines), vec![Int64]);
    assert_eq!(columns(TableKind::PolylineTags), vec![Int64, Text, Text]);
    assert_eq!(columns(TableKind::PolylineMembers), vec![Int64, Int64]);
    assert_eq!(columns(TableKind::Relations), vec![Int64]);
    assert_eq!(columns(TableKind::RelationTags), vec![Int64, Text, Text]);
    assert_eq!(columns(TableKind::RelationMembers), vec![Int64, Int64, Text, Text]);
}

#[test]
fn point_schema_text_is_exact() {
    assert_eq!(
        message_type(TableKind::Points),
        "message schema {\n    REQUIRED INT64 id;\n    REQUIRED DOUBLE lat;\n    REQUIRED DOUBLE lon;\n}"
    );
}

#[test]
fn file_names_follow_table_names() {
    assert_eq!(file_name(TableKind::Points), "points.parquet");
    assert_eq!(file_name(TableKind::PointTags), "point-tags.parquet");
    assert_eq!(file_name(TableKind::Polylines), "polylines.parquet");
    assert_eq!(file_name(TableKind::PolylineTags), "polyline-tags.parquet");
    assert_eq!(file_name(TableKind::PolylineMembers), "polyline-members.parquet");
    assert_eq!(file_name(TableKind::Relations), "relations.parquet");
    assert_eq!(file_name(TableKind::RelationTags), "relation-tags.parquet");
    assert_eq!(file_name(TableKind::RelationMembers), "relation-members.parquet");
}
