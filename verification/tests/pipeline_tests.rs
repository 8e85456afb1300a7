use bytes::Bytes;
use osm2parquet::columns::PointColumns;
use osm2parquet::model::{Batch, MemberKind, Point, Polyline, RelMember, Relation, Tag};
use osm2parquet::pipeline::{RunOutput, run};
use osm2parquet::schema::{TableKind, message_type};
use parquet::data_type::{DoubleType, Int64Type};
use parquet::file::properties::WriterProperties;
use parquet::file::reader::FileReader;
use parquet::file::serialized_reader::SerializedFileReader;
use parquet::file::writer::SerializedFileWriter;
use parquet::record::{Row, RowAccessor};
use parquet::schema::parser::parse_message_type;
use std::sync::Arc;

fn tag(key: &str, value: &str) -> Tag {
    Tag { key: String::from(key), value: String::from(value) }
}

fn point(id: i64, lat: f64, lon: f64, tags: Vec<Tag>) -> Point {
    Point { id, lat_bits: lat.to_bits(), lon_bits: lon.to_bits(), tags }
}

fn read_rows(bytes: &[u8]) -> Vec<Row> {
    let reader = SerializedFileReader::new(Bytes::from(bytes.to_vec())).unwrap();
    reader.get_row_iter(None).unwrap().map(|r| r.unwrap()).collect()
}

/// Serializes the point-table row groups the way the sink does: one row group
/// per flushed group, ids as INT64 and the bit patterns turned back into
/// doubles.
fn write_points_file(groups: &[PointColumns]) -> Vec<u8> {
    let schema = Arc::new(parse_message_type(message_type(TableKind::Points)).unwrap());
    let props = Arc::new(WriterProperties::builder().build());
    let mut w = SerializedFileWriter::new(Vec::new(), schema, props).unwrap();
    for g in groups {
        let lats: Vec<f64> = g.lat_bits.iter().map(|b| f64::from_bits(*b)).collect();
        let lons: Vec<f64> = g.lon_bits.iter().map(|b| f64::from_bits(*b)).collect();
        let mut rg = w.next_row_group().unwrap();
        let mut c = rg.next_column().unwrap().unwrap();
        c.typed::<Int64Type>().write_batch(&g.ids, None, None).unwrap();
        c.close().unwrap();
        let mut c = rg.next_column().unwrap().unwrap();
        c.typed::<DoubleType>().write_batch(&lats, None, None).unwrap();
        c.close().unwrap();
        let mut c = rg.next_column().unwrap().unwrap();
        c.typed::<DoubleType>().write_batch(&lons, None, None).unwrap();
        c.close().unwrap();
        rg.close().unwrap();
    }
    w.into_inner().unwrap()
}

fn id_rows(bytes: &[u8]) -> Vec<i64> {
    read_rows(bytes).iter().map(|r| r.get_long(0).unwrap()).collect()
}

fn tag_rows(bytes: &[u8]) -> Vec<(i64, Vec<u8>, Vec<u8>)> {
    read_rows(bytes)
        .iter()
        .map(|r| {
            (
                r.get_long(0).unwrap(),
                r.get_bytes(1).unwrap().data().to_vec(),
                r.get_bytes(2).unwrap().data().to_vec(),
            )
        })
        .collect()
}

fn pair_rows(bytes: &[u8]) -> Vec<(i64, i64)> {
    read_rows(bytes).iter().map(|r| (r.get_long(0).unwrap(), r.get_long(1).unwrap())).collect()
}

fn rel_member_rows(bytes: &[u8]) -> Vec<(i64, i64, Vec<u8>, Vec<u8>)> {
    read_rows(bytes)
        .iter()
        .map(|r| {
            (
                r.get_long(0).unwrap(),
                r.get_long(1).unwrap(),
                r.get_bytes(2).unwrap().data().to_vec(),
                r.get_bytes(3).unwrap().data().to_vec(),
            )
        })
        .collect()
}

fn point_rows(bytes: &[u8]) -> Vec<(i64, f64, f64)> {
    read_rows(bytes)
        .iter()
        .map(|r| (r.get_long(0).unwrap(), r.get_double(1).unwrap(), r.get_double(2).unwrap()))
        .collect()
}

fn scenario_batches() -> Vec<Batch> {
    vec![
        Batch::Points(vec![
            point(1, 10.0, 20.0, vec![tag("name", "A")]),
            point(2, 30.0, 40.0, vec![]),
        ]),
        Batch::Polylines(vec![Polyline { id: 10, points: vec![1, 2], tags: vec![] }]),
    ]
}

#[test]
fn end_to_end_scenario() {
    let out = run(scenario_batches(), 1000).unwrap();

    let points = point_rows(&write_points_file(&out.point_groups));
    assert_eq!(points, vec![(1, 10.0, 20.0), (2, 30.0, 40.0)]);

    assert_eq!(tag_rows(&out.point_tags), vec![(1, b"name".to_vec(), b"A".to_vec())]);
    assert_eq!(id_rows(&out.polylines), vec![10]);
    assert_eq!(tag_rows(&out.polyline_tags), vec![]);
    assert_eq!(pair_rows(&out.polyline_members), vec![(10, 1), (10, 2)]);

    // No relations were decoded: the relation tables hold zero rows, yet
    // their files exist and parse as properly closed column files.
    assert_eq!(id_rows(&out.relations), vec![]);
    assert_eq!(tag_rows(&out.relation_tags), vec![]);
    assert_eq!(rel_member_rows(&out.relation_members), vec![]);
}

fn richer_batches() -> Vec<Batch> {
    vec![
        Batch::Points(vec![point(1, 1.5, -2.5, vec![tag("a", "1"), tag("a", "2")])]),
        Batch::Polylines(vec![
            Polyline { id: 7, points: vec![1, 1, 3], tags: vec![tag("highway", "path")] },
            Polyline { id: 8, points: vec![], tags: vec![] },
        ]),
        Batch::Points(vec![point(2, 0.0, 0.0, vec![]), point(3, -9.25, 8.0, vec![tag("b", "x")])]),
        Batch::Relations(vec![Relation {
            id: 99,
            members: vec![
                RelMember { member_id: 1, kind: MemberKind::Point, role: String::from("stop") },
                RelMember { member_id: 7, kind: MemberKind::Polyline, role: String::from("") },
            ],
            tags: vec![tag("type", "route")],
        }]),
        Batch::Relations(vec![]),
    ]
}

fn all_contents(out: &RunOutput) -> (
    Vec<(i64, f64, f64)>,
    Vec<(i64, Vec<u8>, Vec<u8>)>,
    Vec<i64>,
    Vec<(i64, Vec<u8>, Vec<u8>)>,
    Vec<(i64, i64)>,
    Vec<i64>,
    Vec<(i64, Vec<u8>, Vec<u8>)>,
    Vec<(i64, i64, Vec<u8>, Vec<u8>)>,
) {
    (
        point_rows(&write_points_file(&out.point_groups)),
        tag_rows(&out.point_tags),
        id_rows(&out.polylines),
        tag_rows(&out.polyline_tags),
        pair_rows(&out.polyline_members),
        id_rows(&out.relations),
        tag_rows(&out.relation_tags),
        rel_member_rows(&out.relation_members),
    )
}

#[test]
fn threshold_does_not_change_contents() {
    // Flushing after every primitive and flushing only at end-of-input must
    // leave every table with identical rows; only row-group boundaries move.
    let eager = run(richer_batches(), 1).unwrap();
    let lazy = run(richer_batches(), 1000).unwrap();
    let middle = run(richer_batches(), 2).unwrap();
    assert!(eager.point_groups.len() > lazy.point_groups.len());
    assert_eq!(all_contents(&eager), all_contents(&lazy));
    assert_eq!(all_contents(&middle), all_contents(&lazy));
}

#[test]
fn richer_scenario_contents() {
    let out = run(richer_batches(), 2).unwrap();
    let (points, point_tags, polylines, polyline_tags, polyline_members, relations, relation_tags, relation_members) =
        all_contents(&out);
    assert_eq!(points, vec![(1, 1.5, -2.5), (2, 0.0, 0.0), (3, -9.25, 8.0)]);
    assert_eq!(
        point_tags,
        vec![
            (1, b"a".to_vec(), b"1".to_vec()),
            (1, b"a".to_vec(), b"2".to_vec()),
            (3, b"b".to_vec(), b"x".to_vec()),
        ]
    );
    assert_eq!(polylines, vec![7, 8]);
    assert_eq!(polyline_tags, vec![(7, b"highway".to_vec(), b"path".to_vec())]);
    // Order preserved exactly, duplicates kept: polyline 7 references point 1
    // twice.
    assert_eq!(polyline_members, vec![(7, 1), (7, 1), (7, 3)]);
    assert_eq!(relations, vec![99]);
    assert_eq!(relation_tags, vec![(99, b"type".to_vec(), b"route".to_vec())]);
    assert_eq!(
        relation_members,
        vec![
            (99, 1, b"stop".to_vec(), b"point".to_vec()),
            (99, 7, b"".to_vec(), b"polyline".to_vec()),
        ]
    );
}

#[test]
fn empty_run_creates_all_tables() {
    // A run over no batches still creates and closes every table, each with
    // zero rows.
    let out = run(vec![], 5).unwrap();
    assert_eq!(point_rows(&write_points_file(&out.point_groups)), vec![]);
    assert_eq!(tag_rows(&out.point_tags), vec![]);
    assert_eq!(id_rows(&out.polylines), vec![]);
    assert_eq!(tag_rows(&out.polyline_tags), vec![]);
    assert_eq!(pair_rows(&out.polyline_members), vec![]);
    assert_eq!(id_rows(&out.relations), vec![]);
    assert_eq!(tag_rows(&out.relation_tags), vec![]);
    assert_eq!(rel_member_rows(&out.relation_members), vec![]);
}

#[test]
fn row_counts_conserved() {
    let out = run(richer_batches(), 3).unwrap();
    let (points, point_tags, polylines, polyline_tags, polyline_members, relations, relation_tags, relation_members) =
        all_contents(&out);
    // One row per primitive decoded.
    assert_eq!(points.len(), 3);
    assert_eq!(polylines.len(), 2);
    assert_eq!(relations.len(), 1);
    // One tag row per tag, summed over the kind's primitives.
    assert_eq!(point_tags.len(), 3);
    assert_eq!(polyline_tags.len(), 1);
    assert_eq!(relation_tags.len(), 1);
    // One member row per member reference.
    assert_eq!(polyline_members.len(), 3);
    assert_eq!(relation_members.len(), 2);
}
