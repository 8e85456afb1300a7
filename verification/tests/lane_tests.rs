use bytes::Bytes;
use osm2parquet::lane::{PointLane, PolylineLane, RelationLane};
use osm2parquet::model::{Point, Polyline, Relation, Tag};
use parquet::file::reader::FileReader;
use parquet::file::serialized_reader::SerializedFileReader;
use parquet::record::{Row, RowAccessor};

fn read_rows(bytes: &[u8]) -> Vec<Row> {
    let reader = SerializedFileReader::new(Bytes::from(bytes.to_vec())).unwrap();
    reader.get_row_iter(None).unwrap().map(|r| r.unwrap()).collect()
}

#[test]
fn empty_flush_is_a_no_op() {
    // Flushing a lane with zero buffered primitives appends zero rows and
    // leaves the table file well-formed.
    let mut lane = PolylineLane::new(3).unwrap();
    lane.flush().unwrap();
    lane.flush().unwrap();
    lane.push_batch(vec![Polyline {
        id: 4,
        points: vec![9],
        tags: vec![Tag { key: String::from("k"), value: String::from("v") }],
    }])
    .unwrap();
    let out = lane.finish().unwrap();

    let lines: Vec<i64> = read_rows(&out.lines).iter().map(|r| r.get_long(0).unwrap()).collect();
    assert_eq!(lines, vec![4]);
    let members: Vec<(i64, i64)> = read_rows(&out.members)
        .iter()
        .map(|r| (r.get_long(0).unwrap(), r.get_long(1).unwrap()))
        .collect();
    assert_eq!(members, vec![(4, 9)]);
    let tags: Vec<(i64, Vec<u8>, Vec<u8>)> = read_rows(&out.tags)
        .iter()
        .map(|r| {
            (
                r.get_long(0).unwrap(),
                r.get_bytes(1).unwrap().data().to_vec(),
                r.get_bytes(2).unwrap().data().to_vec(),
            )
        })
        .collect();
    assert_eq!(tags, vec![(4, b"k".to_vec(), b"v".to_vec())]);
}

#[test]
fn empty_point_flush_emits_empty_group() {
    let mut lane = PointLane::new(2).unwrap();
    let cols = lane.flush().unwrap();
    assert_eq!(cols.ids, Vec::<i64>::new());
    assert_eq!(cols.lat_bits, Vec::<u64>::new());
    assert_eq!(cols.lon_bits, Vec::<u64>::new());
    let out = lane.finish().unwrap();
    assert_eq!(out.group.ids, Vec::<i64>::new());
    assert_eq!(read_rows(&out.tags).len(), 0);
}

#[test]
fn point_lane_flushes_at_threshold() {
    let mut lane = PointLane::new(2).unwrap();
    let none = lane
        .push_batch(vec![Point { id: 5, lat_bits: 1, lon_bits: 2, tags: vec![] }])
        .unwrap();
    assert!(none.is_none());
    assert_eq!(lane.buffered_len(), 1);
    let some = lane
        .push_batch(vec![Point { id: 6, lat_bits: 3, lon_bits: 4, tags: vec![] }])
        .unwrap();
    let cols = some.unwrap();
    assert_eq!(cols.ids, vec![5, 6]);
    assert_eq!(cols.lat_bits, vec![1, 3]);
    assert_eq!(cols.lon_bits, vec![2, 4]);
    assert_eq!(lane.buffered_len(), 0);
}

#[test]
fn relation_lane_empty_finish() {
    let lane = RelationLane::new(7).unwrap();
    let out = lane.finish().unwrap();
    assert_eq!(read_rows(&out.relations).len(), 0);
    assert_eq!(read_rows(&out.tags).len(), 0);
    assert_eq!(read_rows(&out.members).len(), 0);
}

#[test]
fn relation_lane_buffers_until_threshold() {
    let mut lane = RelationLane::new(10).unwrap();
    lane.push_batch(vec![Relation { id: 1, members: vec![], tags: vec![] }]).unwrap();
    lane.push_batch(vec![Relation { id: 2, members: vec![], tags: vec![] }]).unwrap();
    assert_eq!(lane.buffered_len(), 2);
    let out = lane.finish().unwrap();
    let ids: Vec<i64> = read_rows(&out.relations).iter().map(|r| r.get_long(0).unwrap()).collect();
    assert_eq!(ids, vec![1, 2]);
}
