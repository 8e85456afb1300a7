use bytes::Bytes;
use osm2parquet::columns::TagColumns;
use osm2parquet::schema::{MAX_CELL_CHARS, TableKind};
use osm2parquet::store::{StoreError, TagTable};
use parquet::file::reader::FileReader;
use parquet::file::serialized_reader::SerializedFileReader;
use parquet::record::RowAccessor;

#[test]
fn oversized_cell_is_refused_and_table_survives() {
    // A tag value too large for one data page is refused as a typed write
    // failure before anything reaches the writer; the table stays usable and
    // the finished file holds only the rows that fit.
    let mut table = TagTable::open(TableKind::PointTags).unwrap();

    let oversized = TagColumns {
        owners: vec![1],
        keys: vec![String::from("k")],
        values: vec!["v".repeat(MAX_CELL_CHARS + 1)],
    };
    assert_eq!(table.append(&oversized), Err(StoreError::Write(TableKind::PointTags)));

    let fitting = TagColumns {
        owners: vec![2],
        keys: vec![String::from("name")],
        values: vec![String::from("A")],
    };
    table.append(&fitting).unwrap();

    let bytes = table.close().unwrap();
    let reader = SerializedFileReader::new(Bytes::from(bytes)).unwrap();
    let rows: Vec<(i64, Vec<u8>, Vec<u8>)> = reader
        .get_row_iter(None)
        .unwrap()
        .map(|r| {
            let r = r.unwrap();
            (
                r.get_long(0).unwrap(),
                r.get_bytes(1).unwrap().data().to_vec(),
                r.get_bytes(2).unwrap().data().to_vec(),
            )
        })
        .collect();
    assert_eq!(rows, vec![(2, b"name".to_vec(), b"A".to_vec())]);
}
