use bytes::Bytes;
use osm2parquet::lane::PolylineLane;
use osm2parquet::model::Polyline;
use osm2parquet::queue::BoundedQueue;
use parquet::file::reader::FileReader;
use parquet::file::serialized_reader::SerializedFileReader;
use parquet::record::RowAccessor;

#[test]
fn queue_is_fifo() {
    let mut q: BoundedQueue<i64> = BoundedQueue::new(3);
    assert_eq!(q.len(), 0);
    q.try_push(10).unwrap();
    q.try_push(20).unwrap();
    q.try_push(30).unwrap();
    assert_eq!(q.len(), 3);
    assert_eq!(q.pop(), Some(10));
    assert_eq!(q.pop(), Some(20));
    q.try_push(40).unwrap();
    assert_eq!(q.pop(), Some(30));
    assert_eq!(q.pop(), Some(40));
    assert_eq!(q.pop(), None);
}

#[test]
fn full_queue_refuses_and_hands_back() {
    let mut q: BoundedQueue<i64> = BoundedQueue::new(1);
    q.try_push(1).unwrap();
    assert_eq!(q.try_push(2), Err(2));
    assert_eq!(q.len(), 1);
    assert_eq!(q.pop(), Some(1));
    q.try_push(2).unwrap();
    assert_eq!(q.pop(), Some(2));
}

#[test]
fn backpressure_bounds_queue_depth() {
    // A decoder producing batches faster than the lane drains them: with
    // capacity 1, the dispatcher's offers must be refused while the queue is
    // full — it waits and offers the same batch again — the depth never
    // grows past the capacity, and every decoded row still reaches the
    // table.
    let total_batches: i64 = 8;
    let mut produced: i64 = 0;
    let mut pending: Option<Vec<Polyline>> = None;
    let mut refused: usize = 0;
    let mut max_depth: usize = 0;

    let mut q: BoundedQueue<Vec<Polyline>> = BoundedQueue::new(1);
    let mut lane = PolylineLane::new(2).unwrap();

    loop {
        // The dispatcher side: offer the next batch twice per lane step, so
        // the decoder outpaces the drain.
        for _ in 0..2 {
            if pending.is_none() && produced < total_batches {
                pending = Some(vec![Polyline {
                    id: produced,
                    points: vec![produced, produced + 1],
                    tags: vec![],
                }]);
                produced += 1;
            }
            if let Some(batch) = pending.take() {
                match q.try_push(batch) {
                    Ok(()) => {}
                    Err(back) => {
                        // Blocked: the batch is neither dropped nor queued
                        // anywhere unbounded; the dispatcher holds it.
                        refused += 1;
                        pending = Some(back);
                    }
                }
            }
            max_depth = max_depth.max(q.len());
        }
        // The lane worker side: drain one batch.
        if let Some(batch) = q.pop() {
            lane.push_batch(batch).unwrap();
        } else if produced == total_batches && pending.is_none() {
            break;
        }
        max_depth = max_depth.max(q.len());
    }

    assert!(refused > 0);
    assert_eq!(max_depth, 1);

    let out = lane.finish().unwrap();
    let reader = SerializedFileReader::new(Bytes::from(out.lines)).unwrap();
    let ids: Vec<i64> =
        reader.get_row_iter(None).unwrap().map(|r| r.unwrap().get_long(0).unwrap()).collect();
    assert_eq!(ids, (0..total_batches).collect::<Vec<i64>>());
    let reader = SerializedFileReader::new(Bytes::from(out.members)).unwrap();
    assert_eq!(reader.get_row_iter(None).unwrap().count(), 2 * total_batches as usize);
}
