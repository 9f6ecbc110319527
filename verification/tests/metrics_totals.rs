use tensor_sharder::io::WriteTimings;
use tensor_sharder::metrics::{add_write_timings, ChunkPerf};
use tensor_sharder::shard::Args;

#[test]
fn write_timings_accumulate_into_totals() {
    let t1 = WriteTimings { serialize_ms: 5, hash_ms: 7, write_ms: 11, parallel_ms: 12, total_ms: 20 };
    let t2 = WriteTimings { serialize_ms: 1, hash_ms: 2, write_ms: 3, parallel_ms: 4, total_ms: 5 };
    let mut serialize_total: u128 = 0;
    let mut hash_total: u128 = 0;
    let mut write_total: u128 = 0;
    let mut parallel_total: u128 = 0;
    let mut total_total: u128 = 0;
    add_write_timings(
        &t1,
        &mut serialize_total,
        &mut hash_total,
        &mut write_total,
        &mut parallel_total,
        &mut total_total,
    );
    add_write_timings(
        &t2,
        &mut serialize_total,
        &mut hash_total,
        &mut write_total,
        &mut parallel_total,
        &mut total_total,
    );
    assert_eq!(serialize_total, 6);
    assert_eq!(hash_total, 9);
    assert_eq!(write_total, 14);
    assert_eq!(parallel_total, 16);
    assert_eq!(total_total, 25);
}

#[test]
fn perf_record_carries_the_run_shape() {
    let perf = ChunkPerf {
        id: "layers_0-3".to_string(),
        layer_start: 0,
        layer_end: 3,
        tensor_count: 4,
        bytes_read: 128,
        bytes_written: 256,
        load_deserialize_ms: 1,
        load_copy_ms: 0,
        load_total_ms: 1,
        serialize_ms: 2,
        hash_ms: 3,
        write_ms: 4,
        write_parallel_ms: 4,
        write_total_ms: 9,
        chunk_total_ms: 10,
    };
    assert_eq!(perf.id, "layers_0-3");
    assert_eq!(perf.tensor_count, 4);

    let args = Args {
        input: "in".to_string(),
        output: "out".to_string(),
        model_id: "X/Y".to_string(),
        layers_per_chunk: 4,
    };
    assert_eq!(args.layers_per_chunk, 4);
}
