use confidential_bench::callback::{
    decode_benchmark_output, read_u32_le, salary_benchmark_callback, ErrorCode,
};

fn output_bytes() -> Vec<u8> {
    let mut bytes = vec![0xAAu8; 48];
    bytes.extend_from_slice(&60000u32.to_le_bytes());
    bytes.extend_from_slice(&55000u32.to_le_bytes());
    bytes.extend_from_slice(&50000u32.to_le_bytes());
    bytes.extend_from_slice(&70000u32.to_le_bytes());
    bytes.push(3);
    bytes.push(5);
    bytes
}

#[test]
fn read_little_endian() {
    assert_eq!(read_u32_le(&[0x78, 0x56, 0x34, 0x12], 0), 0x12345678);
    assert_eq!(read_u32_le(&[0, 0xFF, 0xFF, 0xFF, 0xFF], 1), u32::MAX);
}

#[test]
fn decode_reads_fields_at_offsets() {
    let id = [7u8; 32];
    let e = decode_benchmark_output(&output_bytes(), id);
    assert_eq!(e.average_salary, 60000);
    assert_eq!(e.median_salary, 55000);
    assert_eq!(e.percentile_25, 50000);
    assert_eq!(e.percentile_75, 70000);
    assert_eq!(e.total_entries, 3);
    assert_eq!(e.average_experience, 5);
    assert_eq!(e.computation_id, id);
}

#[test]
fn callback_with_bytes_publishes() {
    let bytes = output_bytes();
    let r = salary_benchmark_callback(Some(&bytes[..]), [1u8; 32]).unwrap();
    assert_eq!(r.median_salary, 55000);
    assert_eq!(r.total_entries, 3);
}

#[test]
fn callback_without_bytes_is_aborted() {
    assert_eq!(salary_benchmark_callback(None, [0u8; 32]), Err(ErrorCode::AbortedComputation));
}
