use vstd::prelude::*;

verus! {

/// Offset of the first result field in the output of a finished computation.
pub const RESULT_OFFSET: usize = 48;

/// Length that an output must have to hold every result field.
pub const RESULT_END: usize = 66;

/// Why a finished computation yields no result.
#[derive(Clone, Copy, Debug, PartialEq, Eq)]
pub enum ErrorCode {
    /// The computation was aborted: it handed back no bytes.
    AbortedComputation,
}

/// The published form of a benchmark, with the computation it came from.
#[derive(Clone, Copy, Debug, PartialEq, Eq)]
pub struct BenchmarkResultEvent {
    pub average_salary: u32,
    pub median_salary: u32,
    pub percentile_25: u32,
    pub percentile_75: u32,
    pub total_entries: u8,
    pub average_experience: u8,
    pub computation_id: [u8; 32],
}

/// The little-endian `u32` held in the four bytes of `b` from `at` on.
pub open spec fn u32_le_at(b: Seq<u8>, at: int) -> int {
    b[at] + 256 * b[at + 1] + 65536 * b[at + 2] + 16777216 * b[at + 3]
}

/// The event that the output bytes `b` of a computation describe.
pub open spec fn event_of(b: Seq<u8>, computation_id: [u8; 32]) -> BenchmarkResultEvent {
    BenchmarkResultEvent {
        average_salary: u32_le_at(b, 48) as u32,
        median_salary: u32_le_at(b, 52) as u32,
        percentile_25: u32_le_at(b, 56) as u32,
        percentile_75: u32_le_at(b, 60) as u32,
        total_entries: b[64],
        average_experience: b[65],
        computation_id,
    }
}

/// Reads the little-endian `u32` at `at`.
pub fn read_u32_le(bytes: &[u8], at: usize) -> (r: u32)
    requires
        at + 4 <= bytes@.len(),
    ensures
        r as int == u32_le_at(bytes@, at as int),
{
    let b0 = bytes[at] as u32;
    let b1 = bytes[at + 1] as u32;
    let b2 = bytes[at + 2] as u32;
    let b3 = bytes[at + 3] as u32;
    b0 + 256 * b1 + 65536 * b2 + 16777216 * b3
}

/// Reads the result fields of a finished computation's output.
pub fn decode_benchmark_output(bytes: &[u8], computation_id: [u8; 32]) -> (r:
    BenchmarkResultEvent)
    requires
        bytes@.len() >= RESULT_END,
    ensures
        r == event_of(bytes@, computation_id),
{
    let average_salary = read_u32_le(bytes, RESULT_OFFSET);
    let median_salary = read_u32_le(bytes, RESULT_OFFSET + 4);
    let percentile_25 = read_u32_le(bytes, RESULT_OFFSET + 8);
    let percentile_75 = read_u32_le(bytes, RESULT_OFFSET + 12);
    BenchmarkResultEvent {
        average_salary,
        median_salary,
        percentile_25,
        percentile_75,
        total_entries: bytes[RESULT_OFFSET + 16],
        average_experience: bytes[RESULT_OFFSET + 17],
        computation_id,
    }
}

/// Turns what a computation handed back into the event to publish: the
/// decoded result where it handed back bytes, `AbortedComputation` where it
/// handed back none.
pub fn salary_benchmark_callback(output: Option<&[u8]>, computation_id: [u8; 32]) -> (r: Result<
    BenchmarkResultEvent,
    ErrorCode,
>)
    requires
        output matches Some(b) ==> b@.len() >= RESULT_END,
    ensures
        output is None ==> r == Err::<BenchmarkResultEvent, ErrorCode>(
            ErrorCode::AbortedComputation,
        ),
        output matches Some(b) ==> r == Ok::<BenchmarkResultEvent, ErrorCode>(
            event_of(b@, computation_id),
        ),
{
    match output {
        Some(bytes) => Ok(decode_benchmark_output(bytes, computation_id)),
        None => Err(ErrorCode::AbortedComputation),
    }
}

} // verus!
