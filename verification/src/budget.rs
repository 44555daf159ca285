//! The search budget: defaults for omitted arguments and the bounds that
//! caller-supplied values are clamped to.
use vstd::prelude::*;

verus! {

pub const MAX_TOTAL_HITS: usize = 300;
pub const MAX_HITS_PER_FILE: usize = 999;
pub const MAX_LINE_CHARS: usize = 240;
pub const MAX_TOTAL_CHARS: usize = 12000;
pub const PROCESS_OUTPUT_BYTES: usize = 2000000;
pub const MIN_TOTAL_HITS: usize = 1;
pub const MAX_TOTAL_HITS_LIMIT: usize = 5000;
pub const MIN_HITS_PER_FILE: usize = 1;
pub const MAX_HITS_PER_FILE_LIMIT: usize = 5000;
pub const MIN_LINE_CHARS: usize = 40;
pub const MAX_LINE_CHARS_LIMIT: usize = 5000;
pub const MIN_TOTAL_CHARS: usize = 1000;
pub const MAX_TOTAL_CHARS_LIMIT: usize = 500000;
pub const MIN_OFFSET: usize = 0;
pub const MAX_OFFSET: usize = 1000000;
pub const PROCESS_LINE_MULTIPLIER: usize = 30;
pub const FILE_SCAN_LINE_MULTIPLIER: usize = 20;
pub const FILES_ONLY_MIN_LINE_LIMIT: usize = 20;
pub const MIN_FILES_ONLY_CANDIDATE_CHARS: usize = 1000;
pub const FILES_ONLY_CANDIDATE_CHAR_MULTIPLIER: usize = 20;
pub const NEXT_FILES_BATCH_SIZE: usize = 10;
pub const NEXT_FIND_MAX_TOTAL_HITS: usize = 20;
pub const LIMITED_FILES_REPORT_LIMIT: usize = 20;
pub const READ_CHUNK_BYTES: usize = 65536;
pub const STDERR_CAPTURE_BYTES: usize = 65536;
pub const MATCH_ALL_PROBE_OUTPUT_BYTES: usize = 65536;
pub const MATCH_ALL_PROBE_LINES: usize = 2;
pub const MAX_RECORDS_EXAMINED: usize = 200000;
pub const MAX_RECORDS_EXAMINED_LIMIT: usize = 5000000;
pub const MIN_FILE_BYTES: u64 = 1;
pub const MAX_FILE_BYTES: u64 = 64000000;
pub const MAX_FILE_BYTES_LIMIT: u64 = 1000000000;
pub const JSON_LARGE_LIST_ITEMS: usize = 50;
pub const JSON_LARGE_SCALAR_SKIP_CHARS: usize = 2000;
pub const JSON_FLATTEN_VALUE_CHARS: usize = 5000;
pub const STDERR_CHARS: usize = 1000;

/// The integer part of the search budget. Omitted arguments take these
/// defaults; supplied ones are clamped to the `min_*`/`*_limit` bounds.
/// (Time limits are kept by the caller that runs the processes.)
pub struct Budget {
    pub max_total_hits: usize,
    pub max_hits_per_file: usize,
    pub max_line_chars: usize,
    pub max_total_chars: usize,
    pub process_output_bytes: usize,
    pub min_total_hits: usize,
    pub max_total_hits_limit: usize,
    pub min_hits_per_file: usize,
    pub max_hits_per_file_limit: usize,
    pub min_line_chars: usize,
    pub max_line_chars_limit: usize,
    pub min_total_chars: usize,
    pub max_total_chars_limit: usize,
    pub min_offset: usize,
    pub max_offset: usize,
    pub process_line_multiplier: usize,
    pub file_scan_line_multiplier: usize,
    pub files_only_min_line_limit: usize,
    pub min_files_only_candidate_chars: usize,
    pub files_only_candidate_char_multiplier: usize,
    pub next_files_batch_size: usize,
    pub next_find_max_total_hits: usize,
    pub limited_files_report_limit: usize,
    pub read_chunk_bytes: usize,
    pub stderr_capture_bytes: usize,
    pub match_all_probe_output_bytes: usize,
    pub match_all_probe_lines: usize,
    pub max_records_examined: usize,
    pub max_records_examined_limit: usize,
    pub min_file_bytes: u64,
    pub max_file_bytes: u64,
    pub max_file_bytes_limit: u64,
    pub json_large_list_items: usize,
    pub json_large_scalar_skip_chars: usize,
    pub json_flatten_value_chars: usize,
    pub stderr_chars: usize,
}

impl Budget {
    /// The default budget; each field equals the constant of the same name.
    pub fn default_budget() -> (b: Budget)
        ensures
            b.max_total_hits == MAX_TOTAL_HITS,
            b.max_hits_per_file == MAX_HITS_PER_FILE,
            b.max_line_chars == MAX_LINE_CHARS,
            b.max_total_chars == MAX_TOTAL_CHARS,
            b.process_output_bytes == PROCESS_OUTPUT_BYTES,
            b.min_total_hits == MIN_TOTAL_HITS,
            b.max_total_hits_limit == MAX_TOTAL_HITS_LIMIT,
            b.min_hits_per_file == MIN_HITS_PER_FILE,
            b.max_hits_per_file_limit == MAX_HITS_PER_FILE_LIMIT,
            b.min_line_chars == MIN_LINE_CHARS,
            b.max_line_chars_limit == MAX_LINE_CHARS_LIMIT,
            b.min_total_chars == MIN_TOTAL_CHARS,
            b.max_total_chars_limit == MAX_TOTAL_CHARS_LIMIT,
            b.min_offset == MIN_OFFSET,
            b.max_offset == MAX_OFFSET,
            b.process_line_multiplier == PROCESS_LINE_MULTIPLIER,
            b.file_scan_line_multiplier == FILE_SCAN_LINE_MULTIPLIER,
            b.files_only_min_line_limit == FILES_ONLY_MIN_LINE_LIMIT,
            b.min_files_only_candidate_chars == MIN_FILES_ONLY_CANDIDATE_CHARS,
            b.files_only_candidate_char_multiplier == FILES_ONLY_CANDIDATE_CHAR_MULTIPLIER,
            b.next_files_batch_size == NEXT_FILES_BATCH_SIZE,
            b.next_find_max_total_hits == NEXT_FIND_MAX_TOTAL_HITS,
            b.limited_files_report_limit == LIMITED_FILES_REPORT_LIMIT,
            b.read_chunk_bytes == READ_CHUNK_BYTES,
            b.stderr_capture_bytes == STDERR_CAPTURE_BYTES,
            b.match_all_probe_output_bytes == MATCH_ALL_PROBE_OUTPUT_BYTES,
            b.match_all_probe_lines == MATCH_ALL_PROBE_LINES,
            b.max_records_examined == MAX_RECORDS_EXAMINED,
            b.max_records_examined_limit == MAX_RECORDS_EXAMINED_LIMIT,
            b.min_file_bytes == MIN_FILE_BYTES,
            b.max_file_bytes == MAX_FILE_BYTES,
            b.max_file_bytes_limit == MAX_FILE_BYTES_LIMIT,
            b.json_large_list_items == JSON_LARGE_LIST_ITEMS,
            b.json_large_scalar_skip_chars == JSON_LARGE_SCALAR_SKIP_CHARS,
            b.json_flatten_value_chars == JSON_FLATTEN_VALUE_CHARS,
            b.stderr_chars == STDERR_CHARS,
    {
        Budget {
            max_total_hits: MAX_TOTAL_HITS,
            max_hits_per_file: MAX_HITS_PER_FILE,
            max_line_chars: MAX_LINE_CHARS,
            max_total_chars: MAX_TOTAL_CHARS,
            process_output_bytes: PROCESS_OUTPUT_BYTES,
            min_total_hits: MIN_TOTAL_HITS,
            max_total_hits_limit: MAX_TOTAL_HITS_LIMIT,
            min_hits_per_file: MIN_HITS_PER_FILE,
            max_hits_per_file_limit: MAX_HITS_PER_FILE_LIMIT,
            min_line_chars: MIN_LINE_CHARS,
            max_line_chars_limit: MAX_LINE_CHARS_LIMIT,
            min_total_chars: MIN_TOTAL_CHARS,
            max_total_chars_limit: MAX_TOTAL_CHARS_LIMIT,
            min_offset: MIN_OFFSET,
            max_offset: MAX_OFFSET,
            process_line_multiplier: PROCESS_LINE_MULTIPLIER,
            file_scan_line_multiplier: FILE_SCAN_LINE_MULTIPLIER,
            files_only_min_line_limit: FILES_ONLY_MIN_LINE_LIMIT,
            min_files_only_candidate_chars: MIN_FILES_ONLY_CANDIDATE_CHARS,
            files_only_candidate_char_multiplier: FILES_ONLY_CANDIDATE_CHAR_MULTIPLIER,
            next_files_batch_size: NEXT_FILES_BATCH_SIZE,
            next_find_max_total_hits: NEXT_FIND_MAX_TOTAL_HITS,
            limited_files_report_limit: LIMITED_FILES_REPORT_LIMIT,
            read_chunk_bytes: READ_CHUNK_BYTES,
            stderr_capture_bytes: STDERR_CAPTURE_BYTES,
            match_all_probe_output_bytes: MATCH_ALL_PROBE_OUTPUT_BYTES,
            match_all_probe_lines: MATCH_ALL_PROBE_LINES,
            max_records_examined: MAX_RECORDS_EXAMINED,
            max_records_examined_limit: MAX_RECORDS_EXAMINED_LIMIT,
            min_file_bytes: MIN_FILE_BYTES,
            max_file_bytes: MAX_FILE_BYTES,
            max_file_bytes_limit: MAX_FILE_BYTES_LIMIT,
            json_large_list_items: JSON_LARGE_LIST_ITEMS,
            json_large_scalar_skip_chars: JSON_LARGE_SCALAR_SKIP_CHARS,
            json_flatten_value_chars: JSON_FLATTEN_VALUE_CHARS,
            stderr_chars: STDERR_CHARS,
        }
    }
}

/// `v` held within `[lo, hi]`.
pub open spec fn clamped(v: int, lo: int, hi: int) -> int {
    if v < lo {
        lo
    } else if v > hi {
        hi
    } else {
        v
    }
}

/// The supplied value, or `default` when there is none, held within
/// `[lo, hi]`.
pub fn clamp_usize(x: Option<usize>, lo: usize, hi: usize, default: usize) -> (res: usize)
    requires
        lo <= hi,
    ensures
        res == clamped(
            match x {
                Some(v) => v as int,
                None => default as int,
            },
            lo as int,
            hi as int,
        ),
        lo <= res <= hi,
{
    let v = match x {
        Some(v) => v,
        None => default,
    };
    if v < lo {
        lo
    } else if v > hi {
        hi
    } else {
        v
    }
}

/// The supplied value, or `default` when there is none, held within
/// `[lo, hi]`.
pub fn clamp_u64(x: Option<u64>, lo: u64, hi: u64, default: u64) -> (res: u64)
    requires
        lo <= hi,
    ensures
        res == clamped(
            match x {
                Some(v) => v as int,
                None => default as int,
            },
            lo as int,
            hi as int,
        ),
        lo <= res <= hi,
{
    let v = match x {
        Some(v) => v,
        None => default,
    };
    if v < lo {
        lo
    } else if v > hi {
        hi
    } else {
        v
    }
}

/// Law: an omitted argument takes its default when the default lies within
/// the bounds, and a supplied one is never moved when it already lies
/// within them.
pub proof fn law_clamp_keeps_in_range_values(v: int, lo: int, hi: int)
    requires
        lo <= v <= hi,
    ensures
        clamped(v, lo, hi) == v,
{
}

} // verus!
