//! The decision logic of a whole run.
//!
//! The surrounding program walks the input folder, reads files and writes
//! the output; everything it decides — which configuration aborts a run,
//! and how a batch of per-file results folds into the output lines, the
//! failure list and the statistics — is verified here. The folds state
//! completeness (every result is counted) and exact byte accounting.

use vstd::prelude::*;
use vstd::string::*;

use crate::cli::WriteMode;
use crate::error::JConvertError;
use crate::processor::ProcessResult;
use crate::stats::Statistics;
use crate::stats::dec_digits;
use crate::stats::u64_to_dec;

verus! {

/// How many results carry a serialized line.
pub open spec fn count_serialized(rs: Seq<ProcessResult>) -> nat
    decreases rs.len(),
{
    if rs.len() == 0 {
        0
    } else {
        (if rs[0].json_line is Some {
            1nat
        } else {
            0nat
        }) + count_serialized(rs.skip(1))
    }
}

/// How many results carry a failure instead of a line.
pub open spec fn count_failed(rs: Seq<ProcessResult>) -> nat
    decreases rs.len(),
{
    if rs.len() == 0 {
        0
    } else {
        (if rs[0].json_line is None && rs[0].error is Some {
            1nat
        } else {
            0nat
        }) + count_failed(rs.skip(1))
    }
}

/// How many results were found valid.
pub open spec fn count_valid(rs: Seq<ProcessResult>) -> nat
    decreases rs.len(),
{
    if rs.len() == 0 {
        0
    } else {
        (if rs[0].is_valid {
            1nat
        } else {
            0nat
        }) + count_valid(rs.skip(1))
    }
}

/// How many results were found invalid.
pub open spec fn count_invalid(rs: Seq<ProcessResult>) -> nat
    decreases rs.len(),
{
    if rs.len() == 0 {
        0
    } else {
        (if !rs[0].is_valid {
            1nat
        } else {
            0nat
        }) + count_invalid(rs.skip(1))
    }
}

/// The source bytes of the results that carry a line.
pub open spec fn sum_serialized_sizes(rs: Seq<ProcessResult>) -> nat
    decreases rs.len(),
{
    if rs.len() == 0 {
        0
    } else {
        (if rs[0].json_line is Some {
            rs[0].file_size as nat
        } else {
            0nat
        }) + sum_serialized_sizes(rs.skip(1))
    }
}

/// The source bytes of the results that were found valid.
pub open spec fn sum_valid_sizes(rs: Seq<ProcessResult>) -> nat
    decreases rs.len(),
{
    if rs.len() == 0 {
        0
    } else {
        (if rs[0].is_valid {
            rs[0].file_size as nat
        } else {
            0nat
        }) + sum_valid_sizes(rs.skip(1))
    }
}

/// The output bytes the serialized lines take: each line's length plus
/// its newline byte.
pub open spec fn sum_line_bytes(rs: Seq<ProcessResult>) -> nat
    decreases rs.len(),
{
    if rs.len() == 0 {
        0
    } else {
        (match rs[0].json_line {
            Some(line) => vstd::utf8::encode_utf8(line@).len() + 1,
            None => 0nat,
        }) + sum_line_bytes(rs.skip(1))
    }
}

/// The serialized lines, in result order.
pub open spec fn serialized_lines(rs: Seq<ProcessResult>) -> Seq<Seq<char>>
    decreases rs.len(),
{
    if rs.len() == 0 {
        Seq::empty()
    } else {
        (match rs[0].json_line {
            Some(line) => seq![line@],
            None => Seq::empty(),
        }) + serialized_lines(rs.skip(1))
    }
}

/// The path and reason of every failed result, in result order.
pub open spec fn failure_entries(rs: Seq<ProcessResult>) -> Seq<(Seq<char>, Seq<char>)>
    decreases rs.len(),
{
    if rs.len() == 0 {
        Seq::empty()
    } else {
        (if rs[0].json_line is None && rs[0].error is Some {
            seq![(rs[0].path@, rs[0].error->0@)]
        } else {
            Seq::empty()
        }) + failure_entries(rs.skip(1))
    }
}

/// The path and reason of every invalid result, in result order.
pub open spec fn invalid_entries(rs: Seq<ProcessResult>) -> Seq<(Seq<char>, Seq<char>)>
    decreases rs.len(),
{
    if rs.len() == 0 {
        Seq::empty()
    } else {
        (if !rs[0].is_valid && rs[0].error is Some {
            seq![(rs[0].path@, rs[0].error->0@)]
        } else {
            Seq::empty()
        }) + invalid_entries(rs.skip(1))
    }
}

/// Completeness of a conversion: when every result either carries a line
/// or carries a failure, lines and failures together cover the batch.
pub proof fn lemma_conversion_completeness(rs: Seq<ProcessResult>)
    requires
        forall|i: int| 0 <= i < rs.len() ==> (#[trigger] rs[i]).json_line is Some
            || rs[i].error is Some,
    ensures
        count_serialized(rs) + count_failed(rs) == rs.len(),
    decreases rs.len(),
{
    if rs.len() > 0 {
        assert(rs[0].json_line is Some || rs[0].error is Some);
        lemma_conversion_completeness(rs.skip(1));
    }
}

/// No result is counted twice: lines and failures never overlap, so the
/// success and error counts together never exceed the batch.
pub proof fn lemma_counts_bounded(rs: Seq<ProcessResult>)
    ensures
        count_serialized(rs) + count_failed(rs) <= rs.len(),
    decreases rs.len(),
{
    if rs.len() > 0 {
        lemma_counts_bounded(rs.skip(1));
    }
}

/// Completeness of a validation: every result is either valid or invalid,
/// so the two counts always cover the batch.
pub proof fn lemma_validation_completeness(rs: Seq<ProcessResult>)
    ensures
        count_valid(rs) + count_invalid(rs) == rs.len(),
    decreases rs.len(),
{
    if rs.len() > 0 {
        lemma_validation_completeness(rs.skip(1));
    }
}

/// Fold a batch of conversion results into the statistics: every line is
/// collected for writing in order and counted with its source and output
/// bytes; every failure is collected with its reason and counted.
pub fn fold_conversion_results(results: &Vec<ProcessResult>, stats: &mut Statistics) -> (out: (
    Vec<String>,
    Vec<(String, String)>,
))
    requires
        old(stats).success_count + results@.len() <= usize::MAX,
        old(stats).error_count + results@.len() <= usize::MAX,
        old(stats).total_bytes_read + sum_serialized_sizes(results@) <= u64::MAX,
        old(stats).total_bytes_written + sum_line_bytes(results@) <= u64::MAX,
    ensures
        final(stats).success_count == old(stats).success_count + count_serialized(results@),
        final(stats).error_count == old(stats).error_count + count_failed(results@),
        final(stats).total_bytes_read == old(stats).total_bytes_read + sum_serialized_sizes(
            results@,
        ),
        final(stats).total_bytes_written == old(stats).total_bytes_written + sum_line_bytes(
            results@,
        ),
        final(stats).validation_failed == old(stats).validation_failed,
        final(stats).total_files == old(stats).total_files,
        out.0.deep_view() == serialized_lines(results@),
        out.1.deep_view() == failure_entries(results@),
        (forall|i: int| 0 <= i < results@.len() ==> (#[trigger] results@[i]).json_line is Some
            || results@[i].error is Some) ==> final(stats).success_count + final(stats).error_count
            == old(stats).success_count + old(stats).error_count + results@.len(),
{
    let ghost st0 = *stats;
    let ghost rs = results@;
    let mut lines: Vec<String> = Vec::new();
    let mut errors: Vec<(String, String)> = Vec::new();
    let mut i: usize = 0;
    proof {
        assert(rs.skip(0) =~= rs);
    }
    while i < results.len()
        invariant
            i <= results.len(),
            rs == results@,
            st0 == *old(stats),
            st0.success_count + rs.len() <= usize::MAX,
            st0.error_count + rs.len() <= usize::MAX,
            st0.total_bytes_read + sum_serialized_sizes(rs) <= u64::MAX,
            st0.total_bytes_written + sum_line_bytes(rs) <= u64::MAX,
            stats.success_count + count_serialized(rs.skip(i as int)) == st0.success_count
                + count_serialized(rs),
            stats.error_count + count_failed(rs.skip(i as int)) == st0.error_count + count_failed(
                rs,
            ),
            stats.total_bytes_read + sum_serialized_sizes(rs.skip(i as int))
                == st0.total_bytes_read + sum_serialized_sizes(rs),
            stats.total_bytes_written + sum_line_bytes(rs.skip(i as int))
                == st0.total_bytes_written + sum_line_bytes(rs),
            stats.validation_failed == st0.validation_failed,
            stats.total_files == st0.total_files,
            stats.success_count <= st0.success_count + i,
            stats.error_count <= st0.error_count + i,
            lines.deep_view() + serialized_lines(rs.skip(i as int)) == serialized_lines(rs),
            errors.deep_view() + failure_entries(rs.skip(i as int)) == failure_entries(rs),
        decreases results.len() - i,
    {
        proof {
            assert(rs.skip(i as int)[0] == rs[i as int]);
            assert(rs.skip(i as int).skip(1) =~= rs.skip(i + 1));
        }
        let r = &results[i];
        match &r.json_line {
            Some(line) => {
                let line_bytes = line.as_str().as_bytes().len() as u64 + 1;
                stats.add_bytes_read(r.file_size);
                stats.add_bytes_written(line_bytes);
                stats.increment_success();
                let ghost before = lines.deep_view();
                lines.push(line.clone());
                proof {
                    assert(lines.deep_view() =~= before.push(line@));
                    assert(before.push(line@) + serialized_lines(rs.skip(i + 1)) =~= before + (
                    seq![line@] + serialized_lines(rs.skip(i + 1))));
                }
            },
            None => {
                match &r.error {
                    Some(reason) => {
                        stats.increment_error();
                        let ghost before = errors.deep_view();
                        errors.push((r.path.clone(), reason.clone()));
                        proof {
                            assert(errors.deep_view() =~~= before.push((r.path@, reason@)));
                            assert(before.push((r.path@, reason@)) + failure_entries(
                                rs.skip(i + 1),
                            ) =~= before + (seq![(r.path@, reason@)] + failure_entries(
                                rs.skip(i + 1),
                            )));
                        }
                    },
                    None => {
                    },
                }
            },
        }
        i = i + 1;
    }
    proof {
        assert(rs.skip(rs.len() as int) =~= Seq::<ProcessResult>::empty());
        assert(lines.deep_view() + Seq::<Seq<char>>::empty() =~= lines.deep_view());
        assert(errors.deep_view() + Seq::<(Seq<char>, Seq<char>)>::empty() =~= errors.deep_view());
        if forall|j: int| 0 <= j < rs.len() ==> (#[trigger] rs[j]).json_line is Some
            || rs[j].error is Some {
            lemma_conversion_completeness(rs);
        }
    }
    (lines, errors)
}

/// Fold a batch of validation results into the statistics: every valid
/// file is counted with its size, every invalid one is counted and its
/// reason collected. Valid and invalid together always cover the batch.
pub fn fold_validation_results(results: &Vec<ProcessResult>, stats: &mut Statistics) -> (errors:
    Vec<(String, String)>)
    requires
        old(stats).success_count + results@.len() <= usize::MAX,
        old(stats).validation_failed + results@.len() <= usize::MAX,
        old(stats).total_bytes_read + sum_valid_sizes(results@) <= u64::MAX,
    ensures
        final(stats).success_count == old(stats).success_count + count_valid(results@),
        final(stats).validation_failed == old(stats).validation_failed + count_invalid(results@),
        final(stats).total_bytes_read == old(stats).total_bytes_read + sum_valid_sizes(results@),
        final(stats).error_count == old(stats).error_count,
        final(stats).total_bytes_written == old(stats).total_bytes_written,
        final(stats).total_files == old(stats).total_files,
        errors.deep_view() == invalid_entries(results@),
        final(stats).success_count + final(stats).validation_failed == old(stats).success_count
            + old(stats).validation_failed + results@.len(),
{
    let ghost st0 = *stats;
    let ghost rs = results@;
    let mut errors: Vec<(String, String)> = Vec::new();
    let mut i: usize = 0;
    proof {
        assert(rs.skip(0) =~= rs);
    }
    while i < results.len()
        invariant
            i <= results.len(),
            rs == results@,
            st0 == *old(stats),
            st0.success_count + rs.len() <= usize::MAX,
            st0.validation_failed + rs.len() <= usize::MAX,
            st0.total_bytes_read + sum_valid_sizes(rs) <= u64::MAX,
            stats.success_count + count_valid(rs.skip(i as int)) == st0.success_count + count_valid(
                rs,
            ),
            stats.validation_failed + count_invalid(rs.skip(i as int)) == st0.validation_failed
                + count_invalid(rs),
            stats.total_bytes_read + sum_valid_sizes(rs.skip(i as int)) == st0.total_bytes_read
                + sum_valid_sizes(rs),
            stats.error_count == st0.error_count,
            stats.total_bytes_written == st0.total_bytes_written,
            stats.total_files == st0.total_files,
            stats.success_count <= st0.success_count + i,
            stats.validation_failed <= st0.validation_failed + i,
            errors.deep_view() + invalid_entries(rs.skip(i as int)) == invalid_entries(rs),
        decreases results.len() - i,
    {
        proof {
            assert(rs.skip(i as int)[0] == rs[i as int]);
            assert(rs.skip(i as int).skip(1) =~= rs.skip(i + 1));
        }
        let r = &results[i];
        if r.is_valid {
            stats.increment_success();
            stats.add_bytes_read(r.file_size);
        } else {
            stats.increment_validation_failed();
            match &r.error {
                Some(reason) => {
                    let ghost before = errors.deep_view();
                    errors.push((r.path.clone(), reason.clone()));
                    proof {
                        assert(errors.deep_view() =~~= before.push((r.path@, reason@)));
                        assert(before.push((r.path@, reason@)) + invalid_entries(rs.skip(i + 1))
                            =~= before + (seq![(r.path@, reason@)] + invalid_entries(
                            rs.skip(i + 1),
                        )));
                    }
                },
                None => {
                },
            }
        }
        i = i + 1;
    }
    proof {
        assert(rs.skip(rs.len() as int) =~= Seq::<ProcessResult>::empty());
        assert(errors.deep_view() + Seq::<(Seq<char>, Seq<char>)>::empty() =~= errors.deep_view());
        lemma_validation_completeness(rs);
    }
    errors
}

/// Whether a conversion fold of this batch stays within the counters'
/// ranges. The caller of `fold_conversion_results` owes it exactly this.
pub fn conversion_fold_fits(results: &Vec<ProcessResult>, stats: &Statistics) -> (r: bool)
    ensures
        r == (stats.success_count + results@.len() <= usize::MAX && stats.error_count
            + results@.len() <= usize::MAX && stats.total_bytes_read + sum_serialized_sizes(
            results@,
        ) <= u64::MAX && stats.total_bytes_written + sum_line_bytes(results@) <= u64::MAX),
{
    let ghost rs = results@;
    let mut read: u128 = 0;
    let mut written: u128 = 0;
    let mut i: usize = 0;
    proof {
        assert(rs.skip(0) =~= rs);
    }
    while i < results.len()
        invariant
            i <= results.len(),
            rs == results@,
            read <= i * 0x1_0000_0000_0000_0000u128,
            written <= i * 0x1_0000_0000_0000_0000u128,
            read + sum_serialized_sizes(rs.skip(i as int)) == sum_serialized_sizes(rs),
            written + sum_line_bytes(rs.skip(i as int)) == sum_line_bytes(rs),
        decreases results.len() - i,
    {
        proof {
            assert(rs.skip(i as int)[0] == rs[i as int]);
            assert(rs.skip(i as int).skip(1) =~= rs.skip(i + 1));
            assert((i + 1) * 0x1_0000_0000_0000_0000u128 == i * 0x1_0000_0000_0000_0000u128
                + 0x1_0000_0000_0000_0000u128) by (nonlinear_arith);
        }
        let r = &results[i];
        match &r.json_line {
            Some(line) => {
                read = read + r.file_size as u128;
                written = written + (line.as_str().as_bytes().len() as u128 + 1);
            },
            None => {
            },
        }
        i = i + 1;
    }
    proof {
        assert(rs.skip(rs.len() as int) =~= Seq::<ProcessResult>::empty());
    }
    let counts_fit = stats.get_success_count() as u128 + results.len() as u128
        <= usize::MAX as u128 && stats.get_error_count() as u128 + results.len() as u128
        <= usize::MAX as u128;
    let bytes_fit = stats.total_bytes_read as u128 + read <= u64::MAX as u128
        && stats.total_bytes_written as u128 + written <= u64::MAX as u128;
    counts_fit && bytes_fit
}

/// Whether a validation fold of this batch stays within the counters'
/// ranges. The caller of `fold_validation_results` owes it exactly this.
pub fn validation_fold_fits(results: &Vec<ProcessResult>, stats: &Statistics) -> (r: bool)
    ensures
        r == (stats.success_count + results@.len() <= usize::MAX && stats.validation_failed
            + results@.len() <= usize::MAX && stats.total_bytes_read + sum_valid_sizes(results@)
            <= u64::MAX),
{
    let ghost rs = results@;
    let mut read: u128 = 0;
    let mut i: usize = 0;
    proof {
        assert(rs.skip(0) =~= rs);
    }
    while i < results.len()
        invariant
            i <= results.len(),
            rs == results@,
            read <= i * 0x1_0000_0000_0000_0000u128,
            read + sum_valid_sizes(rs.skip(i as int)) == sum_valid_sizes(rs),
        decreases results.len() - i,
    {
        proof {
            assert(rs.skip(i as int)[0] == rs[i as int]);
            assert(rs.skip(i as int).skip(1) =~= rs.skip(i + 1));
            assert((i + 1) * 0x1_0000_0000_0000_0000u128 == i * 0x1_0000_0000_0000_0000u128
                + 0x1_0000_0000_0000_0000u128) by (nonlinear_arith);
        }
        let r = &results[i];
        if r.is_valid {
            read = read + r.file_size as u128;
        }
        i = i + 1;
    }
    proof {
        assert(rs.skip(rs.len() as int) =~= Seq::<ProcessResult>::empty());
    }
    stats.get_success_count() as u128 + results.len() as u128 <= usize::MAX as u128
        && stats.get_validation_failed() as u128 + results.len() as u128 <= usize::MAX as u128
        && stats.total_bytes_read as u128 + read <= u64::MAX as u128
}

/// Decide whether a run may write to its output: under the error mode an
/// existing output aborts the run — before any file is opened — and in
/// every other case the run proceeds.
pub fn check_output_mode(mode: WriteMode, output_exists: bool, output_path: &str) -> (r: Result<
    (),
    JConvertError,
>)
    ensures
        r is Err <==> mode == WriteMode::Error && output_exists,
        r matches Err(e) ==> e matches JConvertError::OutputExists { path } && path@
            == output_path@,
{
    if mode == WriteMode::Error && output_exists {
        Err(JConvertError::OutputExists { path: output_path.to_owned() })
    } else {
        Ok(())
    }
}

/// Decide whether the input path can serve as the run's source folder.
pub fn validate_input(input_exists: bool, input_is_dir: bool, input_path: &str) -> (r: Result<
    (),
    JConvertError,
>)
    ensures
        r is Ok <==> input_exists && input_is_dir,
        !input_exists ==> (r matches Err(e) && (e matches JConvertError::InputNotFound { path }
            && path@ == input_path@)),
        input_exists && !input_is_dir ==> (r matches Err(e) && (e
            matches JConvertError::NotADirectory { path } && path@ == input_path@)),
{
    if !input_exists {
        Err(JConvertError::InputNotFound { path: input_path.to_owned() })
    } else if !input_is_dir {
        Err(JConvertError::NotADirectory { path: input_path.to_owned() })
    } else {
        Ok(())
    }
}

/// The text of one failure block of the error log.
pub open spec fn log_entry_text(path: Seq<char>, reason: Seq<char>) -> Seq<char> {
    "\n파일: "@ + path + "\n에러: "@ + reason + "\n"@
}

/// The blocks of the error log, one per failure, in order.
pub open spec fn log_entries_text(entries: Seq<(Seq<char>, Seq<char>)>) -> Seq<char>
    decreases entries.len(),
{
    if entries.len() == 0 {
        Seq::empty()
    } else {
        log_entry_text(entries[0].0, entries[0].1) + log_entries_text(entries.skip(1))
    }
}

/// The whole error log: a header with the generation time and the error
/// count, then one block per failure.
pub open spec fn log_text(entries: Seq<(Seq<char>, Seq<char>)>, unix_secs: nat) -> Seq<char> {
    "jconvert 에러 로그\n생성 시간: Unix timestamp: "@ + dec_digits(unix_secs)
        + "\n총 에러 수: "@ + dec_digits(entries.len())
        + "\n==================================================\n"@ + log_entries_text(entries)
}

/// Render the error log for a failure list, stamped with a Unix time in
/// seconds.
pub fn error_log_text(errors: &Vec<(String, String)>, unix_secs: u64) -> (r: String)
    ensures
        r@ == log_text(errors.deep_view(), unix_secs as nat),
{
    let ghost es = errors.deep_view();
    let mut s = "jconvert 에러 로그\n생성 시간: Unix timestamp: ".to_owned();
    let t = u64_to_dec(unix_secs);
    s.append(t.as_str());
    s.append("\n총 에러 수: ");
    let c = u64_to_dec(errors.len() as u64);
    s.append(c.as_str());
    s.append("\n==================================================\n");
    proof {
        assert(es.len() == errors@.len());
    }
    let mut i: usize = 0;
    proof {
        assert(es.skip(0) =~= es);
        assert(s@ + log_entries_text(es.skip(0)) =~= log_text(es, unix_secs as nat));
    }
    while i < errors.len()
        invariant
            i <= errors.len(),
            es == errors.deep_view(),
            s@ + log_entries_text(es.skip(i as int)) == log_text(es, unix_secs as nat),
        decreases errors.len() - i,
    {
        proof {
            assert(es.skip(i as int)[0] == es[i as int]);
            assert(es.skip(i as int).skip(1) =~= es.skip(i + 1));
        }
        let e = &errors[i];
        s.append("\n파일: ");
        s.append(e.0.as_str());
        s.append("\n에러: ");
        s.append(e.1.as_str());
        s.append("\n");
        proof {
            assert(e.0@ == es[i as int].0 && e.1@ == es[i as int].1);
            assert(s@ + log_entries_text(es.skip(i + 1)) =~= log_text(es, unix_secs as nat));
        }
        i = i + 1;
    }
    proof {
        assert(es.skip(es.len() as int) =~= Seq::<(Seq<char>, Seq<char>)>::empty());
        assert(s@ + Seq::<char>::empty() =~= s@);
    }
    s
}

} // verus!
