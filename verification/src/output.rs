//! What the finished importer process reported.

use crate::decode::{decode_lossy, utf8_lossy};
use crate::record_count::{
    count_in_line, extract_record_count, lemma_record_count_present, marker, record_count,
};
use crate::text::{is_first_containing, lines};
use vstd::prelude::*;
use vstd::utf8::{decode_utf8_encode_utf8, encode_utf8, valid_utf8};

verus! {

/// What was captured of a process that ran to its end.
#[derive(Debug, PartialEq, Eq)]
pub struct ProcessOutput {
    /// The exit code; `None` when the process did not exit by itself.
    pub exit_code: Option<i32>,
    /// The bytes written to standard output.
    pub stdout: Vec<u8>,
    /// The bytes written to standard error.
    pub stderr: Vec<u8>,
}

/// The outcome of one run of the importer, as handed to the caller.
#[derive(Debug, PartialEq, Eq)]
pub struct CsvToDbResult {
    success: bool,
    message: String,
    records_imported: Option<i32>,
}

/// An outcome as plain values.
pub ghost struct CsvToDbResultView {
    /// Whether the importer ended with exit code zero.
    pub success: bool,
    /// Standard output of a successful run, standard error of a failed one.
    pub message: Seq<char>,
    /// The number of imported records, where a successful run announced it.
    pub records_imported: Option<i32>,
}

impl CsvToDbResultView {
    /// Only a successful run has a record count.
    pub open spec fn wf(self) -> bool {
        self.records_imported is Some ==> self.success
    }
}

impl View for CsvToDbResult {
    type V = CsvToDbResultView;

    closed spec fn view(&self) -> CsvToDbResultView {
        CsvToDbResultView {
            success: self.success,
            message: self.message@,
            records_imported: self.records_imported,
        }
    }
}

impl CsvToDbResult {
    #[verifier::type_invariant]
    spec fn consistent(self) -> bool {
        self.records_imported is Some ==> self.success
    }

    /// The outcome of a successful run.
    pub fn succeeded(message: String, records_imported: Option<i32>) -> (result: Self)
        ensures
            result@ == (CsvToDbResultView { success: true, message: message@, records_imported }),
    {
        CsvToDbResult { success: true, message, records_imported }
    }

    /// The outcome of a failed run.
    pub fn failed(message: String) -> (result: Self)
        ensures
            result@ == (CsvToDbResultView {
                success: false,
                message: message@,
                records_imported: None,
            }),
    {
        CsvToDbResult { success: false, message, records_imported: None }
    }

    /// Whether the importer ended with exit code zero.
    pub fn success(&self) -> (success: bool)
        ensures
            success == self@.success,
    {
        self.success
    }

    /// Standard output of a successful run, standard error of a failed one.
    pub fn message(&self) -> (message: &String)
        ensures
            message@ == self@.message,
    {
        &self.message
    }

    /// The number of imported records. Only a successful run has one.
    pub fn records_imported(&self) -> (count: Option<i32>)
        ensures
            count == self@.records_imported,
            count is Some ==> self@.success,
            self@.wf(),
    {
        proof {
            use_type_invariant(self);
        }
        self.records_imported
    }
}

/// Whether an exit code stands for success: the process exited by itself
/// with code zero.
pub open spec fn exit_ok(exit_code: Option<i32>) -> bool {
    exit_code == Some(0i32)
}

/// The outcome of a run that ended with the given status and texts on
/// standard output and standard error.
pub open spec fn interpreted(success: bool, stdout: Seq<char>, stderr: Seq<char>)
    -> CsvToDbResultView {
    CsvToDbResultView {
        success,
        message: if success {
            stdout
        } else {
            stderr
        },
        records_imported: if success {
            record_count(stdout)
        } else {
            None
        },
    }
}

/// An outcome has a record count exactly when the run succeeded and the
/// first line of standard output that holds the marker announces a number.
pub proof fn lemma_outcome_has_count(success: bool, stdout: Seq<char>, stderr: Seq<char>)
    ensures
        interpreted(success, stdout, stderr).records_imported is Some <==> success && exists|
            i: int,
        | #[trigger]
            is_first_containing(lines(stdout), marker(), i) && count_in_line(lines(stdout)[i])
                is Some,
        interpreted(success, stdout, stderr).wf(),
{
    lemma_record_count_present(stdout);
}

/// Builds the outcome from the exit status and the decoded output streams.
pub fn interpret_text(success: bool, stdout: String, stderr: String) -> (result: CsvToDbResult)
    ensures
        result@ == interpreted(success, stdout@, stderr@),
        result@.wf(),
        success ==> result@.success && result@.message == stdout@,
        !success ==> !result@.success && result@.message == stderr@
            && result@.records_imported is None,
{
    if success {
        let count = extract_record_count(stdout.as_str());
        CsvToDbResult::succeeded(stdout, count)
    } else {
        CsvToDbResult::failed(stderr)
    }
}

/// The stream that the outcome reports: standard output of a successful
/// run, standard error of a failed one.
pub open spec fn reported_stream(output: ProcessOutput) -> Seq<u8> {
    if exit_ok(output.exit_code) {
        output.stdout@
    } else {
        output.stderr@
    }
}

/// The outcome of a finished process: both streams are decoded as UTF-8,
/// ill-formed parts being replaced, and the texts are interpreted.
pub open spec fn outcome_of(output: ProcessOutput) -> CsvToDbResultView {
    interpreted(
        exit_ok(output.exit_code),
        utf8_lossy(output.stdout@),
        utf8_lossy(output.stderr@),
    )
}

/// Builds the outcome from what was captured of the finished process.
///
/// A run with exit code zero is a success and reports its standard output,
/// with the record count found there; any other run is a failure and reports
/// its standard error. A reported stream that is valid UTF-8 is reported
/// unchanged: the message encodes to the very bytes that were captured, and
/// is empty only if nothing was captured.
pub fn interpret_output(output: &ProcessOutput) -> (result: CsvToDbResult)
    ensures
        result@ == outcome_of(*output),
        result@.wf(),
        output.exit_code == Some(0i32) ==> result@.success && result@.message == utf8_lossy(
            output.stdout@,
        ),
        output.exit_code != Some(0i32) ==> !result@.success && result@.message == utf8_lossy(
            output.stderr@,
        ) && result@.records_imported is None,
        valid_utf8(reported_stream(*output)) ==> encode_utf8(result@.message) == reported_stream(
            *output,
        ),
        valid_utf8(reported_stream(*output)) && reported_stream(*output).len() > 0
            ==> result@.message.len() > 0,
{
    let success: bool = match output.exit_code {
        Some(code) => code == 0,
        None => false,
    };
    let stdout = decode_lossy(output.stdout.as_slice());
    let stderr = decode_lossy(output.stderr.as_slice());
    proof {
        if valid_utf8(reported_stream(*output)) {
            decode_utf8_encode_utf8(reported_stream(*output));
            assert(encode_utf8(Seq::<char>::empty()).len() == 0);
        }
    }
    interpret_text(success, stdout, stderr)
}

} // verus!
