//! Checks on the output of a bindings script that was run against scaffolding of another
//! version: the script must fail with the expected message.

use vstd::prelude::*;

verus! {

/// Whether `needle` occurs in `hay`.
pub open spec fn contains_seq(hay: Seq<char>, needle: Seq<char>) -> bool {
    exists|i: int| 0 <= i <= hay.len() - needle.len() && #[trigger] hay.subrange(i, i + needle.len()) == needle
}

/// std's `str::contains` with a string pattern: whether `needle` occurs in `hay`.
#[verifier::external_body]
fn str_contains(hay: &str, needle: &str) -> (b: bool)
    ensures
        b == contains_seq(hay@, needle@),
{
    hay.contains(needle)
}

/// The report of a script output that lacks the expected error.
pub open spec fn missing_output_report(output: Seq<char>, stdout: Seq<char>, stderr: Seq<char>) -> Seq<char> {
    "Script output did not contain the expected error output:\n"@ + output
        + "\n\nEither fix the script or adjust the expected output in `test_version_mismatches.rs`\n\nSTDOUT:\n"@
        + stdout + "\n\nSTDERR:\n"@ + stderr + "\n"@
}

/// Checks that the script printed `output` on stdout or on stderr; if not, the report to fail
/// the test with.
pub fn ensure_output(output: &str, stdout: &str, stderr: &str) -> (r: Result<(), String>)
    ensures
        contains_seq(stdout@, output@) || contains_seq(stderr@, output@) ==> r is Ok,
        !(contains_seq(stdout@, output@) || contains_seq(stderr@, output@)) ==> (r matches Err(
            m,
        ) && m@ == missing_output_report(output@, stdout@, stderr@)),
{
    if !str_contains(stdout, output) && !str_contains(stderr, output) {
        let mut m = String::from_str("Script output did not contain the expected error output:\n");
        m.append(output);
        m.append(
            "\n\nEither fix the script or adjust the expected output in `test_version_mismatches.rs`\n\nSTDOUT:\n",
        );
        m.append(stdout);
        m.append("\n\nSTDERR:\n");
        m.append(stderr);
        m.append("\n");
        Err(m)
    } else {
        Ok(())
    }
}

/// The message of a contract version mismatch.
pub open spec fn contract_mismatch_message() -> Seq<char> {
    "UniFFI contract version mismatch: try cleaning and rebuilding your project"@
}

/// The message of an API checksum mismatch.
pub open spec fn api_mismatch_message() -> Seq<char> {
    "UniFFI API checksum mismatch: try cleaning and rebuilding your project"@
}

pub fn check_contract_mismatch_output(stdout: String, stderr: String) -> (r: Result<(), String>)
    ensures
        contains_seq(stdout@, contract_mismatch_message()) || contains_seq(
            stderr@,
            contract_mismatch_message(),
        ) ==> r is Ok,
        !(contains_seq(stdout@, contract_mismatch_message()) || contains_seq(
            stderr@,
            contract_mismatch_message(),
        )) ==> (r matches Err(m) && m@ == missing_output_report(
            contract_mismatch_message(),
            stdout@,
            stderr@,
        )),
{
    ensure_output(
        "UniFFI contract version mismatch: try cleaning and rebuilding your project",
        stdout.as_str(),
        stderr.as_str(),
    )
}

pub fn check_api_mismatch_output(stdout: String, stderr: String) -> (r: Result<(), String>)
    ensures
        contains_seq(stdout@, api_mismatch_message()) || contains_seq(stderr@, api_mismatch_message())
            ==> r is Ok,
        !(contains_seq(stdout@, api_mismatch_message()) || contains_seq(
            stderr@,
            api_mismatch_message(),
        )) ==> (r matches Err(m) && m@ == missing_output_report(
            api_mismatch_message(),
            stdout@,
            stderr@,
        )),
{
    ensure_output(
        "UniFFI API checksum mismatch: try cleaning and rebuilding your project",
        stdout.as_str(),
        stderr.as_str(),
    )
}

} // verus!
