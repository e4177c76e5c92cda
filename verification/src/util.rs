//! What to make of an external command that was run.
use vstd::prelude::*;
use vstd::string::*;

use crate::foreign::{readable, text_of};
use crate::text::{chars_of, string_of, trim, trimmed};

verus! {

/// What a command wrote to stderr, for an error message.
pub open spec fn stderr_text(stderr: Seq<u8>) -> Seq<char> {
    trim(text_of(stderr))
}

fn error_text(stderr: &[u8]) -> (s: String)
    ensures
        s@ == stderr_text(stderr@),
{
    let text = readable(stderr);
    let chars = chars_of(text.as_str());
    string_of(trimmed(chars.as_slice()).as_slice())
}

/// The outcome of a command that was run with inherited stdio: an error
/// unless it succeeded.
pub fn run(program: &str, success: bool, status: &str) -> (r: Result<(), String>)
    ensures
        r is Ok <==> success,
        r is Err ==> r->Err_0@ == program@ + " failed with "@ + status@,
{
    if success {
        Ok(())
    } else {
        Err(program.to_owned().concat(" failed with ").concat(status))
    }
}

/// The outcome of a command whose output was collected: what it wrote to
/// stdout if it succeeded, else an error with what it wrote to stderr.
pub fn run_output(program: &str, success: bool, stdout: Vec<u8>, stderr: &[u8]) -> (r: Result<
    Vec<u8>,
    String,
>)
    ensures
        r is Ok <==> success,
        r is Ok ==> r->Ok_0 == stdout,
        r is Err ==> r->Err_0@ == program@ + " failed: "@ + stderr_text(stderr@),
{
    if success {
        Ok(stdout)
    } else {
        Err(program.to_owned().concat(" failed: ").concat(error_text(stderr).as_str()))
    }
}

/// The outcome of packing the seed into an ISO.
pub fn packed(success: bool, stderr: &[u8]) -> (r: Result<(), String>)
    ensures
        r is Ok <==> success,
        r is Err ==> r->Err_0@ == "creating the seed ISO failed: "@ + stderr_text(stderr@),
{
    if success {
        Ok(())
    } else {
        Err("creating the seed ISO failed: ".to_owned().concat(error_text(stderr).as_str()))
    }
}

} // verus!
