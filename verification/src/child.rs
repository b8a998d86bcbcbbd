//! How a process that was forked off ended, as its parent reports it.

use crate::text::{decimal, display};
use vstd::prelude::*;
use vstd::string::StringExecFns;
use vstd::utf8::{decode_utf8, valid_utf8};

verus! {

/// How a process ended.
#[derive(Clone, Copy, Debug, PartialEq, Eq)]
pub enum ChildEnd {
    /// It exited with this status.
    Exited(i32),
    /// It was killed by this signal.
    Killed(i32),
    /// In some other way.
    Other,
}

/// What `String::from_utf8_lossy` returns.
pub uninterp spec fn lossy(bytes: Seq<u8>) -> Seq<char>;

/// `String::from_utf8_lossy`: the text that the bytes encode, with replacement characters for what is
/// not valid UTF-8.  So valid bytes give the text that they encode, and only no bytes give no text.
#[verifier::external_body]
fn from_utf8_lossy(bytes: &[u8]) -> (text: String)
    ensures
        text@ == lossy(bytes@),
        valid_utf8(bytes@) ==> text@ == decode_utf8(bytes@),
        text@.len() == 0 <==> bytes@.len() == 0,
{
    String::from_utf8_lossy(bytes).into_owned()
}

/// How the report names the end of a process.
pub open spec fn manner(end: ChildEnd) -> Seq<char> {
    match end {
        ChildEnd::Exited(status) => " (exit status "@ + decimal(status as int) + ")"@,
        ChildEnd::Killed(signal) => " (killed by signal "@ + decimal(signal as int) + ")"@,
        ChildEnd::Other => Seq::empty(),
    }
}

/// Reports how a process ended that wrote `stderr` to its standard error.
pub fn child_report(end: ChildEnd, stderr: &[u8]) -> (result: Result<(), String>)
    ensures
        end == ChildEnd::Exited(0) ==> result is Ok,
        end != ChildEnd::Exited(0) ==> {
            &&& result is Err
            &&& result->Err_0@ == "child exited"@ + manner(end) + if stderr@.len() == 0 {
                Seq::empty()
            } else {
                "; stderr:\n"@ + lossy(stderr@)
            }
        },
        result is Err ==> {
            let cause = match end {
                ChildEnd::Exited(status) => " (exit status "@ + decimal(status as int) + ")"@,
                ChildEnd::Killed(signal) => " (killed by signal "@ + decimal(signal as int) + ")"@,
                ChildEnd::Other => Seq::empty(),
            };
            let output = if stderr@.len() == 0 {
                Seq::empty()
            } else {
                "; stderr:\n"@ + lossy(stderr@)
            };
            result->Err_0@ == "child exited"@ + cause + output
        },
{
    let text = from_utf8_lossy(stderr);
    child_result(end, text.as_str())
}

/// Reports how a process ended: well if it exited with status zero, else with a text that names its
/// end and quotes what it wrote to its standard error, if anything.
pub fn child_result(end: ChildEnd, stderr: &str) -> (result: Result<(), String>)
    ensures
        end == ChildEnd::Exited(0) ==> result is Ok,
        end != ChildEnd::Exited(0) ==> {
            &&& result is Err
            &&& result->Err_0@ == "child exited"@ + manner(end) + if stderr@.len() == 0 {
                Seq::empty()
            } else {
                "; stderr:\n"@ + stderr@
            }
        },
        result is Err ==> {
            let cause = match end {
                ChildEnd::Exited(status) => " (exit status "@ + decimal(status as int) + ")"@,
                ChildEnd::Killed(signal) => " (killed by signal "@ + decimal(signal as int) + ")"@,
                ChildEnd::Other => Seq::empty(),
            };
            let output = if stderr@.len() == 0 {
                Seq::empty()
            } else {
                "; stderr:\n"@ + stderr@
            };
            result->Err_0@ == "child exited"@ + cause + output
        },
{
    let text = "child exited".to_owned();
    let text = match end {
        ChildEnd::Exited(status) => {
            if status == 0 {
                return Ok(());
            }
            let number = display(status as i64);
            text.concat(" (exit status ").concat(number.as_str()).concat(")")
        },
        ChildEnd::Killed(signal) => {
            let number = display(signal as i64);
            text.concat(" (killed by signal ").concat(number.as_str()).concat(")")
        },
        ChildEnd::Other => text,
    };
    assert(text@ =~= "child exited"@ + manner(end));
    if stderr.is_empty() {
        assert(text@ + Seq::<char>::empty() =~= text@);
        Err(text)
    } else {
        let text = text.concat("; stderr:\n").concat(stderr);
        assert(text@ =~= "child exited"@ + manner(end) + ("; stderr:\n"@ + stderr@));
        Err(text)
    }
}

} // verus!
