//! The backend-wide orphan sweep: connect, then ask the backend to find and
//! remove every resource this system owns that no active run is using.

use vstd::prelude::*;

use crate::runtime::{BuildRuntime, RuntimeCall};
use crate::OutputFormatter;

verus! {

/// A cleanup failure, described for the user.
#[derive(Debug)]
pub struct CleanupError {
    pub msg: String,
}

impl CleanupError {
    /// The full message, with its context prefix.
    pub fn message(&self) -> (r: String)
        ensures
            r@ == "cleanup error: "@ + self.msg@,
    {
        let r = "cleanup error: ".to_owned();
        r.concat(self.msg.as_str())
    }
}

/// Connects to the backend and runs its orphan sweep; a backend failure is
/// wrapped as a cleanup error.
pub fn cleanup_resources<R: BuildRuntime, F: OutputFormatter>(
    runtime: &mut R,
    output_formatter: &F,
) -> (r: Result<(), CleanupError>)
    ensures
        final(runtime).log() == old(runtime).log().push(RuntimeCall::Connect) || final(runtime).log()
            == old(runtime).log().push(RuntimeCall::Connect).push(RuntimeCall::CleanupResources),
        r is Ok ==> final(runtime).log() == old(runtime).log().push(RuntimeCall::Connect).push(
            RuntimeCall::CleanupResources,
        ),
        r is Ok ==> final(runtime).outcomes() == old(runtime).outcomes() + seq![true, true],
        r is Err ==> final(runtime).outcomes() == old(runtime).outcomes().push(false) || final(runtime).outcomes()
            == old(runtime).outcomes() + seq![true, false],
        r matches Err(e) ==> exists|m: Seq<char>| e.msg@ == "build runtime error: "@ + m,
{
    let ghost old_out = runtime.outcomes();
    match runtime.connect() {
        Ok(_) => {},
        Err(e) => {
            return Err(CleanupError { msg: e.message() });
        },
    }
    output_formatter.print("Starting cleanup".to_owned());
    let sweep = runtime.cleanup_resources();
    proof {
        assert(runtime.outcomes() =~= old_out + seq![true, sweep is Ok]);
    }
    match sweep {
        Ok(_) => Ok(()),
        Err(e) => Err(CleanupError { msg: e.message() }),
    }
}

} // verus!
