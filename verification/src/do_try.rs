//! `try`/`finally` for closures that return a [`Result`]: the cleanup always
//! runs, and an error of the main work wins over an error of the cleanup.

use vstd::prelude::*;
use crate::errors::{CustomError, Result};

verus! {

/// The outcome of the main work, waiting for its cleanup.
pub struct FinStruct<TRes> {
    pub result: Result<TRes>,
}

/// What `finally` returns when the main work ended with `work` and the cleanup
/// with `cleanup`: the work's error if it failed, else the cleanup's error if
/// that failed, else the work's value.
pub open spec fn combine_outcomes<TRes>(work: Result<TRes>, cleanup: Result<()>) -> Result<TRes> {
    match work {
        Err(e) => Err(e),
        Ok(v) => match cleanup {
            Err(fe) => Err(fe),
            Ok(_) => Ok(v),
        },
    }
}

impl<TRes> FinStruct<TRes> {
    /// Runs the cleanup `ff` (always), then combines both outcomes.
    pub fn finally<FFinally: FnOnce() -> Result<()>>(self, ff: FFinally) -> (res: Result<TRes>)
        requires
            call_requires(ff, ()),
        ensures
            exists|fr: Result<()>| call_ensures(ff, (), fr) && res == combine_outcomes(self.result, fr),
    {
        let finally_result = ff();
        let ghost work = self.result;
        assert(call_ensures(ff, (), finally_result));
        let res = match self.result {
            Err(err) => Err(err),
            Ok(res) => {
                if let Err(finally_err) = finally_result {
                    Err(finally_err)
                } else {
                    Ok(res)
                }
            },
        };
        assert(res == combine_outcomes(work, finally_result));
        res
    }
}

/// Runs the main work `fdo` and keeps its outcome for [`FinStruct::finally`].
pub fn run<FDo: FnOnce() -> Result<TRes>, TRes>(fdo: FDo) -> (res: FinStruct<TRes>)
    requires
        call_requires(fdo, ()),
    ensures
        call_ensures(fdo, (), res.result),
{
    let result = fdo();
    FinStruct { result }
}

/// `combine_outcomes` never loses a failure: the combined outcome is a success
/// only when both the work and the cleanup succeeded, and then it is the
/// work's value; a failed work's error is reported even when the cleanup also
/// failed.
pub proof fn lemma_finally_keeps_first_error<TRes>(work: Result<TRes>, cleanup: Result<()>)
    ensures
        combine_outcomes(work, cleanup) is Ok <==> (work is Ok && cleanup is Ok),
        (work is Ok && cleanup is Ok) ==> combine_outcomes(work, cleanup) == work,
        work is Err ==> combine_outcomes(work, cleanup) == work,
        (work is Ok && cleanup is Err) ==> (combine_outcomes(work, cleanup) matches Err(e) && cleanup == Err::<(), CustomError>(e)),
{
}

} // verus!
