//! Running a sequence of steps with a cleanup, as `try`/`finally` does: the
//! body's steps run in order and stop at the first failure (or, for a body
//! that keeps going, all run and the first failure is kept); the cleanup's
//! steps then run in order, stopping at the first failure; the body's error
//! wins over the cleanup's. Each step is handed to the caller, who performs
//! it (a shell command, or work of its own named by a hook).

use vstd::prelude::*;
use crate::errors::{CustomError, Result};
use crate::do_try::combine_outcomes;
use crate::text::string_views;

verus! {

/// One step: a shell command, or the caller's own work named by `H`.
pub enum Step<H> {
    Shell(String),
    Hook(H),
}

/// The value of a [`Step`].
pub enum StepView<H> {
    Shell(Seq<char>),
    Hook(H),
}

impl<H: View> View for Step<H> {
    type V = StepView<H::V>;

    open spec fn view(&self) -> StepView<H::V> {
        match self {
            Step::Shell(c) => StepView::Shell(c@),
            Step::Hook(h) => StepView::Hook(h@),
        }
    }
}

/// The values of a list of steps.
pub open spec fn step_views<H: View>(s: Seq<Step<H>>) -> Seq<StepView<H::V>> {
    s.map_values(|st: Step<H>| st@)
}

/// Shell steps for the commands `cmds`, in order.
pub open spec fn shells<H>(cmds: Seq<Seq<char>>) -> Seq<StepView<H>> {
    cmds.map_values(|c: Seq<char>| StepView::<H>::Shell(c))
}

/// Shell steps for the commands `cmds`, in order.
pub fn shell_steps<H: View>(cmds: &Vec<String>) -> (res: Vec<Step<H>>)
    ensures
        step_views(res@) == shells::<H::V>(string_views(cmds@)),
{
    let mut res: Vec<Step<H>> = Vec::new();
    let mut i: usize = 0;
    while i < cmds.len()
        invariant
            i <= cmds.len(),
            step_views(res@) == shells::<H::V>(string_views(cmds@.take(i as int))),
        decreases cmds.len() - i,
    {
        let ghost before = step_views(res@);
        res.push(Step::Shell(cmds[i].clone()));
        assert(step_views(res@) =~= before.push(StepView::Shell(cmds@[i as int]@)));
        assert(shells::<H::V>(string_views(cmds@.take(i + 1))) =~= shells::<H::V>(string_views(cmds@.take(i as int))).push(StepView::Shell(cmds@[i as int]@)));
        i += 1;
    }
    assert(cmds@.take(cmds.len() as int) =~= cmds@);
    res
}

/// A body and a cleanup.
pub struct Script<H> {
    pub body: Vec<Step<H>>,
    pub cleanup: Vec<Step<H>>,
    /// The body runs every step even after a failure.
    pub keep_going: bool,
}

/// The first failure among `outs`, else success.
pub open spec fn first_error(outs: Seq<Result<()>>) -> Result<()>
    decreases outs.len(),
{
    if outs.len() == 0 {
        Ok(())
    } else {
        match first_error(outs.drop_last()) {
            Err(e) => Err(e),
            Ok(_) => outs.last(),
        }
    }
}

/// `outs` are the outcomes of running `steps` with `perform`: one outcome per
/// step run, in order, each one that `perform` can give for its step; all
/// steps run when `keep_going`; otherwise they stop right after the first
/// failure.
pub open spec fn ran_steps<H, F: Fn(&Step<H>) -> Result<()>>(steps: Seq<Step<H>>, perform: F, outs: Seq<Result<()>>, keep_going: bool) -> bool {
    &&& outs.len() <= steps.len()
    &&& forall|k: int| 0 <= k < outs.len() ==> call_ensures(perform, (&steps[k],), #[trigger] outs[k])
    &&& if keep_going {
        outs.len() == steps.len()
    } else {
        &&& forall|k: int| 0 <= k < outs.len() - 1 ==> (#[trigger] outs[k]) is Ok
        &&& (outs.len() == steps.len() || (outs.len() > 0 && outs.last() is Err))
    }
}

/// What running a script gives: the body's first error; else, when the body
/// succeeded, the cleanup's first error; else `value`.
pub open spec fn script_result<T>(body: Seq<Result<()>>, value: Result<T>, cleanup: Seq<Result<()>>) -> Result<T> {
    let work = match first_error(body) {
        Err(e) => Err(e),
        Ok(_) => value,
    };
    combine_outcomes(work, first_error(cleanup))
}

/// `res` is an outcome of running `script` with `perform`, ending in `value`
/// when every step succeeded.
pub open spec fn script_outcome<H, T, F: Fn(&Step<H>) -> Result<()>>(script: Script<H>, perform: F, value: Result<T>, res: Result<T>) -> bool {
    exists|b: Seq<Result<()>>, c: Seq<Result<()>>|
        ran_steps(script.body@, perform, b, script.keep_going)
        && ran_steps(script.cleanup@, perform, c, false)
        && res == script_result(b, value, c)
}

/// The steps that `perform` may be called on.
pub open spec fn performable<H, F: Fn(&Step<H>) -> Result<()>>(script: Script<H>, perform: F) -> bool {
    &&& forall|k: int| 0 <= k < script.body@.len() ==> call_requires(perform, (&#[trigger] script.body@[k],))
    &&& forall|k: int| 0 <= k < script.cleanup@.len() ==> call_requires(perform, (&#[trigger] script.cleanup@[k],))
}

fn run_steps<H, F: Fn(&Step<H>) -> Result<()>>(steps: &Vec<Step<H>>, perform: &F, keep_going: bool) -> (res: (Option<CustomError>, Ghost<Seq<Result<()>>>))
    requires
        forall|k: int| 0 <= k < steps@.len() ==> call_requires(*perform, (&#[trigger] steps@[k],)),
    ensures
        ran_steps(steps@, *perform, res.1@, keep_going),
        match res.0 {
            None => first_error(res.1@) is Ok,
            Some(e) => first_error(res.1@) == Err::<(), CustomError>(e),
        },
{
    let ghost mut outs: Seq<Result<()>> = Seq::empty();
    let mut error: Option<CustomError> = None;
    let mut stopped = false;
    let mut i: usize = 0;
    while i < steps.len() && !stopped
        invariant
            i <= steps.len(),
            outs.len() == i,
            forall|k: int| 0 <= k < steps@.len() ==> call_requires(*perform, (&#[trigger] steps@[k],)),
            forall|k: int| 0 <= k < i ==> call_ensures(*perform, (&steps@[k],), #[trigger] outs[k]),
            match error {
                None => first_error(outs) is Ok,
                Some(e) => first_error(outs) == Err::<(), CustomError>(e),
            },
            keep_going ==> !stopped,
            !keep_going ==> forall|k: int| 0 <= k < i - 1 ==> (#[trigger] outs[k]) is Ok,
            !keep_going && !stopped && i > 0 ==> outs.last() is Ok,
            stopped ==> i > 0 && outs.last() is Err,
        decreases steps.len() - i,
    {
        let r = perform(&steps[i]);
        let ghost before = outs;
        proof {
            outs = outs.push(r);
            assert(outs.drop_last() =~= before);
        }
        match r {
            Err(e) => {
                if error.is_none() {
                    error = Some(e);
                }
                if !keep_going {
                    stopped = true;
                }
            },
            Ok(()) => {},
        }
        i += 1;
    }
    (error, Ghost(outs))
}

/// Runs `script`, handing each step to `perform`, and gives the body's first
/// error, else the cleanup's first error, else `value`.
pub fn run_script<H, T, F: Fn(&Step<H>) -> Result<()>>(script: &Script<H>, value: Result<T>, perform: &F) -> (res: Result<T>)
    requires
        performable(*script, *perform),
    ensures
        script_outcome(*script, *perform, value, res),
{
    let (body_error, Ghost(b)) = run_steps(&script.body, perform, script.keep_going);
    let (cleanup_error, Ghost(c)) = run_steps(&script.cleanup, perform, false);
    let ghost v = value;
    let res = match body_error {
        Some(e) => Err(e),
        None => match value {
            Err(e) => Err(e),
            Ok(x) => match cleanup_error {
                Some(e) => Err(e),
                None => Ok(x),
            },
        },
    };
    assert(res == script_result(b, v, c));
    res
}

} // verus!
