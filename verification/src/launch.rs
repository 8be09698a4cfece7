//! Starting the installed browser.

use crate::text::followed_by;
use vstd::prelude::*;

verus! {

/// What is to be done next to start the browser, or what came of it.
#[derive(Debug, PartialEq)]
pub enum LaunchStep {
    /// See whether the candidate of this number exists.
    Probe { index: usize },
    /// Start the program at this path.
    Launch { path: String },
    /// The browser was started, or why it was not.
    Done(Result<(), String>),
}

/// What came of a step.
#[derive(Debug, PartialEq)]
pub enum LaunchEvent {
    /// Whether the candidate exists.
    Exists(bool),
    /// The program was started, or the system's message where it was not.
    Launched(Result<(), String>),
}

/// The error of a browser that is nowhere to be found.
pub open spec fn not_found(step: LaunchStep) -> bool {
    step matches LaunchStep::Done(Err(message)) && message@ == "rust.errors.browser_not_found"@
}

/// What is returned for an attempt to start the browser: its success, or the system's message
/// behind a key.
pub open spec fn launch_outcome(attempt: Result<(), String>, result: Result<(), String>) -> bool {
    match attempt {
        Ok(_) => result is Ok,
        Err(e) => result matches Err(message) && message@ == "rust.errors.browser_launch_failed|"@
            + e@,
    }
}

/// What is returned for an attempt to start the browser.
pub fn launch_browser(attempt: &Result<(), String>) -> (r: Result<(), String>)
    ensures
        launch_outcome(*attempt, r),
{
    match attempt {
        Ok(_) => Ok(()),
        Err(e) => Err(followed_by("rust.errors.browser_launch_failed|", e.as_str())),
    }
}

impl LaunchStep {
    /// `next` is the step that follows this one after `event`: the first candidate that exists is
    /// started. An event that does not answer the step changes nothing.
    pub open spec fn leads_to(
        self,
        candidates: Seq<String>,
        event: LaunchEvent,
        next: LaunchStep,
    ) -> bool {
        match (self, event) {
            (LaunchStep::Probe { index }, LaunchEvent::Exists(found)) => if index
                >= candidates.len() {
                not_found(next)
            } else if found {
                next matches LaunchStep::Launch { path } && path@ == candidates[index as int]@
            } else if index + 1 < candidates.len() {
                next == (LaunchStep::Probe { index: (index + 1) as usize })
            } else {
                not_found(next)
            },
            (LaunchStep::Launch { .. }, LaunchEvent::Launched(attempt)) => {
                next matches LaunchStep::Done(result) && launch_outcome(attempt, result)
            },
            _ => next == self,
        }
    }
}

/// The first step of a search for the browser: the first candidate is looked for.
pub fn start_search() -> (r: LaunchStep)
    ensures
        r == (LaunchStep::Probe { index: 0 }),
{
    LaunchStep::Probe { index: 0 }
}

/// The step that follows `step` after `event`.
pub fn launch_floorp_browser(
    candidates: &Vec<String>,
    step: LaunchStep,
    event: &LaunchEvent,
) -> (r: LaunchStep)
    ensures
        step.leads_to(candidates@, *event, r),
{
    match (&step, event) {
        (LaunchStep::Probe { index }, LaunchEvent::Exists(found)) => {
            let at: usize = *index;
            if at < candidates.len() && *found {
                LaunchStep::Launch { path: candidates[at].clone() }
            } else if at < candidates.len() && at + 1 < candidates.len() {
                LaunchStep::Probe { index: at + 1 }
            } else {
                LaunchStep::Done(Err("rust.errors.browser_not_found".to_owned()))
            }
        },
        (LaunchStep::Launch { .. }, LaunchEvent::Launched(attempt)) => LaunchStep::Done(
            launch_browser(attempt),
        ),
        _ => step,
    }
}

/// `steps` is what happens when the candidates are looked for and `present` tells which exist.
pub open spec fn search(candidates: Seq<String>, present: Seq<bool>, steps: Seq<LaunchStep>) -> bool {
    &&& steps.len() == present.len() + 1
    &&& steps[0] == (LaunchStep::Probe { index: 0 })
    &&& forall|i: int|
        0 <= i < present.len() ==> #[trigger] steps[i].leads_to(
            candidates,
            LaunchEvent::Exists(present[i]),
            steps[i + 1],
        )
}

/// While nothing was found the next candidate is looked for.
proof fn lemma_search_goes_on(
    candidates: Seq<String>,
    present: Seq<bool>,
    steps: Seq<LaunchStep>,
    n: int,
)
    requires
        search(candidates, present, steps),
        candidates.len() <= usize::MAX,
        0 <= n < candidates.len(),
        n <= present.len(),
        forall|i: int| 0 <= i < n ==> !#[trigger] present[i],
    ensures
        steps[n] == (LaunchStep::Probe { index: n as usize }),
    decreases n,
{
    if n > 0 {
        lemma_search_goes_on(candidates, present, steps, n - 1);
        assert(steps[n - 1].leads_to(candidates, LaunchEvent::Exists(present[n - 1]), steps[n]));
    }
}

/// The browser is started from the first candidate that exists.
pub proof fn law_first_present_is_started(
    candidates: Seq<String>,
    present: Seq<bool>,
    steps: Seq<LaunchStep>,
    k: int,
)
    requires
        search(candidates, present, steps),
        candidates.len() <= usize::MAX,
        0 <= k < candidates.len(),
        k < present.len(),
        present[k],
        forall|i: int| 0 <= i < k ==> !#[trigger] present[i],
    ensures
        steps[k + 1] matches LaunchStep::Launch { path } && path@ == candidates[k]@,
{
    lemma_search_goes_on(candidates, present, steps, k);
    assert(steps[k].leads_to(candidates, LaunchEvent::Exists(present[k]), steps[k + 1]));
}

/// Where no candidate exists the search ends with an error, after the last of them.
pub proof fn law_none_present_is_an_error(
    candidates: Seq<String>,
    present: Seq<bool>,
    steps: Seq<LaunchStep>,
)
    requires
        search(candidates, present, steps),
        0 < candidates.len() <= usize::MAX,
        present.len() == candidates.len(),
        forall|i: int| 0 <= i < present.len() ==> !#[trigger] present[i],
    ensures
        not_found(steps.last()),
{
    let n = candidates.len() - 1;
    lemma_search_goes_on(candidates, present, steps, n);
    assert(steps[n].leads_to(candidates, LaunchEvent::Exists(present[n]), steps[n + 1]));
}

/// How many answers the search can still take.
pub open spec fn distance(candidates: Seq<String>, step: LaunchStep) -> int {
    match step {
        LaunchStep::Probe { index } => if index < candidates.len() {
            candidates.len() - index + 1
        } else {
            1
        },
        LaunchStep::Launch { .. } => 1,
        LaunchStep::Done(_) => 0,
    }
}

/// Each answer brings the search for the browser nearer to its end.
pub proof fn law_answers_bring_the_search_forward(
    candidates: Seq<String>,
    step: LaunchStep,
    event: LaunchEvent,
    next: LaunchStep,
)
    requires
        candidates.len() <= usize::MAX,
        step.leads_to(candidates, event, next),
        (step is Probe && event is Exists) || (step is Launch && event is Launched),
    ensures
        0 <= distance(candidates, next) < distance(candidates, step),
{
}

} // verus!
