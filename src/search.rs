//! Decisions of the monotone root search: grow the bracket's upper end until
//! the function reaches the target there (or the upper end reaches its cap),
//! then bisect until the bracket is no wider than the tolerance, then answer
//! with the bracket's midpoint.
//!
//! The numbers themselves stay with the caller. In each phase the search asks
//! one yes/no question about them; `step` takes the answer and says what to do
//! to the bracket and which phase comes next.
use vstd::prelude::*;

verus! {

/// Where a search stands, named after the question it asks next.
#[derive(Clone, Copy, Debug, PartialEq, Eq, Structural)]
pub enum Phase {
    /// Does the function at the upper end fall short of the target?
    CheckUpper,
    /// Is the upper end still below the cap on its magnitude?
    CheckCap,
    /// Is the bracket wider than the tolerance?
    CheckWidth,
    /// Does the function at the bracket's midpoint fall short of the target?
    CheckMidpoint,
    /// The search is over; nothing is asked any more.
    Finished,
}

/// What the caller does to its bracket after an answer.
#[derive(Clone, Copy, Debug, PartialEq, Eq, Structural)]
pub enum Action {
    /// Leave the bracket as it is and answer the next question.
    Continue,
    /// Multiply the upper end by the growth factor.
    GrowUpper,
    /// Move the lower end to the midpoint.
    RaiseLower,
    /// Move the upper end to the midpoint.
    LowerUpper,
    /// Stop: the result is the bracket's midpoint.
    ReturnMidpoint,
}

/// The phase every search starts in.
pub open spec fn initial() -> Phase {
    Phase::CheckUpper
}

/// The next phase and the action, given the phase and the answer to its question.
pub open spec fn transition(phase: Phase, answer: bool) -> (Phase, Action) {
    match phase {
        Phase::CheckUpper => if answer {
            (Phase::CheckCap, Action::Continue)
        } else {
            (Phase::CheckWidth, Action::Continue)
        },
        Phase::CheckCap => if answer {
            (Phase::CheckUpper, Action::GrowUpper)
        } else {
            (Phase::CheckWidth, Action::Continue)
        },
        Phase::CheckWidth => if answer {
            (Phase::CheckMidpoint, Action::Continue)
        } else {
            (Phase::Finished, Action::ReturnMidpoint)
        },
        Phase::CheckMidpoint => if answer {
            (Phase::CheckWidth, Action::RaiseLower)
        } else {
            (Phase::CheckWidth, Action::LowerUpper)
        },
        Phase::Finished => (Phase::Finished, Action::ReturnMidpoint),
    }
}

/// 0 while the bracket grows, 1 while it is bisected, 2 once the search is over.
pub open spec fn stage(phase: Phase) -> int {
    match phase {
        Phase::CheckUpper | Phase::CheckCap => 0,
        Phase::CheckWidth | Phase::CheckMidpoint => 1,
        Phase::Finished => 2,
    }
}

/// The actions that a search in `phase` takes for the given answers, in order.
pub open spec fn trace(phase: Phase, answers: Seq<bool>) -> Seq<Action>
    decreases answers.len(),
{
    if answers.len() == 0 {
        Seq::empty()
    } else {
        let (next, action) = transition(phase, answers[0]);
        seq![action] + trace(next, answers.drop_first())
    }
}

/// The phase that a search in `phase` reaches after the given answers.
pub open spec fn phase_after(phase: Phase, answers: Seq<bool>) -> Phase
    decreases answers.len(),
{
    if answers.len() == 0 {
        phase
    } else {
        phase_after(transition(phase, answers[0]).0, answers.drop_first())
    }
}

/// The phase a search starts in.
pub fn initial_phase() -> (r: Phase)
    ensures
        r == initial(),
{
    Phase::CheckUpper
}

/// Takes the answer to the question of `phase` and returns the next phase and
/// what to do to the bracket.
pub fn step(phase: Phase, answer: bool) -> (r: (Phase, Action))
    ensures
        r == transition(phase, answer),
        stage(phase) <= stage(r.0),
        r.1 == Action::GrowUpper ==> stage(r.0) == 0,
        r.1 == Action::RaiseLower || r.1 == Action::LowerUpper ==> stage(r.0) == 1,
        r.1 == Action::ReturnMidpoint <==> r.0 == Phase::Finished,
{
    match phase {
        Phase::CheckUpper => if answer {
            (Phase::CheckCap, Action::Continue)
        } else {
            (Phase::CheckWidth, Action::Continue)
        },
        Phase::CheckCap => if answer {
            (Phase::CheckUpper, Action::GrowUpper)
        } else {
            (Phase::CheckWidth, Action::Continue)
        },
        Phase::CheckWidth => if answer {
            (Phase::CheckMidpoint, Action::Continue)
        } else {
            (Phase::Finished, Action::ReturnMidpoint)
        },
        Phase::CheckMidpoint => if answer {
            (Phase::CheckWidth, Action::RaiseLower)
        } else {
            (Phase::CheckWidth, Action::LowerUpper)
        },
        Phase::Finished => (Phase::Finished, Action::ReturnMidpoint),
    }
}

proof fn lemma_trace_len(phase: Phase, answers: Seq<bool>)
    ensures
        trace(phase, answers).len() == answers.len(),
    decreases answers.len(),
{
    if answers.len() > 0 {
        lemma_trace_len(transition(phase, answers[0]).0, answers.drop_first());
    }
}

proof fn lemma_no_growth_once_bisecting(phase: Phase, answers: Seq<bool>)
    requires
        stage(phase) >= 1,
    ensures
        !trace(phase, answers).contains(Action::GrowUpper),
    decreases answers.len(),
{
    if answers.len() > 0 {
        let (next, action) = transition(phase, answers[0]);
        lemma_no_growth_once_bisecting(next, answers.drop_first());
        let rest = trace(next, answers.drop_first());
        assert(trace(phase, answers) == seq![action] + rest);
        assert forall|k: int| 0 <= k < trace(phase, answers).len() implies trace(
            phase,
            answers,
        )[k] != Action::GrowUpper by {
            if k > 0 {
                assert(trace(phase, answers)[k] == rest[k - 1]);
            }
        }
    }
}

/// Once a search is over it stays over: whatever it is told, it answers with
/// the midpoint of the bracket it has, and changes nothing.
pub proof fn lemma_finished_is_final(answers: Seq<bool>)
    ensures
        phase_after(Phase::Finished, answers) == Phase::Finished,
        trace(Phase::Finished, answers) == Seq::new(answers.len(), |i: int| Action::ReturnMidpoint),
    decreases answers.len(),
{
    if answers.len() > 0 {
        lemma_finished_is_final(answers.drop_first());
        assert(trace(Phase::Finished, answers) =~= Seq::new(
            answers.len(),
            |i: int| Action::ReturnMidpoint,
        ));
    }
}

/// A search started on a bracket that is already converged (the function
/// reaches the target at its upper end, and the bracket is no wider than the
/// tolerance) returns that bracket's midpoint at once: it neither grows nor
/// moves the bracket, and every later step repeats the same answer.
pub proof fn lemma_converged_bracket_is_kept(answers: Seq<bool>)
    requires
        answers.len() >= 2,
        !answers[0],
        !answers[1],
    ensures
        trace(initial(), answers) == seq![Action::Continue] + Seq::new(
            (answers.len() - 1) as nat,
            |i: int| Action::ReturnMidpoint,
        ),
        !trace(initial(), answers).contains(Action::GrowUpper),
        !trace(initial(), answers).contains(Action::RaiseLower),
        !trace(initial(), answers).contains(Action::LowerUpper),
        phase_after(initial(), answers) == Phase::Finished,
{
    let rest = answers.drop_first();
    let tail = rest.drop_first();
    lemma_finished_is_final(tail);
    assert(trace(Phase::CheckWidth, rest) == seq![Action::ReturnMidpoint] + trace(
        Phase::Finished,
        tail,
    ));
    let t = trace(initial(), answers);
    assert(t =~= seq![Action::Continue] + Seq::new(
        (answers.len() - 1) as nat,
        |i: int| Action::ReturnMidpoint,
    ));
    assert(phase_after(Phase::CheckWidth, rest) == phase_after(Phase::Finished, tail));
    assert(t[0] == Action::Continue);
    assert(forall|k: int| 1 <= k < t.len() ==> t[k] == Action::ReturnMidpoint);
}

/// The bracket is grown only before bisection begins: in every run, no
/// growth of the upper end follows a move of either end to a midpoint.
pub proof fn lemma_growth_precedes_bisection(phase: Phase, answers: Seq<bool>, i: int, j: int)
    requires
        0 <= i < j < answers.len(),
        trace(phase, answers)[i] == Action::RaiseLower || trace(phase, answers)[i]
            == Action::LowerUpper,
    ensures
        trace(phase, answers)[j] != Action::GrowUpper,
    decreases answers.len(),
{
    let (next, action) = transition(phase, answers[0]);
    let rest = trace(next, answers.drop_first());
    lemma_trace_len(next, answers.drop_first());
    assert(trace(phase, answers) == seq![action] + rest);
    assert(trace(phase, answers)[j] == rest[j - 1]);
    if i == 0 {
        lemma_no_growth_once_bisecting(next, answers.drop_first());
        assert(rest.contains(rest[j - 1]));
    } else {
        assert(trace(phase, answers)[i] == rest[i - 1]);
        lemma_growth_precedes_bisection(next, answers.drop_first(), i - 1, j - 1);
    }
}

} // verus!
