//! A row of actions that are carried out in order until one fails.
use vstd::prelude::*;

verus! {

/// A row of actions, with how many of them are done.
#[derive(Debug, PartialEq, Eq)]
pub struct Script<A> {
    actions: Vec<A>,
    done: usize,
}

/// The model of a [`Script`].
pub struct ScriptView<A> {
    pub actions: Seq<A>,
    pub done: int,
}

impl<A> View for Script<A> {
    type V = ScriptView<A>;

    closed spec fn view(&self) -> ScriptView<A> {
        ScriptView { actions: self.actions@, done: self.done as int }
    }
}

/// What an action leads to.
#[derive(Debug, PartialEq, Eq)]
pub enum Step<A> {
    /// There is another action.
    More(Script<A>),
    /// All is done.
    Done,
    /// The action failed with this code.
    Failed(i32),
}

/// The model of a [`Step`].
pub enum StepView<A> {
    More(ScriptView<A>),
    Done,
    Failed(i32),
}

impl<A> View for Step<A> {
    type V = StepView<A>;

    open spec fn view(&self) -> StepView<A> {
        match *self {
            Step::More(script) => StepView::More(script@),
            Step::Done => StepView::Done,
            Step::Failed(code) => StepView::Failed(code),
        }
    }
}

impl<A> ScriptView<A> {
    /// There is an action to carry out.
    pub open spec fn wf(self) -> bool {
        0 <= self.done < self.actions.len()
    }

    /// What comes after the action in turn; code 0 tells that it succeeded.
    pub open spec fn after(self, code: i32) -> StepView<A> {
        if code != 0 {
            StepView::Failed(code)
        } else if self.done + 1 == self.actions.len() {
            StepView::Done
        } else {
            StepView::More(ScriptView { done: self.done + 1, ..self })
        }
    }

    /// What comes after several actions, whose codes are given. Codes behind the end are left
    /// aside.
    pub open spec fn after_all(self, codes: Seq<i32>) -> StepView<A>
        decreases codes.len(),
    {
        if codes.len() == 0 {
            StepView::More(self)
        } else {
            match self.after(codes[0]) {
                StepView::More(next) => next.after_all(codes.drop_first()),
                end => end,
            }
        }
    }
}

impl<A> Script<A> {
    /// A row of actions of which none is done.
    pub fn new(actions: Vec<A>) -> (script: Script<A>)
        requires
            actions@.len() > 0,
        ensures
            script@ == (ScriptView { actions: actions@, done: 0 }),
            script@.wf(),
    {
        Script { actions, done: 0 }
    }

    /// The action that is to be carried out.
    pub fn action(&self) -> (action: &A)
        requires
            self@.wf(),
        ensures
            *action == self@.actions[self@.done],
    {
        &self.actions[self.done]
    }

    /// Takes the code with which the action ended; 0 tells that it succeeded.
    pub fn report(self, code: i32) -> (step: Step<A>)
        requires
            self@.wf(),
        ensures
            step@ == self@.after(code),
            step@ matches StepView::More(next) ==> next.wf(),
    {
        if code != 0 {
            Step::Failed(code)
        } else if self.actions.len() - self.done == 1 {
            Step::Done
        } else {
            Step::More(Script { actions: self.actions, done: self.done + 1 })
        }
    }
}

/// As long as every action succeeds, all are carried out, each once and in order.
pub proof fn law_all_actions_are_done<A>(script: ScriptView<A>, codes: Seq<i32>)
    requires
        script.wf(),
        codes.len() <= script.actions.len() - script.done,
        forall|i: int| 0 <= i < codes.len() ==> codes[i] == 0,
    ensures
        script.after_all(codes) == if codes.len() == script.actions.len() - script.done {
            StepView::Done
        } else {
            StepView::More(ScriptView { done: script.done + codes.len(), ..script })
        },
    decreases codes.len(),
{
    if codes.len() > 0 {
        assert(codes[0] == 0);
        if let StepView::More(next) = script.after(codes[0]) {
            law_all_actions_are_done(next, codes.drop_first());
        }
    }
}

/// The first action that fails ends it all, with its code: no action after it is carried out.
pub proof fn law_first_failure_ends_it<A>(script: ScriptView<A>, codes: Seq<i32>, k: int)
    requires
        script.wf(),
        0 <= k < codes.len(),
        k < script.actions.len() - script.done,
        forall|i: int| 0 <= i < k ==> codes[i] == 0,
        codes[k] != 0,
    ensures
        script.after_all(codes) == StepView::<A>::Failed(codes[k]),
    decreases k,
{
    if k > 0 {
        assert(codes[0] == 0);
        let next = script.after(codes[0])->More_0;
        law_first_failure_ends_it(next, codes.drop_first(), k - 1);
    }
}

} // verus!
