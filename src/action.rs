use crate::params::{Layout, Parameters};
use vstd::prelude::*;

verus! {

/// Work outside the engine that an action asks for; whoever runs the
/// engine carries it out.
#[derive(Clone, Copy, Debug, PartialEq, Eq, Structural)]
pub enum Effect {
    /// Power the system off.
    Shutdown,
    /// Switch to the next render mode.
    SwitchRender,
}

/// What actions can change: the layout, and the effects asked for so far.
pub struct Outcome {
    pub layout: Layout,
    pub effects: Seq<Effect>,
}

/// Asks for the system to be powered off.
#[derive(Clone, Copy, Debug)]
pub struct ShutdownAction {}

/// Swaps the main layout between vertical and horizontal.
#[derive(Clone, Copy, Debug)]
pub struct ChangeLayoutAction {}

/// Asks for the next render mode.
#[derive(Clone, Copy, Debug)]
pub struct ChangeRenderAction {}

/// An effect of a rule that fired.
#[derive(Clone, Copy, Debug)]
pub enum Action {
    Shutdown(ShutdownAction),
    ChangeLayout(ChangeLayoutAction),
    ChangeRender(ChangeRenderAction),
}

impl Action {
    /// What applying the action does to an outcome.
    pub open spec fn step(self, o: Outcome) -> Outcome {
        match self {
            Action::Shutdown(_) => Outcome { effects: o.effects.push(Effect::Shutdown), ..o },
            Action::ChangeLayout(_) => Outcome { layout: o.layout.toggled(), ..o },
            Action::ChangeRender(_) => Outcome { effects: o.effects.push(Effect::SwitchRender), ..o },
        }
    }

    /// Applies the action; the network history and the pending touches are
    /// left alone. Always reports that it ran.
    pub fn apply(&self, params: &mut Parameters, effects: &mut Vec<Effect>) -> (r: bool)
        ensures
            r,
            final(params).net_infos == old(params).net_infos,
            final(params).touch_data == old(params).touch_data,
            outcome_of(final(params).options.main_layout, final(effects)@) == self.step(
                outcome_of(old(params).options.main_layout, old(effects)@),
            ),
    {
        match self {
            Action::Shutdown(_) => {
                effects.push(Effect::Shutdown);
            },
            Action::ChangeLayout(_) => {
                params.options.main_layout =
                    match params.options.main_layout {
                        Layout::Vertical => Layout::Horizontal,
                        Layout::Horizontal => Layout::Vertical,
                    };
            },
            Action::ChangeRender(_) => {
                effects.push(Effect::SwitchRender);
            },
        }
        true
    }
}

pub open spec fn outcome_of(layout: Layout, effects: Seq<Effect>) -> Outcome {
    Outcome { layout, effects }
}

/// The outcome of applying `acts` in order.
pub open spec fn run_actions(acts: Seq<Action>, o: Outcome) -> Outcome
    decreases acts.len(),
{
    if acts.len() == 0 {
        o
    } else {
        acts.last().step(run_actions(acts.drop_last(), o))
    }
}

} // verus!
