use crate::action::{outcome_of, run_actions, Action, Effect};
use crate::condition::Condition;
use crate::params::Parameters;
use crate::touch::TouchStatus;
use vstd::prelude::*;

verus! {

/// Applies `acts` in order.
fn apply_all(acts: &Vec<Action>, params: &mut Parameters, effects: &mut Vec<Effect>)
    ensures
        final(params).net_infos == old(params).net_infos,
        final(params).touch_data == old(params).touch_data,
        outcome_of(final(params).options.main_layout, final(effects)@) == run_actions(
            acts@,
            outcome_of(old(params).options.main_layout, old(effects)@),
        ),
{
    let ghost start = outcome_of(params.options.main_layout, effects@);
    let mut i: usize = 0;
    while i < acts.len()
        invariant
            i <= acts@.len(),
            params.net_infos == old(params).net_infos,
            params.touch_data == old(params).touch_data,
            start == outcome_of(old(params).options.main_layout, old(effects)@),
            outcome_of(params.options.main_layout, effects@) == run_actions(
                acts@.subrange(0, i as int),
                start,
            ),
        decreases acts@.len() - i,
    {
        acts[i].apply(params, effects);
        assert(acts@.subrange(0, i + 1).drop_last() == acts@.subrange(0, i as int));
        i = i + 1;
    }
    assert(acts@.subrange(0, acts@.len() as int) == acts@);
}

/// The newest pending touch.
fn last_touch(params: &Parameters) -> (r: &TouchStatus)
    requires
        params.touch_data@.len() > 0,
    ensures
        *r == params.touch_data@.last(),
{
    &params.touch_data[params.touch_data.len() - 1]
}

/// Fires when every one of its conditions holds.
pub struct AndRule {
    conditions: Vec<Condition>,
    actions: Vec<Action>,
}

impl AndRule {
    pub closed spec fn conds(&self) -> Seq<Condition> {
        self.conditions@
    }

    pub closed spec fn acts(&self) -> Seq<Action> {
        self.actions@
    }

    pub open spec fn fires(&self, touch: TouchStatus) -> bool {
        forall|i: int| 0 <= i < self.conds().len() ==> #[trigger] self.conds()[i].holds(touch)
    }

    pub fn new() -> (r: Self)
        ensures
            r.conds().len() == 0,
            r.acts().len() == 0,
    {
        AndRule { conditions: Vec::new(), actions: Vec::new() }
    }

    pub fn add_condition(&mut self, condition: Condition) -> (r: bool)
        ensures
            r,
            final(self).conds() == old(self).conds().push(condition),
            final(self).acts() == old(self).acts(),
    {
        self.conditions.push(condition);
        true
    }

    pub fn add_action(&mut self, action: Action) -> (r: bool)
        ensures
            r,
            final(self).conds() == old(self).conds(),
            final(self).acts() == old(self).acts().push(action),
    {
        self.actions.push(action);
        true
    }

    /// Whether all conditions hold for the newest pending touch.
    pub fn check(&self, params: &Parameters) -> (r: bool)
        requires
            params.touch_data@.len() > 0,
        ensures
            r == self.fires(params.touch_data@.last()),
    {
        let touch = last_touch(params);
        let mut i: usize = 0;
        while i < self.conditions.len()
            invariant
                i <= self.conds().len(),
                params.touch_data@.len() > 0,
                *touch == params.touch_data@.last(),
                forall|j: int| 0 <= j < i ==> #[trigger] self.conds()[j].holds(*touch),
            decreases self.conds().len() - i,
        {
            if !self.conditions[i].applies(touch) {
                assert(!self.conds()[i as int].holds(*touch));
                return false;
            }
            i = i + 1;
        }
        true
    }

    /// Runs every action in order; always reports that it ran.
    pub fn apply(&self, params: &mut Parameters, effects: &mut Vec<Effect>) -> (r: bool)
        ensures
            r,
            final(params).net_infos == old(params).net_infos,
            final(params).touch_data == old(params).touch_data,
            outcome_of(final(params).options.main_layout, final(effects)@) == run_actions(
                self.acts(),
                outcome_of(old(params).options.main_layout, old(effects)@),
            ),
    {
        apply_all(&self.actions, params, effects);
        true
    }
}

/// Fires when at least one of its conditions holds.
pub struct OrRule {
    conditions: Vec<Condition>,
    actions: Vec<Action>,
}

impl OrRule {
    pub closed spec fn conds(&self) -> Seq<Condition> {
        self.conditions@
    }

    pub closed spec fn acts(&self) -> Seq<Action> {
        self.actions@
    }

    pub open spec fn fires(&self, touch: TouchStatus) -> bool {
        exists|i: int| 0 <= i < self.conds().len() && #[trigger] self.conds()[i].holds(touch)
    }

    pub fn new() -> (r: Self)
        ensures
            r.conds().len() == 0,
            r.acts().len() == 0,
    {
        OrRule { conditions: Vec::new(), actions: Vec::new() }
    }

    pub fn add_condition(&mut self, condition: Condition) -> (r: bool)
        ensures
            r,
            final(self).conds() == old(self).conds().push(condition),
            final(self).acts() == old(self).acts(),
    {
        self.conditions.push(condition);
        true
    }

    pub fn add_action(&mut self, action: Action) -> (r: bool)
        ensures
            r,
            final(self).conds() == old(self).conds(),
            final(self).acts() == old(self).acts().push(action),
    {
        self.actions.push(action);
        true
    }

    /// Whether any condition holds for the newest pending touch.
    pub fn check(&self, params: &Parameters) -> (r: bool)
        requires
            params.touch_data@.len() > 0,
        ensures
            r == self.fires(params.touch_data@.last()),
    {
        let touch = last_touch(params);
        let mut i: usize = 0;
        while i < self.conditions.len()
            invariant
                i <= self.conds().len(),
                params.touch_data@.len() > 0,
                *touch == params.touch_data@.last(),
                forall|j: int| 0 <= j < i ==> !#[trigger] self.conds()[j].holds(*touch),
            decreases self.conds().len() - i,
        {
            if self.conditions[i].applies(touch) {
                assert(self.conds()[i as int].holds(*touch));
                return true;
            }
            i = i + 1;
        }
        false
    }

    /// Runs every action in order; always reports that it ran.
    pub fn apply(&self, params: &mut Parameters, effects: &mut Vec<Effect>) -> (r: bool)
        ensures
            r,
            final(params).net_infos == old(params).net_infos,
            final(params).touch_data == old(params).touch_data,
            outcome_of(final(params).options.main_layout, final(effects)@) == run_actions(
                self.acts(),
                outcome_of(old(params).options.main_layout, old(effects)@),
            ),
    {
        apply_all(&self.actions, params, effects);
        true
    }
}

/// One condition and one action.
pub struct SimpleRule {
    condition: Condition,
    action: Action,
}

impl SimpleRule {
    pub closed spec fn cond(&self) -> Condition {
        self.condition
    }

    pub closed spec fn act(&self) -> Action {
        self.action
    }

    pub open spec fn fires(&self, touch: TouchStatus) -> bool {
        self.cond().holds(touch)
    }

    pub fn new(condition: Condition, action: Action) -> (r: Self)
        ensures
            r.cond() == condition,
            r.act() == action,
    {
        SimpleRule { condition, action }
    }

    pub fn set_condition(&mut self, condition: Condition) -> (r: bool)
        ensures
            r,
            final(self).cond() == condition,
            final(self).act() == old(self).act(),
    {
        self.condition = condition;
        true
    }

    pub fn set_action(&mut self, action: Action) -> (r: bool)
        ensures
            r,
            final(self).cond() == old(self).cond(),
            final(self).act() == action,
    {
        self.action = action;
        true
    }

    /// Whether the condition holds for the newest pending touch.
    pub fn check(&self, params: &Parameters) -> (r: bool)
        requires
            params.touch_data@.len() > 0,
        ensures
            r == self.fires(params.touch_data@.last()),
    {
        self.condition.applies(last_touch(params))
    }

    /// Runs the action and reports what it reported.
    pub fn apply(&self, params: &mut Parameters, effects: &mut Vec<Effect>) -> (r: bool)
        ensures
            r,
            final(params).net_infos == old(params).net_infos,
            final(params).touch_data == old(params).touch_data,
            outcome_of(final(params).options.main_layout, final(effects)@) == self.act().step(
                outcome_of(old(params).options.main_layout, old(effects)@),
            ),
    {
        self.action.apply(params, effects)
    }
}

/// A condition-action rule of one of three shapes.
pub enum Rule {
    And(AndRule),
    Or(OrRule),
    Simple(SimpleRule),
}

impl Rule {
    pub open spec fn fires(&self, touch: TouchStatus) -> bool {
        match self {
            Rule::And(r) => r.fires(touch),
            Rule::Or(r) => r.fires(touch),
            Rule::Simple(r) => r.fires(touch),
        }
    }

    /// The actions the rule runs when it fires, in order.
    pub open spec fn actions(&self) -> Seq<Action> {
        match self {
            Rule::And(r) => r.acts(),
            Rule::Or(r) => r.acts(),
            Rule::Simple(r) => seq![r.act()],
        }
    }

    pub fn check(&self, params: &Parameters) -> (r: bool)
        requires
            params.touch_data@.len() > 0,
        ensures
            r == self.fires(params.touch_data@.last()),
    {
        match self {
            Rule::And(r) => r.check(params),
            Rule::Or(r) => r.check(params),
            Rule::Simple(r) => r.check(params),
        }
    }

    pub fn apply(&self, params: &mut Parameters, effects: &mut Vec<Effect>) -> (r: bool)
        ensures
            r,
            final(params).net_infos == old(params).net_infos,
            final(params).touch_data == old(params).touch_data,
            outcome_of(final(params).options.main_layout, final(effects)@) == run_actions(
                self.actions(),
                outcome_of(old(params).options.main_layout, old(effects)@),
            ),
    {
        match self {
            Rule::And(r) => r.apply(params, effects),
            Rule::Or(r) => r.apply(params, effects),
            Rule::Simple(r) => {
                let ghost start = outcome_of(params.options.main_layout, effects@);
                let ok = r.apply(params, effects);
                proof {
                    assert(seq![r.act()].drop_last() == Seq::<Action>::empty());
                    assert(seq![r.act()].last() == r.act());
                    assert(run_actions(Seq::<Action>::empty(), start) == start);
                    assert(run_actions(seq![r.act()], start) == r.act().step(start));
                }
                ok
            },
        }
    }
}

} // verus!
