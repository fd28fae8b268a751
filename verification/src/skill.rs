//! Skill definitions: a skill is an ordered list of components, each with a
//! targeting policy, an optional activation predicate, and an action.
//! Predicates and actions are owned command values resolved against the
//! snapshot, never captured closures.

use vstd::prelude::*;
use crate::battle::{BattleSnapshot, Hero, HeroID, Effect};

verus! {

/// Which heroes a skill component is aimed at.
#[derive(Clone, Copy, PartialEq, Eq, Structural, Debug)]
pub enum Targeting {
    SelfAOE,
    EnemyAOE,
    SelfSingle,
    EnemySingle,
    HighestAtk,
    HighestCR,
}

/// The ordered target list of a component: self-targeting yields the acting
/// hero; the remaining policies are unimplemented placeholders of the combat
/// rules and yield no targets.
pub open spec fn spec_get_target(t: Targeting, src: HeroID) -> Seq<HeroID> {
    match t {
        Targeting::SelfSingle => seq![src],
        _ => Seq::empty(),
    }
}

impl Targeting {
    /// The ordered list of target hero ids for a skill component.
    pub fn get_target(&self, ss: &BattleSnapshot, src: HeroID) -> (r: Vec<HeroID>)
        ensures
            r@ == spec_get_target(*self, src),
    {
        let _ = ss;
        match self {
            Targeting::SelfSingle => {
                let mut v: Vec<HeroID> = Vec::new();
                v.push(src);
                proof {
                    assert(v@ =~= seq![src]);
                }
                v
            },
            _ => Vec::new(),
        }
    }
}

/// Whether and whom a dual attack follows up on.
#[derive(Clone, Copy, PartialEq, Eq, Structural, Debug)]
pub enum DualAtkTarget {
    NoDualAtk,
    Random,
    HighestAtk,
}

/// An activation predicate for a skill component, as an owned command value:
/// given the snapshot, the actor and a candidate target, decides whether the
/// component fires at all.
#[derive(Clone, Copy, PartialEq, Eq, Structural, Debug)]
pub enum ActivationCheck {
    AlwaysFires,
    ActorAlive,
}

/// The meaning of an activation predicate.
pub open spec fn spec_activation(c: ActivationCheck, actor: crate::battle::HeroView) -> bool {
    match c {
        ActivationCheck::AlwaysFires => true,
        ActivationCheck::ActorAlive => actor.alive,
    }
}

impl ActivationCheck {
    /// Evaluates the predicate against the snapshot, actor and target.
    pub fn eval(&self, ss: &BattleSnapshot, actor: &Hero, target: &Hero) -> (b: bool)
        ensures
            b == spec_activation(*self, actor@),
    {
        let _ = ss;
        let _ = target;
        match self {
            ActivationCheck::AlwaysFires => true,
            ActivationCheck::ActorAlive => actor.alive,
        }
    }
}

/// A damage action's parameters, in fixed-point fractions.
#[derive(Clone, Copy, PartialEq, Eq, Structural, Debug)]
pub struct DamageAction {
    pub pow: i64,
    pub atk_rate: i64,
    pub def_pen: i64,
}

impl DamageAction {
    /// Replaces the power multiplier.
    pub fn pow(self, pow: i64) -> (r: Self)
        ensures
            r == (DamageAction { pow, ..self }),
    {
        DamageAction { pow, ..self }
    }

    /// Replaces the attack rate.
    pub fn atk_rate(self, atk_rate: i64) -> (r: Self)
        ensures
            r == (DamageAction { atk_rate, ..self }),
    {
        DamageAction { atk_rate, ..self }
    }
}

/// What a skill component does to each of its targets.
#[derive(Clone, Copy, Debug)]
pub enum SkillAction {
    Effect { chance: u32, effect: Effect, duration: u32 },
    Damage(DamageAction),
    Splash { atk_rate: i64, def_pen: i64 },
    Idle,
}

impl SkillAction {
    /// A damage action with default parameters, to be refined by the
    /// [`DamageAction`] builder methods.
    pub fn damage() -> (r: DamageAction)
        ensures
            r == (DamageAction { pow: 1000, atk_rate: 1000, def_pen: 0 }),
    {
        DamageAction { pow: 1000, atk_rate: 1000, def_pen: 0 }
    }
}

impl From<DamageAction> for SkillAction {
    fn from(a: DamageAction) -> (r: SkillAction) {
        SkillAction::Damage(a)
    }
}

impl vstd::std_specs::convert::FromSpecImpl<DamageAction> for SkillAction {
    open spec fn obeys_from_spec() -> bool {
        true
    }

    open spec fn from_spec(a: DamageAction) -> SkillAction {
        SkillAction::Damage(a)
    }
}

/// One part of a skill: a targeting policy, an optional activation predicate,
/// and the action performed on each target.
#[derive(Clone, Copy, Debug)]
pub struct SkillComponent {
    pub activate_condition: Option<ActivationCheck>,
    pub action: SkillAction,
    pub targeting: Targeting,
}

/// A skill: its dual-attack follow-up rule and its ordered components.
pub struct Skill {
    pub dual_atk_target: DualAtkTarget,
    pub components: Vec<SkillComponent>,
}

impl View for Skill {
    type V = Seq<SkillComponent>;

    open spec fn view(&self) -> Seq<SkillComponent> {
        self.components@
    }
}

/// Whether every component's action applies an effect — all the engine
/// executes today; other actions are unimplemented in the combat rules.
pub open spec fn spec_skill_effects_only(comps: Seq<SkillComponent>) -> bool {
    forall|i: int|
        0 <= i < comps.len() ==> (#[trigger] comps[i].action) matches SkillAction::Effect { .. }
}

impl Skill {
    /// Appends a built component to the skill.
    pub fn new_component(&mut self, b: SkillComponentBuilder)
        ensures
            final(self)@ == old(self)@.push(b.component),
            final(self).dual_atk_target == old(self).dual_atk_target,
    {
        self.components.push(b.component);
    }
}

/// Builds one skill component around an action, to be attached with
/// [`Skill::new_component`].
pub struct SkillComponentBuilder {
    pub component: SkillComponent,
}

impl SkillComponentBuilder {
    /// A component performing the given action on a single enemy, with no
    /// activation predicate.
    pub fn new(action: SkillAction) -> (r: Self)
        ensures
            r.component.activate_condition is None,
            r.component.action == action,
            r.component.targeting == Targeting::EnemySingle,
    {
        SkillComponentBuilder {
            component: SkillComponent {
                activate_condition: Option::None,
                action,
                targeting: Targeting::EnemySingle,
            },
        }
    }

    /// Attaches an activation predicate to the component.
    pub fn activate_condition(&mut self, f: ActivationCheck)
        ensures
            final(self).component.activate_condition == Option::Some(f),
            final(self).component.action == old(self).component.action,
            final(self).component.targeting == old(self).component.targeting,
    {
        self.component.activate_condition = Option::Some(f);
    }

    /// Replaces the component's targeting policy.
    pub fn targeting(&mut self, t: Targeting)
        ensures
            final(self).component.targeting == t,
            final(self).component.action == old(self).component.action,
            final(self).component.activate_condition == old(self).component.activate_condition,
    {
        self.component.targeting = t;
    }
}

} // verus!
