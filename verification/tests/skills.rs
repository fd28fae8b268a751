use battlesim::battle::{BattleSnapshot, Effect, Effects, Hero, HeroStats, Element};
use battlesim::skill::{
    ActivationCheck, DamageAction, SkillAction, SkillComponentBuilder, Targeting,
};

fn lone_hero() -> BattleSnapshot {
    let hero = Hero {
        stats: HeroStats {
            max_hp: 100,
            hp: 100,
            atk: 10,
            spd: 10,
            def: 10,
            cc: 0,
            cdmg: 0,
            eff: 0,
            effres: 0,
            element: Element::Fire,
            hit_chance: 100,
            crit_resist: 0,
        },
        alive: true,
        readiness: 0,
        effects: Effects::new(),
        team: 1,
    };
    BattleSnapshot { base_stats: vec![hero.duplicate()], heroes: vec![hero] }
}

#[test]
fn self_single_targets_the_actor() {
    let ss = lone_hero();
    assert_eq!(Targeting::SelfSingle.get_target(&ss, 0), vec![0]);
    assert_eq!(Targeting::SelfAOE.get_target(&ss, 0), Vec::<usize>::new());
    assert_eq!(Targeting::EnemyAOE.get_target(&ss, 0), Vec::<usize>::new());
}

#[test]
fn damage_action_builder_replaces_fields() {
    let a = SkillAction::damage();
    assert_eq!(a, DamageAction { pow: 1000, atk_rate: 1000, def_pen: 0 });
    let a = a.pow(1300).atk_rate(800);
    assert_eq!(a, DamageAction { pow: 1300, atk_rate: 800, def_pen: 0 });
    let action = SkillAction::from(a);
    assert!(matches!(action, SkillAction::Damage(d) if d.pow == 1300 && d.atk_rate == 800));
}

#[test]
fn component_builder_sets_condition_and_targeting() {
    let mut b = SkillComponentBuilder::new(SkillAction::Effect {
        chance: 500_000,
        effect: Effect::Poison,
        duration: 2,
    });
    assert!(b.component.activate_condition.is_none());
    assert!(matches!(b.component.targeting, Targeting::EnemySingle));
    b.activate_condition(ActivationCheck::ActorAlive);
    b.targeting(Targeting::SelfSingle);
    assert!(matches!(b.component.activate_condition, Some(ActivationCheck::ActorAlive)));
    assert!(matches!(b.component.targeting, Targeting::SelfSingle));
}

#[test]
fn activation_check_reads_the_actor() {
    let ss = lone_hero();
    let actor = &ss.heroes[0];
    assert!(ActivationCheck::AlwaysFires.eval(&ss, actor, actor));
    assert!(ActivationCheck::ActorAlive.eval(&ss, actor, actor));
    let mut dead = actor.duplicate();
    dead.alive = false;
    assert!(!ActivationCheck::ActorAlive.eval(&ss, &dead, &dead));
}
