use battlesim::battle::{
    deal_damage, heal, hero_on_turn_start, proc_chance, turn_start, BattleSnapshot, ConsumePolicy,
    DamageInstance, DamageSource, Effect, EffectKind, Effects, FixedSkillPicker, Hero, HeroStats,
    Element, BattleAction, EFFECT_MAX_COUNT,
};
use battlesim::rng::{RngState, RngStep};
use battlesim::scheduler::{rng_node_run, DataCollector};
use battlesim::skill::{DualAtkTarget, Skill, SkillAction, SkillComponentBuilder, Targeting};

fn make_hero(team: u32) -> Hero {
    Hero {
        stats: HeroStats {
            max_hp: 10000,
            hp: 10000,
            atk: 3000,
            spd: 200,
            def: 1000,
            cc: 100,
            cdmg: 150,
            eff: 0,
            effres: 0,
            element: Element::Dark,
            hit_chance: 100,
            crit_resist: 0,
        },
        alive: true,
        readiness: 0,
        effects: Effects::new(),
        team,
    }
}

#[test]
fn unhealable_hero_observes_no_hp_change() {
    let mut hero = make_hero(1);
    hero.stats.hp = 4000;
    hero.apply_effect(Effect::Unhealable, 2);
    let hp_before = hero.stats.hp;

    let healed = heal(&mut hero, 500);

    assert!(!healed);
    assert_eq!(hero.stats.hp, hp_before);
}

#[test]
fn heal_clamps_to_max_hp() {
    let mut hero = make_hero(1);
    hero.stats.hp = 9800;
    let healed = heal(&mut hero, 500);
    assert!(healed);
    assert_eq!(hero.stats.hp, 10000);
}

#[test]
fn skill_null_blocks_exactly_one_hero_sourced_hit() {
    let attacker = make_hero(1);
    let mut target = make_hero(2);
    target.apply_effect(Effect::SkillNull, 1);
    assert!(target.effects.has_effect(Effect::SkillNull));

    let dmg = DamageInstance { raw_dmg: 500, def_pen: 0 };

    // The first hero-sourced hit is blocked, and the charge is spent.
    let first = deal_damage(DamageSource::Hero(&attacker), &mut target, &dmg);
    assert!(!first);
    assert!(!target.effects.has_effect(Effect::SkillNull));

    // A second hit from the same source goes through.
    let second = deal_damage(DamageSource::Hero(&attacker), &mut target, &dmg);
    assert!(second);
}

#[test]
fn invincible_blocks_damage_outright() {
    let attacker = make_hero(1);
    let mut target = make_hero(2);
    target.apply_effect(Effect::Invincible, 2);
    let dmg = DamageInstance { raw_dmg: 500, def_pen: 0 };
    assert!(!deal_damage(DamageSource::Hero(&attacker), &mut target, &dmg));
    assert!(!deal_damage(DamageSource::Effect, &mut target, &dmg));
}

#[test]
fn capacity_rejects_eleventh_effect() {
    let mut effects = Effects::new();
    for _ in 0..EFFECT_MAX_COUNT {
        let (ok, displaced) = effects.apply(Effect::Poison, 3);
        assert!(ok);
        assert!(displaced.is_none());
    }
    assert_eq!(effects.effect_count(), 10);

    let before: Vec<_> = (0..effects.effect_count()).map(|i| effects.entry_at(i)).collect();
    let (ok, displaced) = effects.apply(Effect::Bleed(40), 2);
    assert!(!ok);
    assert!(displaced.is_none());
    assert_eq!(effects.effect_count(), 10);
    for (i, e) in before.iter().enumerate() {
        assert_eq!(effects.entry_at(i), *e);
    }
}

#[test]
fn priority_overwrite_returns_displaced_and_nets_stats() {
    let mut hero = make_hero(1);
    assert_eq!(hero.stats.atk, 3000);

    hero.apply_effect(Effect::GreaterAtk, 1);
    assert_eq!(hero.stats.atk, 3750);

    // The displaced entry is handed back by the effect list itself.
    let mut probe = Effects::new();
    assert!(probe.apply(Effect::GreaterAtk, 1).0);
    let (ok, displaced) = probe.apply(Effect::AtkBuff, 3);
    assert!(ok);
    let displaced = displaced.unwrap();
    assert_eq!(displaced.effect, Effect::GreaterAtk);
    assert_eq!(displaced.kind, EffectKind::StatModifier(battlesim::battle::StatKind::ATK, 750));

    // AtkBuff outranks an active GreaterAtk: the entry is replaced, the old
    // delta is reversed and the new one applied; the net attack value is
    // old value - old delta + new delta.
    hero.apply_effect(Effect::AtkBuff, 3);
    assert_eq!(hero.stats.atk, 3750 - 750 + 500);
    assert_eq!(hero.stats.atk, 3500);
    assert_eq!(hero.effects.effect_count(), 1);
    let entry = hero.effects.entry_at(0);
    assert_eq!(entry.effect, Effect::AtkBuff);
    assert_eq!(entry.duration, 3);
}

#[test]
fn overwrite_keeps_longer_duration() {
    let mut hero = make_hero(1);
    hero.apply_effect(Effect::GreaterAtk, 5);
    hero.apply_effect(Effect::AtkBuff, 2);
    let entry = hero.effects.entry_at(0);
    assert_eq!(entry.effect, Effect::AtkBuff);
    assert_eq!(entry.duration, 5);
    assert_eq!(hero.stats.atk, 3500);
}

#[test]
fn stat_effect_expiry_reverses_exactly() {
    let mut hero = make_hero(1);
    hero.apply_effect(Effect::SpdBuff, 2);
    assert_eq!(hero.stats.spd, 500);

    // One decay pass of two turns expires the entry and restores the stat to
    // its pre-apply value exactly.
    hero.reduce_effect_duration(2);
    assert_eq!(hero.stats.spd, 200);
    assert_eq!(hero.effects.effect_count(), 0);
}

#[test]
fn dispel_removes_in_order_skipping_protected() {
    let mut effects = Effects::new();
    assert!(effects.apply(Effect::Rage, 3).0);
    assert!(effects.apply(Effect::Poison, 3).0);
    assert!(effects.apply(Effect::Burn(25), 3).0);
    assert!(effects.apply(Effect::ContinuousHealing, 3).0);

    let removed = effects.dispel(2);
    assert_eq!(removed, vec![Effect::Poison, Effect::Burn(25)]);
    assert_eq!(effects.effect_count(), 2);
    assert_eq!(effects.entry_at(0).effect, Effect::Rage);
    assert_eq!(effects.entry_at(1).effect, Effect::ContinuousHealing);
}

#[test]
fn turn_start_nets_continuous_healing_against_dots() {
    let mut hero = make_hero(1);
    hero.stats.hp = 5000;
    hero.apply_effect(Effect::ContinuousHealing, 2);
    hero.apply_effect(Effect::Burn(300), 2);

    hero_on_turn_start(&mut hero);

    // The damage conversion is a stand-in that deals nothing, so the net is a
    // heal of 15% of maximum hit points; both entries lose one turn.
    assert_eq!(hero.stats.hp, 5000 + 1500);
    assert_eq!(hero.effects.entry_at(0).duration, 1);
    assert_eq!(hero.effects.entry_at(1).duration, 1);

    hero_on_turn_start(&mut hero);
    hero_on_turn_start(&mut hero);
    // After two more ticks both entries have expired.
    assert_eq!(hero.effects.effect_count(), 0);
}

#[test]
fn bleed_query_returns_dot_entries_only() {
    let mut effects = Effects::new();
    assert!(effects.apply(Effect::Poison, 3).0);
    assert!(effects.apply(Effect::AtkBuff, 3).0);
    assert!(effects.apply(Effect::Burn(42), 1).0);
    let dots = effects.get_bleed_effects();
    assert_eq!(dots.len(), 2);
    assert_eq!(dots[0].effect, Effect::Poison);
    assert_eq!(dots[1].effect, Effect::Burn(42));
}

#[test]
fn turn_hero_is_living_hero_with_highest_readiness() {
    let mut a = make_hero(1);
    a.readiness = 900;
    a.alive = false;
    let mut b = make_hero(1);
    b.readiness = 500;
    let mut c = make_hero(2);
    c.readiness = 500;
    let snapshot = BattleSnapshot {
        base_stats: vec![a.duplicate(), b.duplicate(), c.duplicate()],
        heroes: vec![a, b, c],
    };
    // The dead hero is skipped; of the tied living heroes the later wins.
    assert_eq!(snapshot.get_turn_hero_id(), 2);
    assert_eq!(snapshot.get_base_stats_for_hero(0).readiness, 900);
}

#[test]
fn whole_turn_reports_both_branch_outcomes() {
    let hero1 = make_hero(1);
    let mut hero2 = make_hero(2);
    hero2.readiness = 700;

    let snapshot = BattleSnapshot {
        base_stats: vec![hero1.duplicate(), hero2.duplicate()],
        heroes: vec![hero1, hero2],
    };

    let mut skill = Skill { dual_atk_target: DualAtkTarget::NoDualAtk, components: vec![] };
    let mut builder = SkillComponentBuilder::new(SkillAction::Effect {
        chance: 850_000,
        effect: Effect::SpdDown,
        duration: 2,
    });
    builder.targeting(Targeting::SelfSingle);
    skill.new_component(builder);
    let picker = FixedSkillPicker::new(skill);

    let tree = turn_start(&snapshot, &picker);
    let mut collector: DataCollector<BattleSnapshot> = DataCollector::new();
    rng_node_run(tree, snapshot, &mut collector, 0, 10);

    // One component targeting a single enemy: one weighted branch, hence two
    // terminal snapshots, and the diagnostic label crossed once.
    assert_eq!(collector.results().len(), 2);
    for (depth, _final_state) in collector.results() {
        assert_eq!(*depth, 1);
    }
    let labels = collector.collected_labels();
    assert_eq!(labels.len(), 1);
    assert_eq!(labels[0], "Skill used");
}

#[test]
fn dead_battle_produces_no_turn() {
    let mut hero = make_hero(1);
    hero.alive = false;
    let snapshot = BattleSnapshot { base_stats: vec![hero.duplicate()], heroes: vec![hero] };

    let mut skill = Skill { dual_atk_target: DualAtkTarget::NoDualAtk, components: vec![] };
    skill.new_component(SkillComponentBuilder::new(SkillAction::Effect {
        chance: 0,
        effect: Effect::Poison,
        duration: 1,
    }));
    let picker = FixedSkillPicker::new(skill);

    let tree = turn_start(&snapshot, &picker);
    assert!(matches!(tree, battlesim::rng::RngNode::End));

    // An out-of-range command leaves the snapshot untouched instead of
    // panicking.
    let mut ss = BattleSnapshot { heroes: vec![], base_stats: vec![] };
    BattleAction::TurnStart { hero: 5 }.run_step(&mut ss);
    assert_eq!(ss.heroes.len(), 0);
}

#[test]
fn consume_policy_charges_matching_entries_only() {
    let mut effects = Effects::new();
    assert!(effects.apply(Effect::SkillNull, 2).0);
    assert!(effects.apply(Effect::Poison, 2).0);

    let removed = effects.consume_effects(ConsumePolicy::SkillNullCharge);
    assert_eq!(removed.len(), 0);
    assert_eq!(effects.entry_at(0).duration, 1);
    assert_eq!(effects.entry_at(1).duration, 2);

    let removed = effects.consume_effects(ConsumePolicy::SkillNullCharge);
    assert_eq!(removed.len(), 1);
    assert_eq!(removed[0].effect, Effect::SkillNull);
    assert_eq!(removed[0].duration, 0);
    assert_eq!(effects.effect_count(), 1);
    assert_eq!(effects.entry_at(0).effect, Effect::Poison);
}

#[test]
fn losing_priority_comparison_rejects_outright() {
    let mut hero = make_hero(1);
    hero.apply_effect(Effect::AtkBuff, 3);
    assert_eq!(hero.stats.atk, 3500);

    // GreaterAtk loses the priority comparison to an active AtkBuff: the
    // application fails, nothing is displaced, and nothing changes.
    let (ok, displaced) = hero.effects.apply(Effect::GreaterAtk, 5);
    assert!(!ok);
    assert!(displaced.is_none());
    assert_eq!(hero.effects.effect_count(), 1);
    assert_eq!(hero.effects.entry_at(0).effect, Effect::AtkBuff);

    hero.apply_effect(Effect::GreaterAtk, 5);
    assert_eq!(hero.stats.atk, 3500);
    assert_eq!(hero.effects.effect_count(), 1);
}

#[test]
fn proc_chance_keeps_fractional_effectiveness() {
    let mut enemy = make_hero(1);
    let mut target = make_hero(2);

    // Half a point of effectiveness advantage halves the chance instead of
    // vanishing: 1.0 * 0.5 = 0.5.
    enemy.stats.eff = 500;
    target.stats.effres = 0;
    assert_eq!(proc_chance(&enemy, &target, 1_000_000), 500_000);

    // 0.5 * (1.5 - 0.5) = 0.5.
    enemy.stats.eff = 1500;
    target.stats.effres = 500;
    assert_eq!(proc_chance(&enemy, &target, 500_000), 500_000);

    // The cap: 1.0 * 2.0 would be 2.0, held at 0.85.
    enemy.stats.eff = 2000;
    target.stats.effres = 0;
    assert_eq!(proc_chance(&enemy, &target, 1_000_000), 850_000);

    // No advantage, no proc.
    enemy.stats.eff = 300;
    target.stats.effres = 400;
    assert_eq!(proc_chance(&enemy, &target, 1_000_000), 0);
}

#[test]
fn heal_clamps_hp_to_zero_from_below() {
    let mut hero = make_hero(1);
    hero.stats.hp = -100;
    let healed = heal(&mut hero, 20);
    assert!(healed);
    assert_eq!(hero.stats.hp, 0);
}
