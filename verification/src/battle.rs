//! The battle-domain state threaded through the engine: heroes with stat
//! blocks, their ordered status-effect lists, and the snapshot of a whole
//! encounter, together with the rules for applying, consuming and dispelling
//! effects and for dealing damage and healing.
//!
//! Stats and effect magnitudes are fixed-point integers: a stat-modifier
//! delta of `1000` stands for `1.0`. Every stat-modifying effect stores the
//! delta it applied with its entry, so that removal reverses the stat by
//! exactly the stored amount rather than a value recomputed from the effect's
//! identity.

use vstd::prelude::*;
use crate::rng::{RngNode, RngInstance, RngState, RngStep, CHANCE_DENOM, spec_for_each};
use crate::skill::{Skill, SkillComponent, SkillAction, spec_get_target, spec_activation,
    spec_skill_effects_only};
use vstd::string::StringExecFns;

verus! {

/// The capacity of a hero's effect list.
pub const EFFECT_MAX_COUNT: usize = 10;

/// Upper bound on sane base-stat values (hit points, attack, and so on).
pub const STAT_CAP: i64 = 1_000_000_000_000;

/// Arithmetic guard for stat mutation: a change is skipped when the current
/// value or the delta lies outside this range, so stat arithmetic is total
/// and cannot overflow.
pub const STAT_GUARD: i64 = 1_000_000_000_000_000;

#[derive(Clone, Copy, PartialEq, Eq, Structural, Debug)]
pub enum Element {
    Fire,
    Ice,
    Earth,
    Light,
    Dark,
}

/// Which member of the stat block a stat-modifying effect changes.
#[derive(Clone, Copy, PartialEq, Eq, Structural, Debug)]
pub enum StatKind {
    SPD,
    ATK,
    DEF,
    CC,
    CDmg,
    EffRes,
    EFF,
    HitChance,
    CritResist,
}

/// An effect identity; the damage-over-time kinds carry their fixed-point
/// damage-per-tick magnitude.
#[derive(Clone, Copy, PartialEq, Eq, Structural, Debug)]
pub enum Effect {
    AtkBuff,
    AtkDown,
    GreaterAtk,
    DefBreak,
    DefBuff,
    SpdBuff,
    SpdDown,
    CritResist,
    CannotBuff,
    Immunity,
    Unhealable,
    ContinuousHealing,
    Bleed(i64),
    Burn(i64),
    Poison,
    Rage,
    Daydream,
    Invincible,
    SkillNull,
}

/// What an effect does to its holder while active: either a stat change of a
/// fixed-point delta, or nothing beyond its presence.
#[derive(Clone, Copy, PartialEq, Eq, Structural, Debug)]
pub enum EffectKind {
    StatModifier(StatKind, i64),
    Simple,
}

/// The overwrite relation between a newly applied effect and an existing one.
#[derive(Clone, Copy, PartialEq, Eq, Structural, Debug)]
pub enum EffectPriority {
    First,
    Second,
    NoOverwrite,
}

/// One active status effect: its identity, the remaining duration in turns,
/// and the stat change it applied on entry (stored, not recomputed, so that
/// removal undoes exactly what application did).
#[derive(Clone, Copy, PartialEq, Eq, Structural, Debug)]
pub struct EffectEntry {
    pub effect: Effect,
    pub duration: u32,
    pub kind: EffectKind,
}

/// The stat change an effect performs while active.
pub open spec fn spec_effect_kind(e: Effect) -> EffectKind {
    match e {
        Effect::GreaterAtk => EffectKind::StatModifier(StatKind::ATK, 750),
        Effect::AtkBuff => EffectKind::StatModifier(StatKind::ATK, 500),
        Effect::DefBuff => EffectKind::StatModifier(StatKind::DEF, 600),
        Effect::DefBreak => EffectKind::StatModifier(StatKind::DEF, -700i64),
        Effect::SpdBuff => EffectKind::StatModifier(StatKind::SPD, 300),
        Effect::SpdDown => EffectKind::StatModifier(StatKind::SPD, -300i64),
        Effect::CritResist => EffectKind::StatModifier(StatKind::CritResist, 500),
        _ => EffectKind::Simple,
    }
}

/// Whether a dispel may remove the effect.
pub open spec fn spec_can_dispel(e: Effect) -> bool {
    match e {
        Effect::Rage | Effect::Daydream => false,
        _ => true,
    }
}

/// Whether several instances of the effect may be active at once.
pub open spec fn spec_can_stack(e: Effect) -> bool {
    match e {
        Effect::Burn(_) | Effect::Bleed(_) | Effect::Poison | Effect::ContinuousHealing => true,
        _ => false,
    }
}

/// The overwrite rule: applying `first` while `second` is active either
/// replaces `second` (`First`), is rejected in favour of `second` (`Second`),
/// or leaves both untouched (`NoOverwrite`).
pub open spec fn spec_priority(first: Effect, second: Effect) -> EffectPriority {
    match (first, second) {
        (Effect::AtkBuff, Effect::GreaterAtk) => EffectPriority::First,
        (Effect::GreaterAtk, Effect::AtkBuff) => EffectPriority::Second,
        _ => EffectPriority::NoOverwrite,
    }
}

impl Effect {
    pub fn get_kind(&self) -> (k: EffectKind)
        ensures
            k == spec_effect_kind(*self),
    {
        match self {
            Effect::GreaterAtk => EffectKind::StatModifier(StatKind::ATK, 750),
            Effect::AtkBuff => EffectKind::StatModifier(StatKind::ATK, 500),
            Effect::DefBuff => EffectKind::StatModifier(StatKind::DEF, 600),
            Effect::DefBreak => EffectKind::StatModifier(StatKind::DEF, -700),
            Effect::SpdBuff => EffectKind::StatModifier(StatKind::SPD, 300),
            Effect::SpdDown => EffectKind::StatModifier(StatKind::SPD, -300),
            Effect::CritResist => EffectKind::StatModifier(StatKind::CritResist, 500),
            _ => EffectKind::Simple,
        }
    }

    pub fn can_dispel(&self) -> (b: bool)
        ensures
            b == spec_can_dispel(*self),
    {
        match self {
            Effect::Rage | Effect::Daydream => false,
            _ => true,
        }
    }

    pub fn can_stack(&self) -> (b: bool)
        ensures
            b == spec_can_stack(*self),
    {
        match self {
            Effect::Burn(_) | Effect::Bleed(_) | Effect::Poison | Effect::ContinuousHealing => true,
            _ => false,
        }
    }

    pub fn get_priority(first: Effect, second: Effect) -> (p: EffectPriority)
        ensures
            p == spec_priority(first, second),
    {
        match (first, second) {
            (Effect::AtkBuff, Effect::GreaterAtk) => EffectPriority::First,
            (Effect::GreaterAtk, Effect::AtkBuff) => EffectPriority::Second,
            _ => EffectPriority::NoOverwrite,
        }
    }
}

/// The ordered, capacity-bounded effect list of one hero.
pub struct Effects {
    arr: Vec<EffectEntry>,
}

impl View for Effects {
    type V = Seq<EffectEntry>;

    closed spec fn view(&self) -> Seq<EffectEntry> {
        self.arr@
    }
}

/// The index of the first entry from `i` on that applying `e` overwrites.
pub open spec fn spec_find_overwrite(s: Seq<EffectEntry>, e: Effect, i: int) -> Option<int>
    decreases s.len() - i,
{
    if i < 0 || i >= s.len() {
        Option::None
    } else if spec_priority(e, s[i].effect) is First {
        Option::Some(i)
    } else {
        spec_find_overwrite(s, e, i + 1)
    }
}

/// The index of the first entry from `i` on whose active effect outranks an
/// application of `e`, so that the application is rejected outright.
pub open spec fn spec_find_reject(s: Seq<EffectEntry>, e: Effect, i: int) -> Option<int>
    decreases s.len() - i,
{
    if i < 0 || i >= s.len() {
        Option::None
    } else if spec_priority(e, s[i].effect) is Second {
        Option::Some(i)
    } else {
        spec_find_reject(s, e, i + 1)
    }
}

/// A freshly created entry for `e`, with its stat change recorded.
pub open spec fn spec_new_entry(e: Effect, d: u32) -> EffectEntry {
    EffectEntry { effect: e, duration: d, kind: spec_effect_kind(e) }
}

/// What applying an effect does to a list of entries: a non-stacking effect
/// that finds an entry its priority rule overwrites replaces that entry (the
/// new duration is the larger of old and new) and yields the displaced entry;
/// a non-stacking effect that loses the priority comparison to some active
/// entry is rejected outright; otherwise the entry is appended if there is
/// capacity, and rejected without mutation if not.
/// Result: (success, displaced entry, new list).
pub open spec fn spec_effects_apply(s: Seq<EffectEntry>, e: Effect, d: u32) -> (
    bool,
    Option<EffectEntry>,
    Seq<EffectEntry>,
) {
    let found = if spec_can_stack(e) {
        Option::None
    } else {
        spec_find_overwrite(s, e, 0)
    };
    match found {
        Option::Some(i) => {
            let displaced = s[i];
            let nd = if displaced.duration > d {
                displaced.duration
            } else {
                d
            };
            (true, Option::Some(displaced), s.update(i, EffectEntry { effect: e, duration: nd, kind: spec_effect_kind(e) }))
        },
        Option::None => if !spec_can_stack(e) && spec_find_reject(s, e, 0) is Some {
            (false, Option::None, s)
        } else if s.len() < EFFECT_MAX_COUNT {
            (true, Option::None, s.push(spec_new_entry(e, d)))
        } else {
            (false, Option::None, s)
        },
    }
}

/// The per-entry turn cost of one consumption pass, as an owned policy value
/// supplied by the caller: the turn-start tick charges damage-over-time and
/// continuous-healing entries, a blocked hero-sourced hit spends a skill-null
/// charge, and a decay pass charges every dispellable entry the given turns.
#[derive(Clone, Copy, PartialEq, Eq, Structural, Debug)]
pub enum ConsumePolicy {
    DamageOverTime,
    SkillNullCharge,
    Decay(u32),
}

/// How many turns one consumption pass charges the given entry.
pub open spec fn spec_consume_cost(p: ConsumePolicy, entry: EffectEntry) -> u32 {
    match p {
        ConsumePolicy::DamageOverTime => match entry.effect {
            Effect::Burn(_) | Effect::Bleed(_) | Effect::Poison | Effect::ContinuousHealing => 1u32,
            _ => 0u32,
        },
        ConsumePolicy::SkillNullCharge => if entry.effect is SkillNull {
            1u32
        } else {
            0u32
        },
        ConsumePolicy::Decay(n) => if spec_can_dispel(entry.effect) {
            n
        } else {
            0u32
        },
    }
}

/// An entry after being charged one pass's turn cost; the duration saturates
/// at zero, which marks the entry for removal.
pub open spec fn spec_tick(entry: EffectEntry, p: ConsumePolicy) -> EffectEntry {
    let cost = spec_consume_cost(p, entry);
    EffectEntry {
        effect: entry.effect,
        duration: if cost >= entry.duration {
            0u32
        } else {
            (entry.duration - cost) as u32
        },
        kind: entry.kind,
    }
}

impl ConsumePolicy {
    /// The executable turn cost; see [`spec_consume_cost`].
    pub fn turn_cost(&self, entry: &EffectEntry) -> (c: u32)
        ensures
            c == spec_consume_cost(*self, *entry),
    {
        match self {
            ConsumePolicy::DamageOverTime => match entry.effect {
                Effect::Burn(_) | Effect::Bleed(_) | Effect::Poison
                | Effect::ContinuousHealing => 1,
                _ => 0,
            },
            ConsumePolicy::SkillNullCharge => if matches!(entry.effect, Effect::SkillNull) {
                1
            } else {
                0
            },
            ConsumePolicy::Decay(n) => if entry.effect.can_dispel() {
                *n
            } else {
                0
            },
        }
    }
}

/// What one consumption pass does to a list of entries: every entry is
/// charged its turn cost in order; entries whose duration drops below one are
/// removed. Result: (remaining entries, removed entries).
pub open spec fn spec_consume(s: Seq<EffectEntry>, p: ConsumePolicy) -> (
    Seq<EffectEntry>,
    Seq<EffectEntry>,
)
    decreases s.len(),
{
    if s.len() == 0 {
        (Seq::empty(), Seq::empty())
    } else {
        let e0 = spec_tick(s[0], p);
        let r = spec_consume(s.drop_first(), p);
        if e0.duration < 1 {
            (r.0, seq![e0] + r.1)
        } else {
            (seq![e0] + r.0, r.1)
        }
    }
}

/// What a dispel of up to `n` entries does: dispellable entries are removed
/// in list order until the budget is spent, non-dispellable ones are skipped.
/// Result: (remaining entries, removed effect identities).
pub open spec fn spec_dispel(s: Seq<EffectEntry>, n: nat) -> (Seq<EffectEntry>, Seq<Effect>)
    decreases s.len(),
{
    if s.len() == 0 || n == 0 {
        (s, Seq::empty())
    } else if spec_can_dispel(s[0].effect) {
        let r = spec_dispel(s.drop_first(), (n - 1) as nat);
        (r.0, seq![s[0].effect] + r.1)
    } else {
        let r = spec_dispel(s.drop_first(), n);
        (seq![s[0]] + r.0, r.1)
    }
}

/// The damage-over-time entries (burn, bleed, poison) of a list, in order.
pub open spec fn spec_bleeds(s: Seq<EffectEntry>) -> Seq<EffectEntry>
    decreases s.len(),
{
    if s.len() == 0 {
        Seq::empty()
    } else {
        spec_bleeds(s.drop_last()) + (match s.last().effect {
            Effect::Burn(_) | Effect::Bleed(_) | Effect::Poison => seq![s.last()],
            _ => Seq::empty(),
        })
    }
}

/// Whether some entry carries the given effect identity.
pub open spec fn spec_has_effect(s: Seq<EffectEntry>, e: Effect) -> bool {
    exists|i: int| 0 <= i < s.len() && (#[trigger] s[i]).effect == e
}

impl Effects {
    /// An empty effect list.
    pub fn new() -> (r: Self)
        ensures
            r@ == Seq::<EffectEntry>::empty(),
    {
        Effects { arr: Vec::new() }
    }

    /// The number of active entries.
    pub fn effect_count(&self) -> (n: usize)
        ensures
            n == self@.len(),
    {
        self.arr.len()
    }

    /// The entry at position `i`.
    pub fn entry_at(&self, i: usize) -> (e: EffectEntry)
        requires
            i < self@.len(),
        ensures
            e == self@[i as int],
    {
        self.arr[i]
    }

    /// Applies an effect for the given duration; see [`spec_effects_apply`].
    /// Returns whether the application took hold, and the displaced entry if
    /// an existing one was overwritten (so the caller can reverse its stat
    /// change). An application the priority rule rejects, or one arriving at
    /// a full list, fails without mutation.
    #[verifier::loop_isolation(false)]
    pub fn apply(&mut self, effect: Effect, duration: u32) -> (r: (bool, Option<EffectEntry>))
        ensures
            ({
                let (ok, displaced, entries2) = spec_effects_apply(old(self)@, effect, duration);
                r.0 == ok && r.1 == displaced && final(self)@ == entries2
            }),
    {
        let ghost s0 = self.arr@;
        if !effect.can_stack() {
            let mut i: usize = 0;
            while i < self.arr.len()
                invariant
                    self@ == s0,
                    i <= s0.len(),
                    spec_find_overwrite(s0, effect, 0) == spec_find_overwrite(
                        s0,
                        effect,
                        i as int,
                    ),
                decreases s0.len() - i,
            {
                let e = self.arr[i];
                let p = Effect::get_priority(effect, e.effect);
                if matches!(p, EffectPriority::First) {
                    let nd = if e.duration > duration {
                        e.duration
                    } else {
                        duration
                    };
                    self.arr[i] = EffectEntry { effect, duration: nd, kind: effect.get_kind() };
                    return (true, Option::Some(e));
                }
                i = i + 1;
            }
            let mut j: usize = 0;
            while j < self.arr.len()
                invariant
                    self@ == s0,
                    j <= s0.len(),
                    spec_find_reject(s0, effect, 0) == spec_find_reject(s0, effect, j as int),
                decreases s0.len() - j,
            {
                let e = self.arr[j];
                let p = Effect::get_priority(effect, e.effect);
                if matches!(p, EffectPriority::Second) {
                    return (false, Option::None);
                }
                j = j + 1;
            }
        }
        if self.arr.len() < EFFECT_MAX_COUNT {
            self.arr.push(EffectEntry { effect, duration, kind: effect.get_kind() });
            (true, Option::None)
        } else {
            (false, Option::None)
        }
    }

    /// The damage-over-time entries (burn, bleed, poison) currently active,
    /// in list order.
    #[verifier::loop_isolation(false)]
    pub fn get_bleed_effects(&self) -> (r: Vec<EffectEntry>)
        ensures
            r@ == spec_bleeds(self@),
    {
        let mut r: Vec<EffectEntry> = Vec::new();
        let mut i: usize = 0;
        while i < self.arr.len()
            invariant
                i <= self@.len(),
                r@ == spec_bleeds(self@.take(i as int)),
            decreases self@.len() - i,
        {
            proof {
                assert(self@.take(i + 1).drop_last() =~= self@.take(i as int));
                assert(self@.take(i + 1).last() == self@[i as int]);
            }
            let entry = self.arr[i];
            match entry.effect {
                Effect::Burn(_) | Effect::Bleed(_) | Effect::Poison => {
                    r.push(entry);
                },
                _ => {
                    proof {
                        assert(r@ + Seq::<EffectEntry>::empty() =~= r@);
                    }
                },
            }
            i = i + 1;
        }
        proof {
            assert(self@.take(self@.len() as int) =~= self@);
        }
        r
    }

    /// Removes up to `num_debuffs` dispellable entries, in list order,
    /// skipping non-dispellable ones; returns the removed effect identities
    /// for on-dispel notification hooks.
    #[verifier::loop_isolation(false)]
    pub fn dispel(&mut self, num_debuffs: u32) -> (removed: Vec<Effect>)
        ensures
            final(self)@ == spec_dispel(old(self)@, num_debuffs as nat).0,
            removed@ == spec_dispel(old(self)@, num_debuffs as nat).1,
    {
        let ghost s0 = self.arr@;
        let mut removed: Vec<Effect> = Vec::new();
        let mut i: usize = 0;
        proof {
            assert(s0.skip(0) =~= s0);
            assert(s0.take(0) =~= Seq::<EffectEntry>::empty());
            assert(Seq::<EffectEntry>::empty() + spec_dispel(s0, num_debuffs as nat).0
                =~= spec_dispel(s0, num_debuffs as nat).0);
            assert(Seq::<Effect>::empty() + spec_dispel(s0, num_debuffs as nat).1 =~= spec_dispel(
                s0,
                num_debuffs as nat,
            ).1);
        }
        while i < self.arr.len() && removed.len() < num_debuffs as usize
            invariant
                i <= self.arr@.len(),
                removed@.len() <= num_debuffs,
                spec_dispel(s0, num_debuffs as nat).0 == self.arr@.take(i as int) + spec_dispel(
                    self.arr@.skip(i as int),
                    (num_debuffs - removed@.len()) as nat,
                ).0,
                spec_dispel(s0, num_debuffs as nat).1 == removed@ + spec_dispel(
                    self.arr@.skip(i as int),
                    (num_debuffs - removed@.len()) as nat,
                ).1,
            decreases self.arr@.len() - i,
        {
            let ghost pre = self.arr@;
            let ghost budget = (num_debuffs - removed@.len()) as nat;
            proof {
                assert(pre.skip(i as int)[0] == pre[i as int]);
                assert(pre.skip(i as int).drop_first() =~= pre.skip(i as int + 1));
            }
            let entry = self.arr[i];
            if entry.effect.can_dispel() {
                let ghost prer = removed@;
                removed.push(entry.effect);
                let _ = self.arr.remove(i);
                proof {
                    assert(self.arr@ =~= pre.remove(i as int));
                    assert(self.arr@.take(i as int) =~= pre.take(i as int));
                    assert(self.arr@.skip(i as int) =~= pre.skip(i as int + 1));
                    assert(removed@ =~= prer + seq![entry.effect]);
                    assert(prer + (seq![entry.effect] + spec_dispel(
                        pre.skip(i as int + 1),
                        (budget - 1) as nat,
                    ).1) =~= removed@ + spec_dispel(pre.skip(i as int + 1), (budget - 1) as nat).1);
                }
            } else {
                i = i + 1;
                proof {
                    assert(self.arr@.take(i as int) =~= self.arr@.take(i - 1).push(
                        self.arr@[i - 1],
                    ));
                    assert((self.arr@.take(i - 1) + seq![self.arr@[i - 1]]) + spec_dispel(
                        self.arr@.skip(i as int),
                        budget,
                    ).0 =~= self.arr@.take(i - 1) + (seq![self.arr@[i - 1]] + spec_dispel(
                        self.arr@.skip(i as int),
                        budget,
                    ).0));
                }
            }
        }
        proof {
            if i >= self.arr@.len() {
                assert(self.arr@.skip(i as int) =~= Seq::<EffectEntry>::empty());
                assert(self.arr@.take(i as int) =~= self.arr@);
                assert(removed@ + Seq::<Effect>::empty() =~= removed@);
                assert(self.arr@ + Seq::<EffectEntry>::empty() =~= self.arr@);
            } else {
                assert(removed@.len() == num_debuffs);
                assert(self.arr@.take(i as int) + self.arr@.skip(i as int) =~= self.arr@);
                assert(removed@ + Seq::<Effect>::empty() =~= removed@);
            }
        }
        removed
    }

    /// One consumption pass: every entry is charged the policy's turn cost;
    /// an entry whose remaining duration drops below one is removed and
    /// returned so the caller can reverse its stat change.
    #[verifier::loop_isolation(false)]
    pub fn consume_effects(&mut self, policy: ConsumePolicy) -> (removed: Vec<EffectEntry>)
        ensures
            final(self)@ == spec_consume(old(self)@, policy).0,
            removed@ == spec_consume(old(self)@, policy).1,
    {
        let ghost s0 = self.arr@;
        let mut removed: Vec<EffectEntry> = Vec::new();
        let mut i: usize = 0;
        proof {
            assert(s0.skip(0) =~= s0);
            assert(s0.take(0) =~= Seq::<EffectEntry>::empty());
            assert(Seq::<EffectEntry>::empty() + spec_consume(s0, policy).0 =~= spec_consume(
                s0,
                policy,
            ).0);
            assert(Seq::<EffectEntry>::empty() + spec_consume(s0, policy).1 =~= spec_consume(
                s0,
                policy,
            ).1);
        }
        while i < self.arr.len()
            invariant
                i <= self.arr@.len(),
                self.arr@.take(i as int) == spec_consume(s0, policy).0.take(i as int),
                spec_consume(s0, policy).0 == self.arr@.take(i as int) + spec_consume(
                    self.arr@.skip(i as int),
                    policy,
                ).0,
                spec_consume(s0, policy).1 == removed@ + spec_consume(
                    self.arr@.skip(i as int),
                    policy,
                ).1,
            decreases self.arr@.len() - i,
        {
            let ghost pre = self.arr@;
            proof {
                assert(pre.skip(i as int)[0] == pre[i as int]);
            }
            let entry = self.arr[i];
            let cost = policy.turn_cost(&entry);
            let nd = if cost >= entry.duration {
                0
            } else {
                entry.duration - cost
            };
            let ticked = EffectEntry { effect: entry.effect, duration: nd, kind: entry.kind };
            self.arr[i] = ticked;
            let ghost mid = self.arr@;
            proof {
                assert(ticked == spec_tick(entry, policy));
                assert(mid.take(i as int) =~= pre.take(i as int));
                assert(mid.skip(i as int)[0] == ticked);
                assert(mid.skip(i as int).drop_first() =~= pre.skip(i as int).drop_first());
                assert(pre.skip(i as int).drop_first() =~= pre.skip(i as int + 1));
                assert(mid.skip(i as int + 1) =~= pre.skip(i as int + 1));
            }
            if nd < 1 {
                let ghost prer = removed@;
                let _ = self.arr.remove(i);
                removed.push(ticked);
                proof {
                    assert(self.arr@ =~= mid.remove(i as int));
                    assert(self.arr@.take(i as int) =~= pre.take(i as int));
                    assert(self.arr@.skip(i as int) =~= pre.skip(i as int + 1));
                    assert(removed@ =~= prer + seq![ticked]);
                    assert(prer + (seq![ticked] + spec_consume(
                        pre.skip(i as int + 1),
                        policy,
                    ).1) =~= removed@ + spec_consume(pre.skip(i as int + 1), policy).1);
                }
            } else {
                i = i + 1;
                proof {
                    assert(self.arr@.take(i as int) =~= pre.take(i - 1).push(ticked));
                    assert((pre.take(i - 1) + seq![ticked]) + spec_consume(
                        self.arr@.skip(i as int),
                        policy,
                    ).0 =~= pre.take(i - 1) + (seq![ticked] + spec_consume(
                        self.arr@.skip(i as int),
                        policy,
                    ).0));
                }
            }
        }
        proof {
            assert(self.arr@.skip(i as int) =~= Seq::<EffectEntry>::empty());
            assert(self.arr@.take(i as int) =~= self.arr@);
            assert(removed@ + Seq::<EffectEntry>::empty() =~= removed@);
            assert(self.arr@ + Seq::<EffectEntry>::empty() =~= self.arr@);
        }
        removed
    }

    /// Whether an effect with the given identity is active.
    #[verifier::loop_isolation(false)]
    pub fn has_effect(&self, effect: Effect) -> (b: bool)
        ensures
            b == spec_has_effect(self@, effect),
    {
        let mut i: usize = 0;
        while i < self.arr.len()
            invariant
                i <= self@.len(),
                forall|j: int| 0 <= j < i ==> (#[trigger] self@[j]).effect != effect,
            decreases self@.len() - i,
        {
            if self.arr[i].effect == effect {
                return true;
            }
            i = i + 1;
        }
        false
    }
}

/// A hero's stat block, in fixed-point integers.
#[derive(Clone, Copy, PartialEq, Eq, Structural, Debug)]
pub struct HeroStats {
    pub max_hp: i64,
    pub hp: i64,
    pub atk: i64,
    pub spd: i64,
    pub def: i64,
    pub cc: i64,
    pub cdmg: i64,
    pub eff: i64,
    pub effres: i64,
    pub element: Element,
    pub hit_chance: i64,
    pub crit_resist: i64,
}

/// One combatant: stat block, liveness flag, turn-readiness value, ordered
/// effect list, and team id.
pub struct Hero {
    pub stats: HeroStats,
    pub alive: bool,
    pub readiness: u32,
    pub effects: Effects,
    pub team: u32,
}

/// The mathematical value of a hero.
#[verifier::ext_equal]
pub ghost struct HeroView {
    pub stats: HeroStats,
    pub alive: bool,
    pub readiness: u32,
    pub effects: Seq<EffectEntry>,
    pub team: u32,
}

impl View for Hero {
    type V = HeroView;

    open spec fn view(&self) -> HeroView {
        HeroView {
            stats: self.stats,
            alive: self.alive,
            readiness: self.readiness,
            effects: self.effects@,
            team: self.team,
        }
    }
}

/// The stat-block member a stat kind selects.
pub open spec fn spec_stat_value(s: HeroStats, k: StatKind) -> i64 {
    match k {
        StatKind::ATK => s.atk,
        StatKind::SPD => s.spd,
        StatKind::DEF => s.def,
        StatKind::CC => s.cc,
        StatKind::CDmg => s.cdmg,
        StatKind::HitChance => s.hit_chance,
        StatKind::CritResist => s.crit_resist,
        StatKind::EFF => s.eff,
        StatKind::EffRes => s.effres,
    }
}

/// The stat block with one member replaced.
pub open spec fn spec_with_stat(s: HeroStats, k: StatKind, v: i64) -> HeroStats {
    match k {
        StatKind::ATK => HeroStats { atk: v, ..s },
        StatKind::SPD => HeroStats { spd: v, ..s },
        StatKind::DEF => HeroStats { def: v, ..s },
        StatKind::CC => HeroStats { cc: v, ..s },
        StatKind::CDmg => HeroStats { cdmg: v, ..s },
        StatKind::HitChance => HeroStats { hit_chance: v, ..s },
        StatKind::CritResist => HeroStats { crit_resist: v, ..s },
        StatKind::EFF => HeroStats { eff: v, ..s },
        StatKind::EffRes => HeroStats { effres: v, ..s },
    }
}

/// Whether a stat change may be carried out: both the current value and the
/// delta must lie within the arithmetic guard; a change outside it is skipped.
pub open spec fn spec_stat_change_applies(cur: i64, delta: i64) -> bool {
    -STAT_GUARD <= cur <= STAT_GUARD && -STAT_GUARD <= delta <= STAT_GUARD
}

/// A hero after a stat increase of `delta` on the member `k`.
pub open spec fn spec_add_stat(h: HeroView, k: StatKind, delta: i64) -> HeroView {
    let cur = spec_stat_value(h.stats, k);
    if spec_stat_change_applies(cur, delta) {
        HeroView { stats: spec_with_stat(h.stats, k, (cur + delta) as i64), ..h }
    } else {
        h
    }
}

/// A hero after a stat decrease of `delta` on the member `k`.
pub open spec fn spec_remove_stat(h: HeroView, k: StatKind, delta: i64) -> HeroView {
    let cur = spec_stat_value(h.stats, k);
    if spec_stat_change_applies(cur, delta) {
        HeroView { stats: spec_with_stat(h.stats, k, (cur - delta) as i64), ..h }
    } else {
        h
    }
}

/// A hero after reversing the stat change stored with a removed entry.
pub open spec fn spec_undo_entry(h: HeroView, entry: EffectEntry) -> HeroView {
    match entry.kind {
        EffectKind::StatModifier(k, m) => spec_remove_stat(h, k, m),
        EffectKind::Simple => h,
    }
}

/// A hero after reversing the stat changes of a sequence of removed entries,
/// in order.
pub open spec fn spec_undo_all(h: HeroView, removed: Seq<EffectEntry>) -> HeroView
    decreases removed.len(),
{
    if removed.len() == 0 {
        h
    } else {
        spec_undo_entry(spec_undo_all(h, removed.drop_last()), removed.last())
    }
}

/// A hero after applying an effect: the effect list changes per
/// [`spec_effects_apply`]; a displaced entry's stored stat change is reversed;
/// a successful stat-modifying application adds its delta.
pub open spec fn spec_hero_apply_effect(h: HeroView, e: Effect, d: u32) -> HeroView {
    let r = spec_effects_apply(h.effects, e, d);
    let h1 = HeroView { effects: r.2, ..h };
    let h2 = match r.1 {
        Option::Some(de) => spec_undo_entry(h1, de),
        Option::None => h1,
    };
    if r.0 {
        match spec_effect_kind(e) {
            EffectKind::StatModifier(k, m) => spec_add_stat(h2, k, m),
            EffectKind::Simple => h2,
        }
    } else {
        h2
    }
}

/// A hero after one consumption pass: durations are charged per the policy,
/// expired entries are removed, and each removed entry's stored stat change is
/// reversed, in removal order.
pub open spec fn spec_hero_consume(h: HeroView, p: ConsumePolicy) -> HeroView {
    let r = spec_consume(h.effects, p);
    spec_undo_all(HeroView { effects: r.0, ..h }, r.1)
}

impl Effects {
    /// An independent copy with the same entries.
    #[verifier::loop_isolation(false)]
    pub fn duplicate(&self) -> (r: Self)
        ensures
            r@ == self@,
    {
        let mut arr: Vec<EffectEntry> = Vec::new();
        let mut i: usize = 0;
        while i < self.arr.len()
            invariant
                i <= self@.len(),
                arr@ == self@.take(i as int),
            decreases self@.len() - i,
        {
            arr.push(self.arr[i]);
            proof {
                assert(self@.take(i + 1).drop_last() =~= self@.take(i as int));
                assert(arr@ =~= self@.take(i + 1));
            }
            i = i + 1;
        }
        proof {
            assert(self@.take(self@.len() as int) =~= self@);
        }
        Effects { arr }
    }
}

impl Hero {
    /// A mutable borrow of the stat-block member the stat kind selects.
    pub fn member_for_stat(&mut self, stat: StatKind) -> (m: &mut i64)
        ensures
            *m == spec_stat_value(old(self).stats, stat),
            final(self).stats == spec_with_stat(old(self).stats, stat, *final(m)),
            final(self).alive == old(self).alive,
            final(self).readiness == old(self).readiness,
            final(self).effects == old(self).effects,
            final(self).team == old(self).team,
    {
        match stat {
            StatKind::ATK => &mut self.stats.atk,
            StatKind::SPD => &mut self.stats.spd,
            StatKind::DEF => &mut self.stats.def,
            StatKind::CC => &mut self.stats.cc,
            StatKind::CDmg => &mut self.stats.cdmg,
            StatKind::HitChance => &mut self.stats.hit_chance,
            StatKind::CritResist => &mut self.stats.crit_resist,
            StatKind::EFF => &mut self.stats.eff,
            StatKind::EffRes => &mut self.stats.effres,
        }
    }

    /// Raises the selected stat by the delta; skipped outside the arithmetic
    /// guard.
    pub fn add_stat_change(&mut self, kind: StatKind, modifier: i64)
        ensures
            final(self)@ == spec_add_stat(old(self)@, kind, modifier),
    {
        let m = self.member_for_stat(kind);
        let cur = *m;
        if -STAT_GUARD <= cur && cur <= STAT_GUARD && -STAT_GUARD <= modifier && modifier
            <= STAT_GUARD {
            *m = cur + modifier;
        }
    }

    /// Lowers the selected stat by the delta; skipped outside the arithmetic
    /// guard.
    pub fn remove_stat_change(&mut self, kind: StatKind, modifier: i64)
        ensures
            final(self)@ == spec_remove_stat(old(self)@, kind, modifier),
    {
        let m = self.member_for_stat(kind);
        let cur = *m;
        if -STAT_GUARD <= cur && cur <= STAT_GUARD && -STAT_GUARD <= modifier && modifier
            <= STAT_GUARD {
            *m = cur - modifier;
        }
    }

    /// Reverses the stat change stored with a removed entry.
    pub fn undo_stat_changes(&mut self, removed: EffectEntry)
        ensures
            final(self)@ == spec_undo_entry(old(self)@, removed),
    {
        match removed.kind {
            EffectKind::StatModifier(stat, modf) => self.remove_stat_change(stat, modf),
            EffectKind::Simple => {},
        }
    }

    /// Applies an effect to this hero; see [`spec_hero_apply_effect`].
    pub fn apply_effect(&mut self, effect: Effect, duration: u32)
        ensures
            final(self)@ == spec_hero_apply_effect(old(self)@, effect, duration),
    {
        let (success, removed) = self.effects.apply(effect, duration);
        if let Option::Some(removed) = removed {
            self.undo_stat_changes(removed);
        }
        if success {
            match effect.get_kind() {
                EffectKind::StatModifier(stat, modf) => self.add_stat_change(stat, modf),
                EffectKind::Simple => {},
            }
        }
    }

    /// One consumption pass over this hero's effects, reversing the stat
    /// changes of every expired entry; see [`spec_hero_consume`].
    #[verifier::loop_isolation(false)]
    pub fn consume_effects(&mut self, policy: ConsumePolicy)
        ensures
            final(self)@ == spec_hero_consume(old(self)@, policy),
    {
        let removed = self.effects.consume_effects(policy);
        let ghost h1 = self@;
        let mut i: usize = 0;
        proof {
            assert(removed@.take(0) =~= Seq::<EffectEntry>::empty());
        }
        while i < removed.len()
            invariant
                i <= removed@.len(),
                self@ == spec_undo_all(h1, removed@.take(i as int)),
            decreases removed@.len() - i,
        {
            proof {
                assert(removed@.take(i + 1).drop_last() =~= removed@.take(i as int));
                assert(removed@.take(i + 1).last() == removed@[i as int]);
            }
            self.undo_stat_changes(removed[i]);
            i = i + 1;
        }
        proof {
            assert(removed@.take(removed@.len() as int) =~= removed@);
        }
    }

    /// The per-turn duration decay: every dispellable entry loses
    /// `num_turns`; expired entries are removed and their stat changes
    /// reversed. Whether decay should instead be driven per effect kind is an
    /// open question of the combat rules; this applies it uniformly.
    pub fn reduce_effect_duration(&mut self, num_turns: u32)
        ensures
            final(self)@ == spec_hero_consume(old(self)@, ConsumePolicy::Decay(num_turns)),
    {
        self.consume_effects(ConsumePolicy::Decay(num_turns));
    }

    /// An independent copy with the same value.
    pub fn duplicate(&self) -> (r: Self)
        ensures
            r@ == self@,
    {
        Hero {
            stats: self.stats,
            alive: self.alive,
            readiness: self.readiness,
            effects: self.effects.duplicate(),
            team: self.team,
        }
    }
}

/// Where damage originates: a hero's action, or an effect tick. Hero-sourced
/// damage can be blocked by a skill-null charge.
#[derive(Clone, Copy)]
pub enum DamageSource<'a> {
    Hero(&'a Hero),
    Effect,
}

/// A raw damage amount and its defense-penetration fraction (fixed-point).
#[derive(Clone, Copy, PartialEq, Eq, Structural, Debug)]
pub struct DamageInstance {
    pub raw_dmg: i64,
    pub def_pen: i64,
}

/// The damage-to-hit-points conversion. The real formula is an external
/// policy to be supplied by the embedder; this stand-in deals no damage.
pub open spec fn spec_damage_taken(from_hero: bool, target: HeroView, raw_dmg: DamageInstance) -> i64 {
    0
}

/// Converts an attack into lost hit points; see [`spec_damage_taken`].
pub fn calculate_damage_taken(src: DamageSource, target: &Hero, raw_dmg: &DamageInstance) -> (r:
    i64)
    ensures
        r == spec_damage_taken(src matches DamageSource::Hero(_), target@, *raw_dmg),
{
    0
}

/// What dealing damage does to the target: blocked outright by an invincible
/// effect; hero-sourced damage spends a skill-null charge on the attempt and
/// is blocked if one was held; otherwise hit points drop by the converted
/// damage and the hero dies when they cross below zero.
pub open spec fn spec_deal_damage(h: HeroView, from_hero: bool, dmg: DamageInstance) -> (
    bool,
    HeroView,
) {
    if spec_has_effect(h.effects, Effect::Invincible) {
        (false, h)
    } else {
        let had_null = from_hero && spec_has_effect(h.effects, Effect::SkillNull);
        let h1 = if from_hero {
            spec_hero_consume(h, ConsumePolicy::SkillNullCharge)
        } else {
            h
        };
        if had_null {
            (false, h1)
        } else {
            let taken = spec_damage_taken(from_hero, h1, dmg);
            let hp2 = (h1.stats.hp - taken) as i64;
            let h2 = HeroView {
                stats: HeroStats { hp: hp2, ..h1.stats },
                alive: if hp2 < 0 {
                    false
                } else {
                    h1.alive
                },
                ..h1
            };
            (true, h2)
        }
    }
}

/// Deals one damage instance to the target; see [`spec_deal_damage`].
pub fn deal_damage(src: DamageSource, target: &mut Hero, dmg: &DamageInstance) -> (success: bool)
    ensures
        ({
            let r = spec_deal_damage(old(target)@, src matches DamageSource::Hero(_), *dmg);
            success == r.0 && final(target)@ == r.1
        }),
{
    if target.effects.has_effect(Effect::Invincible) {
        return false;
    }
    let from_hero = matches!(src, DamageSource::Hero(_));
    if from_hero {
        let had_null = target.effects.has_effect(Effect::SkillNull);
        target.consume_effects(ConsumePolicy::SkillNullCharge);
        if had_null {
            return false;
        }
    }
    let taken = calculate_damage_taken(src, &*target, dmg);
    target.stats.hp = target.stats.hp - taken;
    if target.stats.hp < 0 {
        target.alive = false;
    }
    true
}

/// What healing does to the target: blocked by an unhealable effect;
/// otherwise hit points rise by the amount, clamped to the range from zero
/// to the maximum. A negative or guard-exceeding amount is skipped (the hit
/// points stay put) while still counting as a successful heal.
pub open spec fn spec_heal(h: HeroView, amount: i64) -> (bool, HeroView) {
    if spec_has_effect(h.effects, Effect::Unhealable) {
        (false, h)
    } else if 0 <= amount && amount <= STAT_GUARD && -STAT_GUARD <= h.stats.hp && h.stats.hp
        <= STAT_GUARD {
        let hp2 = (h.stats.hp + amount) as i64;
        let hp3 = if hp2 > h.stats.max_hp {
            h.stats.max_hp
        } else {
            hp2
        };
        let hp4 = if hp3 < 0 {
            0i64
        } else {
            hp3
        };
        (true, HeroView { stats: HeroStats { hp: hp4, ..h.stats }, ..h })
    } else {
        (true, h)
    }
}

/// Heals the target by the given amount; see [`spec_heal`].
pub fn heal(target: &mut Hero, amount: i64) -> (success: bool)
    ensures
        ({
            let r = spec_heal(old(target)@, amount);
            success == r.0 && final(target)@ == r.1
        }),
{
    if target.effects.has_effect(Effect::Unhealable) {
        return false;
    }
    if 0 <= amount && amount <= STAT_GUARD && -STAT_GUARD <= target.stats.hp && target.stats.hp
        <= STAT_GUARD {
        target.stats.hp = target.stats.hp + amount;
        if target.stats.hp > target.stats.max_hp {
            target.stats.hp = target.stats.max_hp;
        }
        if target.stats.hp < 0 {
            target.stats.hp = 0;
        }
    }
    true
}

/// The continuous-healing amount of one tick: fifteen percent of maximum hit
/// points, or nothing when the maximum lies outside the sane stat range.
pub open spec fn spec_heal_per_tick(max_hp: i64) -> i64 {
    if 0 <= max_hp && max_hp <= STAT_CAP {
        ((max_hp * 15) / 100) as i64
    } else {
        0
    }
}

/// The poison tick's raw damage: five percent of maximum hit points.
pub open spec fn spec_poison_dmg(max_hp: i64) -> i64 {
    if 0 <= max_hp && max_hp <= STAT_CAP {
        (max_hp / 20) as i64
    } else {
        0
    }
}

/// The aggregated continuous healing of one turn start: `per` hit points for
/// each continuous-healing entry, accumulated under the arithmetic guard.
pub open spec fn spec_auto_heal(s: Seq<EffectEntry>, per: i64) -> i64
    decreases s.len(),
{
    if s.len() == 0 {
        0
    } else {
        let rest = spec_auto_heal(s.drop_last(), per);
        if s.last().effect is ContinuousHealing {
            if 0 <= rest && rest <= STAT_GUARD && 0 <= per && per <= STAT_GUARD {
                (rest + per) as i64
            } else {
                rest
            }
        } else {
            rest
        }
    }
}

/// The aggregated damage of the turn's damage-over-time entries, as converted
/// against the (post-tick) hero; see [`spec_damage_taken`].
pub open spec fn spec_dot_damage(s: Seq<EffectEntry>, h: HeroView, max_hp: i64) -> i64
    decreases s.len(),
{
    if s.len() == 0 {
        0
    } else {
        let rest = spec_dot_damage(s.drop_last(), h, max_hp);
        let dmg_part = match s.last().effect {
            Effect::Burn(d) | Effect::Bleed(d) => spec_damage_taken(
                false,
                h,
                DamageInstance { raw_dmg: d, def_pen: 700 },
            ),
            Effect::Poison => spec_damage_taken(
                false,
                h,
                DamageInstance { raw_dmg: spec_poison_dmg(max_hp), def_pen: 1000 },
            ),
            _ => 0i64,
        };
        (rest + dmg_part) as i64
    }
}

/// A hero at the start of their turn: all damage-over-time and
/// continuous-healing entries present are aggregated into one net amount,
/// every such entry is charged one turn (expired ones removed and reversed),
/// and the net is applied as a single damage or heal operation.
pub open spec fn spec_turn_start(h: HeroView) -> HeroView {
    let max_hp = h.stats.max_hp;
    let per = spec_heal_per_tick(max_hp);
    let auto_heal = spec_auto_heal(h.effects, per);
    let h1 = spec_hero_consume(h, ConsumePolicy::DamageOverTime);
    let total = spec_dot_damage(spec_bleeds(h.effects), h1, max_hp);
    if total > auto_heal {
        spec_deal_damage(
            h1,
            false,
            DamageInstance { raw_dmg: (total - auto_heal) as i64, def_pen: 1000 },
        ).1
    } else {
        spec_heal(h1, (auto_heal - total) as i64).1
    }
}

/// Runs the turn-start processing of one hero; see [`spec_turn_start`].
/// Damage is gated by an invincible flag and healing by an unhealable flag
/// inside the damage and heal operations themselves.
#[verifier::loop_isolation(false)]
pub fn hero_on_turn_start(hero: &mut Hero)
    ensures
        final(hero)@ == spec_turn_start(old(hero)@),
{
    let max_hp = hero.stats.max_hp;
    let per = if 0 <= max_hp && max_hp <= STAT_CAP {
        (max_hp * 15) / 100
    } else {
        0
    };
    let bleeds = hero.effects.get_bleed_effects();

    let mut auto_heal: i64 = 0;
    let mut i: usize = 0;
    proof {
        assert(hero.effects@.take(0) =~= Seq::<EffectEntry>::empty());
    }
    while i < hero.effects.effect_count()
        invariant
            i <= hero.effects@.len(),
            0 <= auto_heal <= STAT_GUARD + per,
            auto_heal == spec_auto_heal(hero.effects@.take(i as int), per),
        decreases hero.effects@.len() - i,
    {
        proof {
            assert(hero.effects@.take(i + 1).drop_last() =~= hero.effects@.take(i as int));
            assert(hero.effects@.take(i + 1).last() == hero.effects@[i as int]);
        }
        let entry = hero.effects.entry_at(i);
        if matches!(entry.effect, Effect::ContinuousHealing) {
            if 0 <= auto_heal && auto_heal <= STAT_GUARD && 0 <= per && per <= STAT_GUARD {
                auto_heal = auto_heal + per;
            }
        }
        i = i + 1;
    }
    proof {
        assert(hero.effects@.take(hero.effects@.len() as int) =~= hero.effects@);
    }

    hero.consume_effects(ConsumePolicy::DamageOverTime);

    let mut total_dmg: i64 = 0;
    let mut j: usize = 0;
    proof {
        assert(bleeds@.take(0) =~= Seq::<EffectEntry>::empty());
    }
    while j < bleeds.len()
        invariant
            j <= bleeds@.len(),
            total_dmg == 0,
            total_dmg == spec_dot_damage(bleeds@.take(j as int), hero@, max_hp),
        decreases bleeds@.len() - j,
    {
        proof {
            assert(bleeds@.take(j + 1).drop_last() =~= bleeds@.take(j as int));
            assert(bleeds@.take(j + 1).last() == bleeds@[j as int]);
        }
        let entry = bleeds[j];
        match entry.effect {
            Effect::Burn(d) | Effect::Bleed(d) => {
                let inst = DamageInstance { raw_dmg: d, def_pen: 700 };
                let taken = calculate_damage_taken(DamageSource::Effect, &*hero, &inst);
                total_dmg = total_dmg + taken;
            },
            Effect::Poison => {
                let pd = if 0 <= max_hp && max_hp <= STAT_CAP {
                    max_hp / 20
                } else {
                    0
                };
                let inst = DamageInstance { raw_dmg: pd, def_pen: 1000 };
                let taken = calculate_damage_taken(DamageSource::Effect, &*hero, &inst);
                total_dmg = total_dmg + taken;
            },
            _ => {},
        }
        j = j + 1;
    }
    proof {
        assert(bleeds@.take(bleeds@.len() as int) =~= bleeds@);
    }

    if total_dmg > auto_heal {
        let inst = DamageInstance { raw_dmg: total_dmg - auto_heal, def_pen: 1000 };
        let _ = deal_damage(DamageSource::Effect, hero, &inst);
    } else {
        let _ = heal(hero, auto_heal - total_dmg);
    }
}

/// The complete, cloneable battle state at one instant: all heroes plus an
/// immutable copy of their pristine base stats, kept as a reference for
/// percentage-based calculations.
pub struct BattleSnapshot {
    pub heroes: Vec<Hero>,
    pub base_stats: Vec<Hero>,
}

/// A hero's position in the snapshot.
pub type HeroID = usize;

/// The mathematical value of a snapshot.
#[verifier::ext_equal]
pub ghost struct SnapshotView {
    pub heroes: Seq<HeroView>,
    pub base_stats: Seq<HeroView>,
}

impl View for BattleSnapshot {
    type V = SnapshotView;

    open spec fn view(&self) -> SnapshotView {
        SnapshotView {
            heroes: self.heroes@.map_values(|h: Hero| h@),
            base_stats: self.base_stats@.map_values(|h: Hero| h@),
        }
    }
}

/// Whether any hero in the snapshot is alive.
pub open spec fn spec_any_alive(heroes: Seq<HeroView>) -> bool {
    exists|i: int| 0 <= i < heroes.len() && (#[trigger] heroes[i]).alive
}

/// The hero who acts next: among the living, the one with the highest
/// readiness, the later-positioned winning a tie. Negative when none live.
pub open spec fn spec_turn_hero(heroes: Seq<HeroView>) -> int
    decreases heroes.len(),
{
    if heroes.len() == 0 {
        -1
    } else {
        let rest = spec_turn_hero(heroes.drop_last());
        let i = heroes.len() - 1;
        if heroes[i].alive && (rest < 0 || heroes[i].readiness >= heroes[rest].readiness) {
            i
        } else {
            rest
        }
    }
}

impl BattleSnapshot {
    /// The id of the hero whose turn it is; see [`spec_turn_hero`].
    #[verifier::loop_isolation(false)]
    pub fn get_turn_hero_id(&self) -> (id: HeroID)
        requires
            spec_any_alive(self@.heroes),
        ensures
            id == spec_turn_hero(self@.heroes),
            id < self@.heroes.len(),
            self@.heroes[id as int].alive,
    {
        let ghost hs = self@.heroes;
        let mut found = false;
        let mut best: usize = 0;
        let mut i: usize = 0;
        proof {
            assert(hs.take(0) =~= Seq::<HeroView>::empty());
        }
        while i < self.heroes.len()
            invariant
                i <= hs.len(),
                hs.len() == self.heroes@.len(),
                !found ==> spec_turn_hero(hs.take(i as int)) == -1,
                found ==> best == spec_turn_hero(hs.take(i as int)),
                found ==> best < i,
                found ==> hs[best as int].alive,
            decreases hs.len() - i,
        {
            proof {
                assert(hs.take(i + 1).drop_last() =~= hs.take(i as int));
                assert(hs.take(i + 1).last() == hs[i as int]);
                assert(hs[i as int] == self.heroes@[i as int]@);
                assert(forall|k: int| 0 <= k < i ==> hs.take(i as int)[k] == #[trigger] hs[k]);
            }
            let h = &self.heroes[i];
            if h.alive && (!found || h.readiness >= self.heroes[best].readiness) {
                proof {
                    if found {
                        assert(hs[best as int] == self.heroes@[best as int]@);
                    }
                }
                best = i;
                found = true;
            }
            i = i + 1;
        }
        proof {
            assert(hs.take(hs.len() as int) =~= hs);
            lemma_turn_hero_alive(hs);
        }
        best
    }

    /// The pristine base stats of the given hero.
    pub fn get_base_stats_for_hero(&self, id: HeroID) -> (r: &Hero)
        requires
            id < self@.base_stats.len(),
        ensures
            r@ == self@.base_stats[id as int],
    {
        &self.base_stats[id]
    }
}

/// When some hero is alive, the chosen turn hero is a live one; when none is,
/// no hero is chosen.
pub open spec fn spec_turn_hero_alive_or_none(heroes: Seq<HeroView>) -> bool {
    if spec_any_alive(heroes) {
        &&& 0 <= spec_turn_hero(heroes) < heroes.len()
        &&& heroes[spec_turn_hero(heroes)].alive
    } else {
        spec_turn_hero(heroes) == -1
    }
}

/// The turn-hero choice always names a live hero when one exists, and nobody
/// otherwise.
pub proof fn lemma_turn_hero_alive(heroes: Seq<HeroView>)
    ensures
        spec_turn_hero_alive_or_none(heroes),
    decreases heroes.len(),
{
    if heroes.len() > 0 {
        lemma_turn_hero_alive(heroes.drop_last());
        let front = heroes.drop_last();
        assert(forall|k: int| 0 <= k < front.len() ==> front[k] == #[trigger] heroes[k]);
        if spec_any_alive(heroes) && !heroes[heroes.len() - 1].alive {
            let w = choose|i: int| 0 <= i < heroes.len() && (#[trigger] heroes[i]).alive;
            assert(front[w] == heroes[w]);
            assert(spec_any_alive(front));
        }
    }
}

impl RngState for BattleSnapshot {
    #[verifier::loop_isolation(false)]
    fn duplicate(&self) -> (r: Self) {
        let heroes = dup_heroes(&self.heroes);
        let base_stats = dup_heroes(&self.base_stats);
        let r = BattleSnapshot { heroes, base_stats };
        proof {
            assert(r@.heroes =~= self@.heroes);
            assert(r@.base_stats =~= self@.base_stats);
            assert(r@ =~= self@);
        }
        r
    }
}

/// An element-wise copy of a hero roster.
#[verifier::loop_isolation(false)]
fn dup_heroes(v: &Vec<Hero>) -> (r: Vec<Hero>)
    ensures
        r@.len() == v@.len(),
        forall|i: int| 0 <= i < v@.len() ==> (#[trigger] r@[i])@ == v@[i]@,
{
    let mut r: Vec<Hero> = Vec::new();
    let mut i: usize = 0;
    while i < v.len()
        invariant
            i <= v@.len(),
            r@.len() == i,
            forall|k: int| 0 <= k < i ==> (#[trigger] r@[k])@ == v@[k]@,
        decreases v@.len() - i,
    {
        r.push(v[i].duplicate());
        i = i + 1;
    }
    r
}

/// Whether no entry of the list modifies the stat member `k`.
pub open spec fn spec_none_on_stat(s: Seq<EffectEntry>, k: StatKind) -> bool {
    forall|i: int|
        0 <= i < s.len() ==> match (#[trigger] s[i]).kind {
            EffectKind::StatModifier(k2, _) => k2 != k,
            EffectKind::Simple => true,
        }
}

/// Reversing entries that do not touch `k` leaves the stat member `k` as it
/// was.
proof fn lemma_undo_all_preserves_stat(h: HeroView, removed: Seq<EffectEntry>, k: StatKind)
    requires
        spec_none_on_stat(removed, k),
    ensures
        spec_stat_value(spec_undo_all(h, removed).stats, k) == spec_stat_value(h.stats, k),
        spec_undo_all(h, removed).effects == h.effects,
    decreases removed.len(),
{
    if removed.len() > 0 {
        assert(spec_none_on_stat(removed.drop_last(), k));
        lemma_undo_all_preserves_stat(h, removed.drop_last(), k);
    }
}

/// Every entry a consumption pass removes carries the stat change of some
/// entry of the source list.
proof fn lemma_consume_removed_kinds(s: Seq<EffectEntry>, p: ConsumePolicy, k: StatKind)
    requires
        spec_none_on_stat(s, k),
    ensures
        spec_none_on_stat(spec_consume(s, p).1, k),
        spec_none_on_stat(spec_consume(s, p).0, k),
    decreases s.len(),
{
    if s.len() > 0 {
        assert(spec_none_on_stat(s.drop_first(), k)) by {
            assert(forall|i: int|
                0 <= i < s.drop_first().len() ==> #[trigger] s.drop_first()[i] == s[i + 1]);
        }
        lemma_consume_removed_kinds(s.drop_first(), p, k);
        let e0 = spec_tick(s[0], p);
        assert(e0.kind == s[0].kind);
        let r = spec_consume(s.drop_first(), p);
        if e0.duration < 1 {
            assert(spec_consume(s, p).1 == seq![e0] + r.1);
        } else {
            assert(spec_consume(s, p).0 == seq![e0] + r.0);
        }
    }
}

/// What one consumption pass does to a list ending in a given entry: the
/// front is processed as before, and the last entry is ticked and lands at
/// the end of the removed or the remaining entries.
proof fn lemma_consume_push(s: Seq<EffectEntry>, entry: EffectEntry, p: ConsumePolicy)
    ensures
        spec_tick(entry, p).duration < 1 ==> spec_consume(s.push(entry), p) == (
            spec_consume(s, p).0,
            spec_consume(s, p).1.push(spec_tick(entry, p)),
        ),
        spec_tick(entry, p).duration >= 1 ==> spec_consume(s.push(entry), p) == (
            spec_consume(s, p).0.push(spec_tick(entry, p)),
            spec_consume(s, p).1,
        ),
    decreases s.len(),
{
    let t = spec_tick(entry, p);
    if s.len() == 0 {
        let empty = Seq::<EffectEntry>::empty();
        assert(s =~= empty);
        assert(spec_consume(empty, p) == (empty, empty));
        assert(s.push(entry)[0] == entry);
        assert(s.push(entry).drop_first() =~= empty);
        if t.duration < 1 {
            assert(spec_consume(s.push(entry), p) == (empty, seq![t] + empty));
            assert(seq![t] + empty =~= empty.push(t));
        } else {
            assert(spec_consume(s.push(entry), p) == (seq![t] + empty, empty));
            assert(seq![t] + empty =~= empty.push(t));
        }
    } else {
        lemma_consume_push(s.drop_first(), entry, p);
        assert(s.push(entry)[0] == s[0]);
        assert(s.push(entry).drop_first() =~= s.drop_first().push(entry));
        let e0 = spec_tick(s[0], p);
        let rf = spec_consume(s.drop_first(), p);
        let rp = spec_consume(s.drop_first().push(entry), p);
        if t.duration < 1 {
            assert(rp == (rf.0, rf.1.push(t)));
            if e0.duration < 1 {
                assert(seq![e0] + rf.1.push(t) =~= (seq![e0] + rf.1).push(t));
            }
        } else {
            assert(rp == (rf.0.push(t), rf.1));
            if e0.duration >= 1 {
                assert(seq![e0] + rf.0.push(t) =~= (seq![e0] + rf.0).push(t));
            }
        }
    }
}

/// The priority-overwrite law: applying a non-stacking effect that outranks
/// an existing stat-modifying entry on the same stat yields the displaced
/// entry and leaves the net stat value at
/// `old value - displaced delta + new delta` (within the arithmetic guard).
pub proof fn lemma_priority_overwrite(h: HeroView, e: Effect, dur: u32, k: StatKind, d_old: i64, d_new: i64)
    requires
        !spec_can_stack(e),
        spec_find_overwrite(h.effects, e, 0) is Some,
        ({
            let i = spec_find_overwrite(h.effects, e, 0)->Some_0;
            h.effects[i].kind == EffectKind::StatModifier(k, d_old)
        }),
        spec_effect_kind(e) == EffectKind::StatModifier(k, d_new),
        spec_stat_change_applies(spec_stat_value(h.stats, k), d_old),
        spec_stat_change_applies((spec_stat_value(h.stats, k) - d_old) as i64, d_new),
    ensures
        spec_stat_value(spec_hero_apply_effect(h, e, dur).stats, k) == spec_stat_value(h.stats, k)
            - d_old + d_new,
{
}

/// The exact-reversal law: applying a stat-modifying effect as a fresh entry
/// (no active entry overwrites it or outranks it) raises the stat by exactly
/// its delta, and a later decay pass that expires the entry returns the stat
/// to its pre-apply value exactly — provided no other active entry modifies
/// the same stat and the values stay within the arithmetic guard.
pub proof fn lemma_exact_reversal(h: HeroView, e: Effect, dur: u32, k: StatKind, d: i64)
    requires
        spec_effect_kind(e) == EffectKind::StatModifier(k, d),
        spec_find_overwrite(h.effects, e, 0) is None,
        spec_find_reject(h.effects, e, 0) is None,
        h.effects.len() < EFFECT_MAX_COUNT,
        dur >= 1,
        spec_none_on_stat(h.effects, k),
        spec_stat_change_applies(spec_stat_value(h.stats, k), d),
        spec_stat_change_applies((spec_stat_value(h.stats, k) + d) as i64, d),
    ensures
        ({
            let applied = spec_hero_apply_effect(h, e, dur);
            let expired = spec_hero_consume(applied, ConsumePolicy::Decay(dur));
            &&& spec_stat_value(applied.stats, k) == spec_stat_value(h.stats, k) + d
            &&& spec_stat_value(expired.stats, k) == spec_stat_value(h.stats, k)
        }),
{
    let applied = spec_hero_apply_effect(h, e, dur);
    let entry = spec_new_entry(e, dur);
    assert(!spec_can_stack(e));
    assert(applied.effects == h.effects.push(entry));
    assert(spec_stat_value(applied.stats, k) == spec_stat_value(h.stats, k) + d);
    assert(spec_can_dispel(e));
    let p = ConsumePolicy::Decay(dur);
    let t = spec_tick(entry, p);
    assert(spec_consume_cost(p, entry) == dur);
    assert(t.duration == 0);
    lemma_consume_push(h.effects, entry, p);
    let r = spec_consume(applied.effects, p);
    assert(r.1 == spec_consume(h.effects, p).1.push(t));
    lemma_consume_removed_kinds(h.effects, p, k);
    let mid = HeroView { effects: r.0, ..applied };
    assert(r.1.drop_last() =~= spec_consume(h.effects, p).1);
    assert(r.1.last() == t);
    lemma_undo_all_preserves_stat(mid, spec_consume(h.effects, p).1, k);
    assert(spec_hero_consume(applied, p) == spec_undo_entry(
        spec_undo_all(mid, spec_consume(h.effects, p).1),
        t,
    ));
    assert(t.kind == EffectKind::StatModifier(k, d));
}

/// Who an effect application comes from: an enemy hero's skill (subject to
/// the proc-chance roll) or the holder themselves (always lands).
#[derive(Clone, Copy, PartialEq, Eq, Structural, Debug)]
pub enum EffectSource {
    Enemy(HeroID),
    SelfTargeted,
}

/// An owned command threaded through the computation tree: the identifiers in
/// its payload are resolved against the snapshot when the command runs. A
/// command whose hero index is out of range leaves the snapshot unchanged.
#[derive(Clone, Copy, PartialEq, Eq, Structural, Debug)]
pub enum BattleAction {
    ApplyEffect { target: usize, effect: Effect, duration: u32 },
    TurnStart { hero: usize },
}

impl RngStep<BattleSnapshot> for BattleAction {
    open spec fn step(&self, sv: SnapshotView) -> SnapshotView {
        match *self {
            BattleAction::ApplyEffect { target, effect, duration } => if (target as int)
                < sv.heroes.len() {
                SnapshotView {
                    heroes: sv.heroes.update(
                        target as int,
                        spec_hero_apply_effect(sv.heroes[target as int], effect, duration),
                    ),
                    base_stats: sv.base_stats,
                }
            } else {
                sv
            },
            BattleAction::TurnStart { hero } => if (hero as int) < sv.heroes.len() {
                SnapshotView {
                    heroes: sv.heroes.update(
                        hero as int,
                        spec_turn_start(sv.heroes[hero as int]),
                    ),
                    base_stats: sv.base_stats,
                }
            } else {
                sv
            },
        }
    }

    fn run_step(&self, s: &mut BattleSnapshot) {
        let ghost pre = s@;
        match *self {
            BattleAction::ApplyEffect { target, effect, duration } => {
                if target < s.heroes.len() {
                    let h = &mut s.heroes[target];
                    h.apply_effect(effect, duration);
                    proof {
                        assert(s@.heroes =~= pre.heroes.update(
                            target as int,
                            spec_hero_apply_effect(pre.heroes[target as int], effect, duration),
                        ));
                        assert(s@.base_stats =~= pre.base_stats);
                        assert(s@ =~= self.step(pre));
                    }
                }
            },
            BattleAction::TurnStart { hero } => {
                if hero < s.heroes.len() {
                    let h = &mut s.heroes[hero];
                    hero_on_turn_start(h);
                    proof {
                        assert(s@.heroes =~= pre.heroes.update(
                            hero as int,
                            spec_turn_start(pre.heroes[hero as int]),
                        ));
                        assert(s@.base_stats =~= pre.base_stats);
                        assert(s@ =~= self.step(pre));
                    }
                }
            },
        }
    }
}

/// The chance with which an enemy-sourced effect lands: the caller's chance
/// (clamped to a full probability), scaled by how far the attacker's
/// effectiveness exceeds the target's effect resistance (a fixed-point
/// fraction, so fractional advantages count), never above 85%. The
/// difference is clamped before the product only where the 85% cap already
/// decides the outcome; out-of-guard stat values contribute nothing.
pub open spec fn spec_proc_chance(enemy: HeroView, target: HeroView, chance: u32) -> u32 {
    let eff = enemy.stats.eff;
    let resist = target.stats.effres;
    let c0: int = if chance > CHANCE_DENOM {
        CHANCE_DENOM as int
    } else {
        chance as int
    };
    let diff: int = if -STAT_GUARD <= eff && eff <= STAT_GUARD && -STAT_GUARD <= resist && resist
        <= STAT_GUARD && eff - resist > 0 {
        eff - resist
    } else {
        0
    };
    let diff_capped: int = if diff > 850_000_000 {
        850_000_000
    } else {
        diff
    };
    let prod: int = (c0 * diff_capped) / 1000;
    if prod > 850_000 {
        850_000u32
    } else {
        prod as u32
    }
}

/// Computes the proc chance of an enemy-sourced effect; see
/// [`spec_proc_chance`].
pub fn proc_chance(enemy: &Hero, target: &Hero, chance: u32) -> (c: u32)
    ensures
        c == spec_proc_chance(enemy@, target@, chance),
        c <= 850_000,
{
    let eff = enemy.stats.eff;
    let resist = target.stats.effres;
    let c0: i64 = if chance > CHANCE_DENOM {
        CHANCE_DENOM as i64
    } else {
        chance as i64
    };
    let diff: i64 = if -STAT_GUARD <= eff && eff <= STAT_GUARD && -STAT_GUARD <= resist && resist
        <= STAT_GUARD && eff - resist > 0 {
        eff - resist
    } else {
        0
    };
    let diff_capped: i64 = if diff > 850_000_000 {
        850_000_000
    } else {
        diff
    };
    proof {
        assert(0 <= c0 * diff_capped <= 850_000_000_000_000) by (nonlinear_arith)
            requires
                0 <= c0 <= 1_000_000,
                0 <= diff_capped <= 850_000_000,
        ;
    }
    let prod: i64 = (c0 * diff_capped) / 1000;
    if prod > 850_000 {
        850_000
    } else {
        prod as u32
    }
}

/// The subtree applying one effect: a self-targeted application is a plain
/// step; an enemy-sourced one is a weighted branch between landing the effect
/// and doing nothing.
pub open spec fn spec_apply_effect_node(
    ssv: SnapshotView,
    src: EffectSource,
    target: HeroID,
    effect: Effect,
    duration: u32,
    chance: u32,
) -> RngNode<BattleAction> {
    let proc = RngNode::Always(
        BattleAction::ApplyEffect { target, effect, duration },
        Box::new(RngNode::End),
    );
    match src {
        EffectSource::SelfTargeted => proc,
        EffectSource::Enemy(enemy) => {
            let c = spec_proc_chance(ssv.heroes[enemy as int], ssv.heroes[target as int], chance);
            RngNode::Two(
                RngInstance { chance: c, node: Box::new(proc) },
                RngInstance { chance: (CHANCE_DENOM - c) as u32, node: Box::new(RngNode::End) },
            )
        },
    }
}

/// Builds the subtree applying `effect` to `target` for `duration` turns; see
/// [`spec_apply_effect_node`].
pub fn apply_effect(
    snapshot: &BattleSnapshot,
    src: EffectSource,
    target: HeroID,
    effect: Effect,
    duration: u32,
    chance: u32,
) -> (r: RngNode<BattleAction>)
    requires
        target < snapshot@.heroes.len(),
        src matches EffectSource::Enemy(e) ==> e < snapshot@.heroes.len(),
    ensures
        r == spec_apply_effect_node(snapshot@, src, target, effect, duration, chance),
{
    let proc = RngNode::always(BattleAction::ApplyEffect { target, effect, duration });
    match src {
        EffectSource::SelfTargeted => proc,
        EffectSource::Enemy(enemy) => {
            let c = proc_chance(&snapshot.heroes[enemy], &snapshot.heroes[target], chance);
            proof {
                assert(snapshot.heroes@[enemy as int]@ == snapshot@.heroes[enemy as int]);
                assert(snapshot.heroes@[target as int]@ == snapshot@.heroes[target as int]);
            }
            RngNode::branch_two(c, proc).or(RngNode::End)
        },
    }
}

/// The subtree of one skill component: nothing when its activation predicate
/// rejects the actor, else the effect applications to each target in order.
/// Actions other than applying an effect are not implemented by the combat
/// rules and contribute no work.
pub open spec fn spec_component_node(ssv: SnapshotView, comp: SkillComponent, src: HeroID) -> RngNode<
    BattleAction,
> {
    if comp.activate_condition matches Option::Some(c) && !spec_activation(
        c,
        ssv.heroes[src as int],
    ) {
        RngNode::End
    } else {
        match comp.action {
            SkillAction::Effect { chance, effect, duration } => spec_for_each(
                spec_get_target(comp.targeting, src).map_values(
                    |t: HeroID| spec_apply_effect_node(
                        ssv,
                        EffectSource::Enemy(src),
                        t,
                        effect,
                        duration,
                        chance,
                    ),
                ),
            ),
            _ => RngNode::End,
        }
    }
}

/// The chained subtrees of a skill's components, in order.
pub open spec fn spec_components_node(
    ssv: SnapshotView,
    comps: Seq<SkillComponent>,
    src: HeroID,
) -> RngNode<BattleAction> {
    spec_for_each(comps.map_values(|c: SkillComponent| spec_component_node(ssv, c, src)))
}

/// Builds the subtree of one skill component; see [`spec_component_node`].
#[verifier::loop_isolation(false)]
fn build_component_node(snapshot: &BattleSnapshot, comp: SkillComponent, src: HeroID) -> (r:
    RngNode<BattleAction>)
    requires
        src < snapshot@.heroes.len(),
        comp.action matches SkillAction::Effect { .. },
    ensures
        r == spec_component_node(snapshot@, comp, src),
{
    if let Option::Some(cond) = comp.activate_condition {
        if !cond.eval(snapshot, &snapshot.heroes[src], &snapshot.heroes[src]) {
            proof {
                assert(snapshot.heroes@[src as int]@ == snapshot@.heroes[src as int]);
            }
            return RngNode::End;
        }
    }
    proof {
        assert(snapshot.heroes@[src as int]@ == snapshot@.heroes[src as int]);
    }
    match comp.action {
        SkillAction::Effect { chance, effect, duration } => {
            let ghost f = |t: HeroID| spec_apply_effect_node(
                snapshot@,
                EffectSource::Enemy(src),
                t,
                effect,
                duration,
                chance,
            );
            let targets = comp.targeting.get_target(snapshot, src);
            let mut nodes: Vec<RngNode<BattleAction>> = Vec::new();
            let mut i: usize = 0;
            proof {
                assert(targets@.take(0).map_values(f) =~= Seq::<RngNode<BattleAction>>::empty());
            }
            while i < targets.len()
                invariant
                    i <= targets@.len(),
                    nodes@ == targets@.take(i as int).map_values(f),
                decreases targets@.len() - i,
            {
                let t = targets[i];
                proof {
                    assert(targets@[i as int] == src);
                }
                let node = apply_effect(
                    snapshot,
                    EffectSource::Enemy(src),
                    t,
                    effect,
                    duration,
                    chance,
                );
                nodes.push(node);
                proof {
                    assert(nodes@ =~= targets@.take(i + 1).map_values(f));
                }
                i = i + 1;
            }
            proof {
                assert(targets@.take(targets@.len() as int) =~= targets@);
            }
            RngNode::for_each(&nodes)
        },
        _ => RngNode::End,
    }
}

/// Builds the tree of one skill use: the components' subtrees chained in
/// order, wrapped in a diagnostic label that the observer sees before any of
/// the skill's effects run.
#[verifier::loop_isolation(false)]
pub fn use_skill(skill: &Skill, src: HeroID, snapshot: &BattleSnapshot) -> (r: RngNode<
    BattleAction,
>)
    requires
        src < snapshot@.heroes.len(),
        spec_skill_effects_only(skill@),
    ensures
        r matches RngNode::Label(name, inner) && name@ == "Skill used"@ && *inner
            == spec_components_node(snapshot@, skill@, src),
{
    let ghost g = |c: SkillComponent| spec_component_node(snapshot@, c, src);
    let mut comp_nodes: Vec<RngNode<BattleAction>> = Vec::new();
    let mut i: usize = 0;
    proof {
        assert(skill@.take(0).map_values(g) =~= Seq::<RngNode<BattleAction>>::empty());
    }
    while i < skill.components.len()
        invariant
            i <= skill@.len(),
            comp_nodes@ == skill@.take(i as int).map_values(g),
        decreases skill@.len() - i,
    {
        let comp = skill.components[i];
        let node = build_component_node(snapshot, comp, src);
        comp_nodes.push(node);
        proof {
            assert(comp_nodes@ =~= skill@.take(i + 1).map_values(g));
        }
        i = i + 1;
    }
    proof {
        assert(skill@.take(skill@.len() as int) =~= skill@);
    }
    let tree = RngNode::for_each(&comp_nodes);
    tree.set_label(String::from_str("Skill used"))
}

/// A skill-picking policy: given a snapshot and the acting hero, returns the
/// skill to use this turn. `picked_skill` is the mathematical meaning of the
/// choice; `pick_skill` must answer with exactly those components, and every
/// component must apply an effect — the only action the engine executes
/// today.
pub trait SkillPicker: Sized {
    /// The components of the skill this picker chooses for the given snapshot
    /// and acting hero.
    spec fn picked_skill(&self, ssv: SnapshotView, hero: HeroID) -> Seq<SkillComponent>;

    fn pick_skill<'a>(&'a self, snapshot: &BattleSnapshot, hero: HeroID) -> (r: &'a Skill)
        ensures
            r@ == self.picked_skill(snapshot@, hero),
            spec_skill_effects_only(r@),
    ;
}

/// A picker that always answers with one fixed skill.
pub struct FixedSkillPicker {
    skill: Skill,
}

impl FixedSkillPicker {
    #[verifier::type_invariant]
    spec fn wf(&self) -> bool {
        spec_skill_effects_only(self.skill@)
    }

    /// The components of the held skill.
    pub closed spec fn skill_view(&self) -> Seq<SkillComponent> {
        self.skill@
    }

    /// Wraps a skill whose components all apply effects.
    pub fn new(skill: Skill) -> (r: Self)
        requires
            spec_skill_effects_only(skill@),
        ensures
            r.skill_view() == skill@,
    {
        FixedSkillPicker { skill }
    }
}

impl SkillPicker for FixedSkillPicker {
    closed spec fn picked_skill(&self, ssv: SnapshotView, hero: HeroID) -> Seq<SkillComponent> {
        self.skill@
    }

    fn pick_skill<'a>(&'a self, snapshot: &BattleSnapshot, hero: HeroID) -> (r: &'a Skill) {
        proof {
            use_type_invariant(self);
        }
        &self.skill
    }
}

impl BattleSnapshot {
    /// Whether any hero still lives.
    #[verifier::loop_isolation(false)]
    pub fn any_alive(&self) -> (b: bool)
        ensures
            b == spec_any_alive(self@.heroes),
    {
        let mut i: usize = 0;
        while i < self.heroes.len()
            invariant
                i <= self@.heroes.len(),
                forall|k: int| 0 <= k < i ==> !(#[trigger] self@.heroes[k]).alive,
            decreases self@.heroes.len() - i,
        {
            proof {
                assert(self.heroes@[i as int]@ == self@.heroes[i as int]);
            }
            if self.heroes[i].alive {
                return true;
            }
            i = i + 1;
        }
        false
    }
}

/// Builds the tree of one whole turn: nothing when nobody lives; otherwise
/// the acting hero's turn-start processing (effect ticks, then the aggregated
/// damage or heal) followed by the use of the skill the picker chose, built
/// against the given snapshot.
pub fn turn_start<P: SkillPicker>(snapshot: &BattleSnapshot, picker: &P) -> (r: RngNode<
    BattleAction,
>)
    ensures
        !spec_any_alive(snapshot@.heroes) ==> r == RngNode::<BattleAction>::End,
        spec_any_alive(snapshot@.heroes) ==> (r matches RngNode::Always(a, rest) && {
            let hero = spec_turn_hero(snapshot@.heroes);
            &&& a == (BattleAction::TurnStart { hero: hero as usize })
            &&& (*rest matches RngNode::Label(name, inner) && name@ == "Skill used"@ && *inner
                == spec_components_node(
                snapshot@,
                picker.picked_skill(snapshot@, hero as usize),
                hero as usize,
            ))
        }),
{
    if !snapshot.any_alive() {
        return RngNode::End;
    }
    let hero = snapshot.get_turn_hero_id();
    let skill = picker.pick_skill(snapshot, hero);
    let act = RngNode::always(BattleAction::TurnStart { hero });
    let rest = use_skill(skill, hero, snapshot);
    let ghost grest = rest;
    let r = act.and_then(rest);
    proof {
        assert(crate::rng::spec_then(RngNode::<BattleAction>::End, grest) == grest);
        assert(r == RngNode::Always(
            BattleAction::TurnStart { hero },
            Box::new(grest),
        ));
        assert(grest matches RngNode::Label(name, inner) && *inner == spec_components_node(
            snapshot@,
            picker.picked_skill(snapshot@, hero),
            hero,
        ));
    }
    r
}

} // verus!

