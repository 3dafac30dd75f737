//! Combat classification: which kind of attack a hit is, whether a hit
//! lands under the classic damage-immunity rules, and which sound it
//! plays.
//!
//! These are the discrete decisions of the combat call sites, the pure
//! callers of the scheduler and the event bus. The continuous inputs they
//! are derived from (cooldown progress, fall distance, damage amounts) are
//! compared by the embedding runtime, which passes the outcomes in as
//! booleans and counters.

use vstd::prelude::*;
use vstd::string::StringExecFns;

use crate::persistence::ascii_lower;
use crate::persistence::to_ascii_lowercase;

verus! {

/// The kind of attack a hit is classified as.
#[derive(Clone, Copy, PartialEq, Eq, Structural, Debug)]
pub enum AttackType {
    Knockback,
    Critical,
    Sweeping,
    Strong,
    Weak,
}

/// Which combat rule set is in force.
#[derive(Clone, Copy, PartialEq, Eq, Structural, Debug)]
pub enum CombatType {
    Classic,
    Modern,
}

/// The attack type for a hit, from the discrete facts about the attacker:
/// whether they sprint, stand on the ground, are falling, hold a sword,
/// fight under modern rules, and have a full attack cooldown. Under
/// classic rules every hit counts as strong.
pub open spec fn attack_type_of(
    sprinting: bool,
    on_ground: bool,
    falling: bool,
    holds_sword: bool,
    combat_modern: bool,
    cooldown_full: bool,
) -> AttackType {
    let is_strong = !combat_modern || cooldown_full;
    if sprinting && is_strong {
        AttackType::Knockback
    } else if is_strong && !on_ground && falling {
        AttackType::Critical
    } else if holds_sword && is_strong && combat_modern {
        AttackType::Sweeping
    } else if is_strong {
        AttackType::Strong
    } else {
        AttackType::Weak
    }
}

impl AttackType {
    /// Classify a hit. `cooldown_full` is whether the attack cooldown has
    /// recovered far enough for a full-strength hit; it only matters under
    /// modern rules, where a sprinting full-strength hit knocks back, a
    /// falling one crits, and a sword hit sweeps.
    pub fn classify(
        sprinting: bool,
        on_ground: bool,
        falling: bool,
        holds_sword: bool,
        combat_modern: bool,
        cooldown_full: bool,
    ) -> (attack_type: AttackType)
        ensures
            attack_type == attack_type_of(
                sprinting,
                on_ground,
                falling,
                holds_sword,
                combat_modern,
                cooldown_full,
            ),
    {
        let is_strong = !combat_modern || cooldown_full;
        if sprinting && is_strong {
            return AttackType::Knockback;
        }
        if is_strong && !on_ground && falling {
            return AttackType::Critical;
        }
        if holds_sword && is_strong && combat_modern {
            return AttackType::Sweeping;
        }
        if is_strong {
            AttackType::Strong
        } else {
            AttackType::Weak
        }
    }
}

impl CombatType {
    /// The rule set a configuration names, compared without regard to
    /// ASCII case: `classic` selects the classic rules, anything else —
    /// `modern` included — falls back to the modern rules.
    pub fn from_config_name(name: &str) -> (combat_type: CombatType)
        ensures
            combat_type == (if ascii_lower(name@) == "classic"@ {
                CombatType::Classic
            } else {
                CombatType::Modern
            }),
    {
        let lowered = to_ascii_lowercase(name);
        let classic = String::from_str("classic");
        if lowered == classic {
            CombatType::Classic
        } else {
            CombatType::Modern
        }
    }

    /// The display name of the rule set.
    pub fn name(&self) -> (name: &'static str)
        ensures
            *self == CombatType::Classic ==> name@ == "Classic"@,
            *self == CombatType::Modern ==> name@ == "Modern"@,
    {
        match self {
            CombatType::Classic => "Classic",
            CombatType::Modern => "Modern",
        }
    }
}

/// The possible outcomes of a classic-rules attack on an entity.
#[derive(Clone, Copy, PartialEq, Eq, Structural, Debug)]
pub enum ClassicEntityAttackSuccessType {
    /// Full damage and knockback are applied: the hurt time already reset.
    SmallerHrt,
    /// Reduced damage and no knockback: the hurt time has not reset yet.
    GreaterHrt,
    /// No damage and no knockback are applied.
    False,
}

/// The outcome of a classic-rules attack: while the victim's remaining
/// damage immunity (`hurt_resistant_time`) is still in its second half, a
/// hit only lands if it deals more damage than the last one did; once the
/// immunity has fully expired, the hit lands in full; in between, it does
/// not land at all.
pub open spec fn classic_attack_success_of(
    hurt_resistant_time: u32,
    max_hurt_resistant_time: u32,
    damage_exceeds_last: bool,
) -> ClassicEntityAttackSuccessType {
    if hurt_resistant_time > max_hurt_resistant_time / 2 {
        if damage_exceeds_last {
            ClassicEntityAttackSuccessType::GreaterHrt
        } else {
            ClassicEntityAttackSuccessType::False
        }
    } else if hurt_resistant_time == 0 {
        ClassicEntityAttackSuccessType::SmallerHrt
    } else {
        ClassicEntityAttackSuccessType::False
    }
}

/// Determine the outcome of a classic-rules attack.
/// `damage_exceeds_last` is whether this hit deals strictly more damage
/// than the last damage the victim took.
pub fn classic_attack_entity_success(
    hurt_resistant_time: u32,
    max_hurt_resistant_time: u32,
    damage_exceeds_last: bool,
) -> (success: ClassicEntityAttackSuccessType)
    ensures
        success == classic_attack_success_of(
            hurt_resistant_time,
            max_hurt_resistant_time,
            damage_exceeds_last,
        ),
{
    if hurt_resistant_time > max_hurt_resistant_time / 2 {
        if damage_exceeds_last {
            ClassicEntityAttackSuccessType::GreaterHrt
        } else {
            ClassicEntityAttackSuccessType::False
        }
    } else if hurt_resistant_time == 0 {
        ClassicEntityAttackSuccessType::SmallerHrt
    } else {
        ClassicEntityAttackSuccessType::False
    }
}

/// The sound a player attack plays.
#[derive(Clone, Copy, PartialEq, Eq, Structural, Debug)]
pub enum PlayerAttackSound {
    AttackKnockback,
    AttackCrit,
    AttackSweep,
    AttackStrong,
    AttackWeak,
    Hurt,
}

/// The sound an attack of the given type plays under the given rule set:
/// modern rules give each attack type its own sound, classic rules play
/// the plain hurt sound for everything but a sweep.
pub open spec fn attack_sound_of(
    attack_type: AttackType,
    combat_type: CombatType,
) -> PlayerAttackSound {
    match attack_type {
        AttackType::Knockback => if combat_type == CombatType::Modern {
            PlayerAttackSound::AttackKnockback
        } else {
            PlayerAttackSound::Hurt
        },
        AttackType::Critical => if combat_type == CombatType::Modern {
            PlayerAttackSound::AttackCrit
        } else {
            PlayerAttackSound::Hurt
        },
        AttackType::Sweeping => PlayerAttackSound::AttackSweep,
        AttackType::Strong => if combat_type == CombatType::Modern {
            PlayerAttackSound::AttackStrong
        } else {
            PlayerAttackSound::Hurt
        },
        AttackType::Weak => if combat_type == CombatType::Modern {
            PlayerAttackSound::AttackWeak
        } else {
            PlayerAttackSound::Hurt
        },
    }
}

/// Pick the sound a player attack plays; the embedding runtime maps it to
/// its sound registry and plays it at the attack position.
pub fn player_attack_sound(attack_type: AttackType, combat_type: CombatType) -> (sound:
    PlayerAttackSound)
    ensures
        sound == attack_sound_of(attack_type, combat_type),
{
    match attack_type {
        AttackType::Knockback => {
            if matches!(combat_type, CombatType::Modern) {
                PlayerAttackSound::AttackKnockback
            } else {
                PlayerAttackSound::Hurt
            }
        },
        AttackType::Critical => {
            if matches!(combat_type, CombatType::Modern) {
                PlayerAttackSound::AttackCrit
            } else {
                PlayerAttackSound::Hurt
            }
        },
        AttackType::Sweeping => PlayerAttackSound::AttackSweep,
        AttackType::Strong => {
            if matches!(combat_type, CombatType::Modern) {
                PlayerAttackSound::AttackStrong
            } else {
                PlayerAttackSound::Hurt
            }
        },
        AttackType::Weak => {
            if matches!(combat_type, CombatType::Modern) {
                PlayerAttackSound::AttackWeak
            } else {
                PlayerAttackSound::Hurt
            }
        },
    }
}

} // verus!
