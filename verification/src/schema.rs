use crate::ident::Identifier;
use crate::ident::id_wf;
use vstd::prelude::*;

verus! {

// ---------------------------------------------------------------------
// Version 1: the first released shape. Schemas are append-only history;
// once released a version's shape is frozen.
// ---------------------------------------------------------------------
#[derive(Clone, Copy, PartialEq, Eq, Debug)]
pub struct V1SavePlayer {
    pub entity: Identifier,
    pub health: u32,
    pub level: u32,
    /// Optional reference to another record of the same snapshot (the
    /// player's current target monster), carried by identity.
    pub target: Option<Identifier>,
}

#[derive(Clone, Copy, PartialEq, Eq, Debug)]
pub struct V1SaveMonster {
    pub entity: Identifier,
    pub health: u32,
}

#[derive(Clone, PartialEq, Eq, Debug)]
pub struct V1SaveState {
    pub players: Vec<V1SavePlayer>,
    pub monsters: Vec<V1SaveMonster>,
}

// ---------------------------------------------------------------------
// Version 2: adds `exp` and `damage` to players and `damage` to
// monsters, each backfilled with its declared default on upgrade.
// ---------------------------------------------------------------------
/// Declared default for the player experience counter introduced in V2.
pub const V2_PLAYER_EXP_DEFAULT: u32 = 0;

/// Declared default for the player damage attribute introduced in V2.
pub const V2_PLAYER_DAMAGE_DEFAULT: u32 = 5;

/// Declared default for the monster damage attribute introduced in V2.
pub const V2_MONSTER_DAMAGE_DEFAULT: u32 = 2;

#[derive(Clone, Copy, PartialEq, Eq, Debug)]
pub struct V2SavePlayer {
    pub entity: Identifier,
    pub health: u32,
    pub level: u32,
    pub target: Option<Identifier>,
    pub exp: u32,
    pub damage: u32,
}

#[derive(Clone, Copy, PartialEq, Eq, Debug)]
pub struct V2SaveMonster {
    pub entity: Identifier,
    pub health: u32,
    pub damage: u32,
}

#[derive(Clone, PartialEq, Eq, Debug)]
pub struct V2SaveState {
    pub players: Vec<V2SavePlayer>,
    pub monsters: Vec<V2SaveMonster>,
}

// ---------------------------------------------------------------------
// Version 3: removes the deprecated `exp` attribute from players and
// gives monsters a closed enumerated variant with a declared default.
// ---------------------------------------------------------------------
#[derive(Clone, Copy, PartialEq, Eq, Structural, Debug)]
pub enum V3MonsterVariant {
    Angry,
    Scary,
}

/// Declared default for the monster variant introduced in V3.
pub const V3_MONSTER_VARIANT_DEFAULT: V3MonsterVariant = V3MonsterVariant::Angry;

#[derive(Clone, Copy, PartialEq, Eq, Debug)]
pub struct V3SavePlayer {
    pub entity: Identifier,
    pub health: u32,
    pub level: u32,
    pub target: Option<Identifier>,
    pub damage: u32,
}

#[derive(Clone, Copy, PartialEq, Eq, Debug)]
pub struct V3SaveMonster {
    pub entity: Identifier,
    pub health: u32,
    pub damage: u32,
    pub variant: V3MonsterVariant,
}

#[derive(Clone, PartialEq, Eq, Debug)]
pub struct V3SaveState {
    pub players: Vec<V3SavePlayer>,
    pub monsters: Vec<V3SaveMonster>,
}

// ---------------------------------------------------------------------
// Well-formedness: every identifier a snapshot carries has a live
// generation counter, so it survives the wire format exactly.
// ---------------------------------------------------------------------
pub open spec fn opt_id_wf(t: Option<Identifier>) -> bool {
    t matches Some(id) ==> id_wf(id)
}

pub open spec fn v1_wf(s: V1SaveState) -> bool {
    &&& forall|i: int|
        0 <= i < s.players@.len() ==> id_wf((#[trigger] s.players@[i]).entity) && opt_id_wf(
            s.players@[i].target,
        )
    &&& forall|i: int| 0 <= i < s.monsters@.len() ==> id_wf((#[trigger] s.monsters@[i]).entity)
}

pub open spec fn v2_wf(s: V2SaveState) -> bool {
    &&& forall|i: int|
        0 <= i < s.players@.len() ==> id_wf((#[trigger] s.players@[i]).entity) && opt_id_wf(
            s.players@[i].target,
        )
    &&& forall|i: int| 0 <= i < s.monsters@.len() ==> id_wf((#[trigger] s.monsters@[i]).entity)
}

pub open spec fn v3_wf(s: V3SaveState) -> bool {
    &&& forall|i: int|
        0 <= i < s.players@.len() ==> id_wf((#[trigger] s.players@[i]).entity) && opt_id_wf(
            s.players@[i].target,
        )
    &&& forall|i: int| 0 <= i < s.monsters@.len() ==> id_wf((#[trigger] s.monsters@[i]).entity)
}

// ---------------------------------------------------------------------
// Per-version upgrade transforms: pure, total, structure-preserving.
// Identifiers, reference fields and retained attributes are copied
// unchanged; new attributes receive the version's declared default;
// removed attributes are dropped.
// ---------------------------------------------------------------------
/// What upgrading one V1 player into V2 means: everything is retained and
/// the two new attributes take their declared defaults.
pub open spec fn upgrade_player_v1(p: V1SavePlayer) -> V2SavePlayer {
    V2SavePlayer {
        entity: p.entity,
        health: p.health,
        level: p.level,
        target: p.target,
        exp: V2_PLAYER_EXP_DEFAULT,
        damage: V2_PLAYER_DAMAGE_DEFAULT,
    }
}

/// What upgrading one V1 monster into V2 means.
pub open spec fn upgrade_monster_v1(m: V1SaveMonster) -> V2SaveMonster {
    V2SaveMonster { entity: m.entity, health: m.health, damage: V2_MONSTER_DAMAGE_DEFAULT }
}

/// What upgrading one V2 player into V3 means: `exp` is dropped, the rest
/// is retained.
pub open spec fn upgrade_player_v2(p: V2SavePlayer) -> V3SavePlayer {
    V3SavePlayer {
        entity: p.entity,
        health: p.health,
        level: p.level,
        target: p.target,
        damage: p.damage,
    }
}

/// What upgrading one V2 monster into V3 means: the new variant attribute
/// takes its declared default.
pub open spec fn upgrade_monster_v2(m: V2SaveMonster) -> V3SaveMonster {
    V3SaveMonster {
        entity: m.entity,
        health: m.health,
        damage: m.damage,
        variant: V3_MONSTER_VARIANT_DEFAULT,
    }
}

impl V1SaveState {
    /// Upgrades a whole V1 snapshot into V2, record by record, in order.
    pub fn upgrade(self) -> (r: V2SaveState)
        ensures
            r.players@ == self.players@.map_values(|p: V1SavePlayer| upgrade_player_v1(p)),
            r.monsters@ == self.monsters@.map_values(|m: V1SaveMonster| upgrade_monster_v1(m)),
    {
        let mut players: Vec<V2SavePlayer> = Vec::new();
        let mut i: usize = 0;
        while i < self.players.len()
            invariant
                i <= self.players@.len(),
                players@ == self.players@.take(i as int).map_values(
                    |p: V1SavePlayer| upgrade_player_v1(p),
                ),
            decreases self.players@.len() - i,
        {
            let p = self.players[i];
            players.push(
                V2SavePlayer {
                    entity: p.entity,
                    health: p.health,
                    level: p.level,
                    target: p.target,
                    exp: V2_PLAYER_EXP_DEFAULT,
                    damage: V2_PLAYER_DAMAGE_DEFAULT,
                },
            );
            proof {
                assert(self.players@.take(i + 1) =~= self.players@.take(i as int).push(
                    self.players@[i as int],
                ));
                assert(self.players@.take(i + 1).map_values(
                    |p: V1SavePlayer| upgrade_player_v1(p),
                ) =~= self.players@.take(i as int).map_values(
                    |p: V1SavePlayer| upgrade_player_v1(p),
                ).push(upgrade_player_v1(self.players@[i as int])));
            }
            i += 1;
        }
        let mut monsters: Vec<V2SaveMonster> = Vec::new();
        let mut j: usize = 0;
        while j < self.monsters.len()
            invariant
                j <= self.monsters@.len(),
                monsters@ == self.monsters@.take(j as int).map_values(
                    |m: V1SaveMonster| upgrade_monster_v1(m),
                ),
            decreases self.monsters@.len() - j,
        {
            let m = self.monsters[j];
            monsters.push(
                V2SaveMonster {
                    entity: m.entity,
                    health: m.health,
                    damage: V2_MONSTER_DAMAGE_DEFAULT,
                },
            );
            proof {
                assert(self.monsters@.take(j + 1) =~= self.monsters@.take(j as int).push(
                    self.monsters@[j as int],
                ));
                assert(self.monsters@.take(j + 1).map_values(
                    |m: V1SaveMonster| upgrade_monster_v1(m),
                ) =~= self.monsters@.take(j as int).map_values(
                    |m: V1SaveMonster| upgrade_monster_v1(m),
                ).push(upgrade_monster_v1(self.monsters@[j as int])));
            }
            j += 1;
        }
        proof {
            assert(self.players@.take(self.players@.len() as int) =~= self.players@);
            assert(self.monsters@.take(self.monsters@.len() as int) =~= self.monsters@);
        }
        V2SaveState { players, monsters }
    }
}

impl V2SaveState {
    /// Upgrades a whole V2 snapshot into V3, record by record, in order.
    pub fn upgrade(self) -> (r: V3SaveState)
        ensures
            r.players@ == self.players@.map_values(|p: V2SavePlayer| upgrade_player_v2(p)),
            r.monsters@ == self.monsters@.map_values(|m: V2SaveMonster| upgrade_monster_v2(m)),
    {
        let mut players: Vec<V3SavePlayer> = Vec::new();
        let mut i: usize = 0;
        while i < self.players.len()
            invariant
                i <= self.players@.len(),
                players@ == self.players@.take(i as int).map_values(
                    |p: V2SavePlayer| upgrade_player_v2(p),
                ),
            decreases self.players@.len() - i,
        {
            let p = self.players[i];
            players.push(
                V3SavePlayer {
                    entity: p.entity,
                    health: p.health,
                    level: p.level,
                    target: p.target,
                    damage: p.damage,
                },
            );
            proof {
                assert(self.players@.take(i + 1) =~= self.players@.take(i as int).push(
                    self.players@[i as int],
                ));
                assert(self.players@.take(i + 1).map_values(
                    |p: V2SavePlayer| upgrade_player_v2(p),
                ) =~= self.players@.take(i as int).map_values(
                    |p: V2SavePlayer| upgrade_player_v2(p),
                ).push(upgrade_player_v2(self.players@[i as int])));
            }
            i += 1;
        }
        let mut monsters: Vec<V3SaveMonster> = Vec::new();
        let mut j: usize = 0;
        while j < self.monsters.len()
            invariant
                j <= self.monsters@.len(),
                monsters@ == self.monsters@.take(j as int).map_values(
                    |m: V2SaveMonster| upgrade_monster_v2(m),
                ),
            decreases self.monsters@.len() - j,
        {
            let m = self.monsters[j];
            monsters.push(
                V3SaveMonster {
                    entity: m.entity,
                    health: m.health,
                    damage: m.damage,
                    variant: V3_MONSTER_VARIANT_DEFAULT,
                },
            );
            proof {
                assert(self.monsters@.take(j + 1) =~= self.monsters@.take(j as int).push(
                    self.monsters@[j as int],
                ));
                assert(self.monsters@.take(j + 1).map_values(
                    |m: V2SaveMonster| upgrade_monster_v2(m),
                ) =~= self.monsters@.take(j as int).map_values(
                    |m: V2SaveMonster| upgrade_monster_v2(m),
                ).push(upgrade_monster_v2(self.monsters@[j as int])));
            }
            j += 1;
        }
        proof {
            assert(self.players@.take(self.players@.len() as int) =~= self.players@);
            assert(self.monsters@.take(self.monsters@.len() as int) =~= self.monsters@);
        }
        V3SaveState { players, monsters }
    }
}

impl V1SaveState {
    /// Builds the freshly generated initial snapshot: one level-one player
    /// at twenty health targeting one twenty-health monster. The two
    /// identifiers come from the external allocator; this function never
    /// mints one itself.
    pub fn generate(player: Identifier, monster: Identifier) -> (r: V1SaveState)
        ensures
            r.players@ =~= seq![
                V1SavePlayer { entity: player, health: 20, level: 1, target: Some(monster) },
            ],
            r.monsters@ =~= seq![V1SaveMonster { entity: monster, health: 20 }],
    {
        let players = vec![
            V1SavePlayer { entity: player, health: 20, level: 1, target: Some(monster) },
        ];
        let monsters = vec![V1SaveMonster { entity: monster, health: 20 }];
        V1SaveState { players, monsters }
    }
}

} // verus!
