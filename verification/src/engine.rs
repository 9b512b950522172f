use crate::errors::MigrationError;
use crate::ident::Identifier;
use crate::schema::V1SaveMonster;
use crate::schema::V1SavePlayer;
use crate::schema::V2SaveMonster;
use crate::schema::V2SavePlayer;
use crate::schema::V2_MONSTER_DAMAGE_DEFAULT;
use crate::schema::V2_PLAYER_DAMAGE_DEFAULT;
use crate::schema::V2_PLAYER_EXP_DEFAULT;
use crate::schema::V3SaveMonster;
use crate::schema::V3SavePlayer;
use crate::schema::V3SaveState;
use crate::schema::upgrade_monster_v1;
use crate::schema::upgrade_monster_v2;
use crate::schema::upgrade_player_v1;
use crate::schema::upgrade_player_v2;
use vstd::prelude::*;

verus! {

/// One in-memory snapshot, tagged with the schema version that shaped it.
/// The variants form a strictly linear chain: each non-terminal version
/// has exactly one successor, and only the terminal version upgrades to
/// itself.
#[derive(Clone, PartialEq, Debug)]
pub enum GameState {
    V1_0(crate::schema::V1SaveState),
    V2_0(crate::schema::V2SaveState),
    V3_0(crate::schema::V3SaveState),
}

impl GameState {
    /// Position of the held version in the declared chain; drives the
    /// termination argument of the upgrade loop.
    pub open spec fn version_index(self) -> int {
        match self {
            GameState::V1_0(_) => 1,
            GameState::V2_0(_) => 2,
            GameState::V3_0(_) => 3,
        }
    }

    /// Whether the held snapshot already has the terminal shape.
    pub open spec fn spec_is_latest(self) -> bool {
        self is V3_0
    }

    /// Whether the held snapshot already has the terminal shape.
    pub fn is_latest(&self) -> (r: bool)
        ensures
            r == self.spec_is_latest(),
    {
        match self {
            GameState::V3_0(_) => true,
            _ => false,
        }
    }

    /// Applies exactly one upgrade step: each version maps to its single
    /// declared successor, and the terminal version maps to itself, so
    /// "already latest" and "needs one more step" are handled uniformly.
    pub fn upgrade_version(self) -> (r: GameState)
        ensures
            self matches GameState::V1_0(s) ==> (r matches GameState::V2_0(t)
                && t.players@ == s.players@.map_values(|p: V1SavePlayer| upgrade_player_v1(p))
                && t.monsters@ == s.monsters@.map_values(|m: V1SaveMonster| upgrade_monster_v1(m))),
            self matches GameState::V2_0(s) ==> (r matches GameState::V3_0(t)
                && t.players@ == s.players@.map_values(|p: V2SavePlayer| upgrade_player_v2(p))
                && t.monsters@ == s.monsters@.map_values(|m: V2SaveMonster| upgrade_monster_v2(m))),
            self matches GameState::V3_0(s) ==> r == self,
    {
        match self {
            GameState::V1_0(x) => GameState::V2_0(x.upgrade()),
            GameState::V2_0(x) => GameState::V3_0(x.upgrade()),
            GameState::V3_0(x) => GameState::V3_0(x),
        }
    }

    /// Every identifier the held snapshot carries is well formed.
    pub open spec fn wf(self) -> bool {
        match self {
            GameState::V1_0(s) => crate::schema::v1_wf(s),
            GameState::V2_0(s) => crate::schema::v2_wf(s),
            GameState::V3_0(s) => crate::schema::v3_wf(s),
        }
    }

    /// Repeatedly applies the next upgrade transform until the result
    /// reports the terminal version. The loop is driven by the result's
    /// version, not by a fixed step count. The contract spells out path
    /// independence: a V1 snapshot comes out exactly as if the V1-to-V2
    /// and V2-to-V3 transforms had been applied manually in sequence, and
    /// a snapshot that is already latest comes back unchanged.
    pub fn upgrade_to_latest(self) -> (r: GameState)
        ensures
            r is V3_0,
            upgraded_to_latest(self, r),
    {
        let ghost orig = self;
        let mut cc = self.upgrade_version();
        while !cc.is_latest()
            invariant
                upgraded_to_latest(orig, cc) || (orig matches GameState::V1_0(s) && cc matches
                    GameState::V2_0(t) && t.players@ == v1_players_to_v2(s.players@) && t.monsters@
                    == v1_monsters_to_v2(s.monsters@)),
            decreases 3 - cc.version_index(),
        {
            cc = cc.upgrade_version();
        }
        cc
    }
}

/// What it means for `g` to be the fully upgraded form of `d`: a V1
/// snapshot goes through the V1-to-V2 and V2-to-V3 transforms in
/// sequence, a V2 snapshot through the one remaining transform, and a
/// snapshot that is already latest stays exactly itself.
pub open spec fn upgraded_to_latest(d: GameState, g: GameState) -> bool {
    match d {
        GameState::V1_0(s) => g matches GameState::V3_0(t) && t.players@ == v1_players_to_latest(
            s.players@,
        ) && t.monsters@ == v1_monsters_to_latest(s.monsters@),
        GameState::V2_0(s) => g matches GameState::V3_0(t) && t.players@ == s.players@.map_values(
            |p: V2SavePlayer| upgrade_player_v2(p),
        ) && t.monsters@ == s.monsters@.map_values(|m: V2SaveMonster| upgrade_monster_v2(m)),
        GameState::V3_0(_) => g == d,
    }
}

// ---------------------------------------------------------------------
// Referential integrity of the terminal snapshot.
// ---------------------------------------------------------------------
/// Every reference field of the snapshot resolves: a player's target, if
/// present, is the identifier of some monster record in the same
/// snapshot.
pub open spec fn refs_valid(s: V3SaveState) -> bool {
    forall|i: int|
        0 <= i < s.players@.len() ==> (#[trigger] s.players@[i].target matches Some(id)
            ==> exists|j: int| 0 <= j < s.monsters@.len() && (#[trigger] s.monsters@[j].entity)
            == id)
}

impl V3SaveState {
    /// Strict-mode check on a terminal snapshot: succeeds exactly when
    /// every present reference field resolves to a monster record of the
    /// same snapshot; a dangling reference indicates a bug in an upgrade
    /// transform.
    pub fn check_references(&self) -> (r: Result<(), MigrationError>)
        ensures
            r is Ok <==> refs_valid(*self),
            r matches Err(e) ==> e is DanglingReference,
    {
        let mut i: usize = 0;
        while i < self.players.len()
            invariant
                i <= self.players@.len(),
                forall|k: int|
                    0 <= k < i ==> (#[trigger] self.players@[k].target matches Some(id) ==> exists|
                        j: int,
                    |
                        0 <= j < self.monsters@.len() && (#[trigger] self.monsters@[j].entity)
                            == id),
            decreases self.players@.len() - i,
        {
            if let Some(id) = self.players[i].target {
                let mut found = false;
                let mut j: usize = 0;
                while j < self.monsters.len()
                    invariant
                        j <= self.monsters@.len(),
                        found <==> exists|k: int|
                            0 <= k < j && (#[trigger] self.monsters@[k].entity) == id,
                    decreases self.monsters@.len() - j,
                {
                    if self.monsters[j].entity == id {
                        found = true;
                    }
                    j += 1;
                }
                if !found {
                    return Err(MigrationError::DanglingReference);
                }
            }
            i += 1;
        }
        Ok(())
    }
}

// ---------------------------------------------------------------------
// Laws of the upgrade chain.
// ---------------------------------------------------------------------
/// A V1 player list taken through one step of the chain.
pub open spec fn v1_players_to_v2(players: Seq<V1SavePlayer>) -> Seq<V2SavePlayer> {
    players.map_values(|p: V1SavePlayer| upgrade_player_v1(p))
}

/// A V1 monster list taken through one step of the chain.
pub open spec fn v1_monsters_to_v2(monsters: Seq<V1SaveMonster>) -> Seq<V2SaveMonster> {
    monsters.map_values(|m: V1SaveMonster| upgrade_monster_v1(m))
}

/// A V1 player list taken through the whole chain: the V1-to-V2 step,
/// then the V2-to-V3 step.
pub open spec fn v1_players_to_latest(players: Seq<V1SavePlayer>) -> Seq<V3SavePlayer> {
    players.map_values(|p: V1SavePlayer| upgrade_player_v1(p)).map_values(
        |q: V2SavePlayer| upgrade_player_v2(q),
    )
}

/// A V1 monster list taken through the whole chain.
pub open spec fn v1_monsters_to_latest(monsters: Seq<V1SaveMonster>) -> Seq<V3SaveMonster> {
    monsters.map_values(|m: V1SaveMonster| upgrade_monster_v1(m)).map_values(
        |n: V2SaveMonster| upgrade_monster_v2(n),
    )
}

/// Every present reference of a V1 record list resolves to a monster of
/// the same snapshot.
pub open spec fn v1_refs_valid(players: Seq<V1SavePlayer>, monsters: Seq<V1SaveMonster>) -> bool {
    forall|i: int|
        0 <= i < players.len() ==> (#[trigger] players[i].target matches Some(id) ==> exists|
            j: int,
        |
            0 <= j < monsters.len() && (#[trigger] monsters[j].entity) == id)
}

/// The upgrade chain never introduces a dangling reference: when every
/// reference of a V1 snapshot resolves, every reference still resolves
/// after the whole chain, so a strict-mode failure can only mean a bug in
/// a transform, not in this chain.
pub proof fn lemma_upgrade_keeps_references(
    players: Seq<V1SavePlayer>,
    monsters: Seq<V1SaveMonster>,
)
    requires
        v1_refs_valid(players, monsters),
    ensures
        forall|i: int|
            0 <= i < players.len() ==> ((#[trigger] v1_players_to_latest(players)[i]).target
                matches Some(id) ==> exists|j: int|
                0 <= j < monsters.len() && (#[trigger] v1_monsters_to_latest(monsters)[j]).entity
                    == id),
{
    assert forall|i: int|
        0 <= i < players.len() && (#[trigger] v1_players_to_latest(players)[i]).target is Some
        implies exists|j: int|
        0 <= j < monsters.len() && (#[trigger] v1_monsters_to_latest(monsters)[j]).entity
            == v1_players_to_latest(players)[i].target->Some_0 by {
        let id = v1_players_to_latest(players)[i].target->Some_0;
        assert(players[i].target == Some(id));
        let j = choose|j: int| 0 <= j < monsters.len() && (#[trigger] monsters[j].entity) == id;
        assert(v1_monsters_to_latest(monsters)[j].entity == id);
    }
}

/// Upgrading preserves well-formedness: every identifier of the upgraded
/// snapshot is one the source snapshot already carried, so it is still
/// well formed.
pub proof fn lemma_upgrade_preserves_wf(d: GameState, g: GameState)
    requires
        upgraded_to_latest(d, g),
        d.wf(),
    ensures
        g.wf(),
{
    match d {
        GameState::V1_0(s) => {
            if let GameState::V3_0(t) = g {
                assert forall|i: int| 0 <= i < t.players@.len() implies crate::ident::id_wf(
                    (#[trigger] t.players@[i]).entity,
                ) && crate::schema::opt_id_wf(t.players@[i].target) by {
                    assert(t.players@[i] == upgrade_player_v2(upgrade_player_v1(s.players@[i])));
                }
                assert forall|i: int| 0 <= i < t.monsters@.len() implies crate::ident::id_wf(
                    (#[trigger] t.monsters@[i]).entity,
                ) by {
                    assert(t.monsters@[i] == upgrade_monster_v2(upgrade_monster_v1(
                        s.monsters@[i],
                    )));
                }
            }
        },
        GameState::V2_0(s) => {
            if let GameState::V3_0(t) = g {
                assert forall|i: int| 0 <= i < t.players@.len() implies crate::ident::id_wf(
                    (#[trigger] t.players@[i]).entity,
                ) && crate::schema::opt_id_wf(t.players@[i].target) by {
                    assert(t.players@[i] == upgrade_player_v2(s.players@[i]));
                }
                assert forall|i: int| 0 <= i < t.monsters@.len() implies crate::ident::id_wf(
                    (#[trigger] t.monsters@[i]).entity,
                ) by {
                    assert(t.monsters@[i] == upgrade_monster_v2(s.monsters@[i]));
                }
            }
        },
        GameState::V3_0(_) => {
        },
    }
}

/// Reference preservation: when a V1 player record points at a monster
/// record's identifier, then after upgrading the snapshot to the latest
/// version the same player still carries the identical identifier and a
/// monster record with that identifier still exists.
pub proof fn lemma_reference_preservation(
    players: Seq<V1SavePlayer>,
    monsters: Seq<V1SaveMonster>,
    i: int,
    j: int,
    id: Identifier,
)
    requires
        0 <= i < players.len(),
        players[i].target == Some(id),
        0 <= j < monsters.len(),
        monsters[j].entity == id,
    ensures
        v1_players_to_latest(players)[i].target == Some(id),
        exists|k: int|
            0 <= k < monsters.len() && (#[trigger] v1_monsters_to_latest(monsters)[k]).entity
                == id,
{
    assert(v1_monsters_to_latest(monsters)[j].entity == id);
}

/// Default backfill: upgrading V1 into V2 sets every newly introduced
/// attribute of every record to its declared default, and copies every
/// retained attribute and identifier unchanged.
pub proof fn lemma_default_backfill(players: Seq<V1SavePlayer>, monsters: Seq<V1SaveMonster>)
    ensures
        forall|i: int|
            0 <= i < players.len() ==> {
                let up = #[trigger] v1_players_to_v2(players)[i];
                up.exp == V2_PLAYER_EXP_DEFAULT && up.damage == V2_PLAYER_DAMAGE_DEFAULT
                    && up.entity == players[i].entity && up.health == players[i].health && up.level
                    == players[i].level && up.target == players[i].target
            },
        forall|i: int|
            0 <= i < monsters.len() ==> {
                let up = #[trigger] v1_monsters_to_v2(monsters)[i];
                up.damage == V2_MONSTER_DAMAGE_DEFAULT && up.entity == monsters[i].entity
                    && up.health == monsters[i].health
            },
{
}

/// Field removal: the deprecated experience counter is dropped on the way
/// into V3 — two V2 players that agree on everything but that attribute
/// upgrade to the very same V3 player.
pub proof fn lemma_exp_dropped(a: V2SavePlayer, b: V2SavePlayer)
    requires
        a.entity == b.entity,
        a.health == b.health,
        a.level == b.level,
        a.target == b.target,
        a.damage == b.damage,
    ensures
        upgrade_player_v2(a) == upgrade_player_v2(b),
{
}

} // verus!
