//! One pass of the combat rules, in their fixed order, and what holds of
//! every pass.
//!
//! The order is part of the rules: an opponent is looked for before attacks
//! land, and the dead are removed after, so that a dead opponent never
//! strikes back.

use vstd::prelude::*;
use crate::combat::{
    check_enemy_combat, check_player_combat, damage_enemy, damage_player, despawn_dead_enemies,
    engagement, fallen, frozen, hurt, index_of_id, is_corpse_of, lemma_index_of_id, opponent_attack_due,
    opponent_cleared, opponent_strike, player_attack_due, player_strike, standing, striking,
    sync_player, turn_passed, update_combat, CombatEvent, CombatState, Corpse, DamagedEvent, ATTACK_DAMAGE,
};
use crate::enemy::{views, Enemy, EnemyView};
use crate::player::Player;

verus! {

/// The player, the enemies and the combat state as plain values: what the
/// combat rules read and change.
pub struct CombatModel {
    pub player: Player,
    pub enemies: Seq<EnemyView>,
    pub state: CombatState,
}

/// The model of a player, enemies and a combat state.
pub open spec fn model_of(player: Player, enemies: Seq<Enemy>, state: CombatState) -> CombatModel {
    CombatModel { player, enemies: views(enemies), state }
}

/// The enemies, as plain values, that have hit points left, in their order.
pub open spec fn standing_views(enemies: Seq<EnemyView>) -> Seq<EnemyView>
    decreases enemies.len(),
{
    if enemies.len() == 0 {
        enemies
    } else if enemies.last().health.is_spent() {
        standing_views(enemies.drop_last())
    } else {
        standing_views(enemies.drop_last()).push(enemies.last())
    }
}

/// The enemies, as plain values, that have no hit point left, in their
/// order.
pub open spec fn fallen_views(enemies: Seq<EnemyView>) -> Seq<EnemyView>
    decreases enemies.len(),
{
    if enemies.len() == 0 {
        enemies
    } else if enemies.last().health.is_spent() {
        fallen_views(enemies.drop_last()).push(enemies.last())
    } else {
        fallen_views(enemies.drop_last())
    }
}

impl CombatModel {
    /// After `delta` nanoseconds have passed on the timer.
    pub open spec fn cooled(self, delta: u64) -> CombatModel {
        CombatModel {
            state: CombatState { cooldown: self.state.cooldown.ticked(delta), ..self.state },
            ..self
        }
    }

    /// After `update_combat`.
    pub open spec fn sought(self, ticks: usize) -> CombatModel {
        match engagement(self.player, self.enemies, ticks, self.state) {
            None => CombatModel { player: self.player.synced(self.state), ..self },
            Some(k) => CombatModel {
                player: self.player.engaged_with(self.enemies[k].location.location),
                enemies: self.enemies.update(k, frozen(self.enemies[k])),
                state: CombatState {
                    opponent: Some(self.enemies[k].id),
                    is_player_turn: true,
                    ..self.state
                },
            },
        }
    }

    /// The attack that `check_player_combat` launches.
    pub open spec fn player_launch(self, ticks: usize) -> Option<CombatEvent> {
        if player_attack_due(self.player, ticks, self.state) {
            Some(CombatEvent(self.player.id))
        } else {
            None
        }
    }

    /// After `check_player_combat`.
    pub open spec fn player_launched(self, ticks: usize) -> CombatModel {
        if player_attack_due(self.player, ticks, self.state) {
            CombatModel { state: turn_passed(self.state), ..self }
        } else {
            self
        }
    }

    /// After `damage_enemy`.
    pub open spec fn enemy_struck(self, events: Seq<CombatEvent>) -> CombatModel {
        match player_strike(self.player, self.enemies, events, self.state) {
            None => self,
            Some(k) => CombatModel {
                player: if self.enemies[k].health.struck().is_spent() {
                    self.player.released()
                } else {
                    self.player
                },
                enemies: self.enemies.update(k, hurt(self.enemies[k])),
                ..self
            },
        }
    }

    /// The attack that `check_enemy_combat` launches.
    pub open spec fn opponent_launch(self, ticks: usize) -> Option<CombatEvent> {
        if opponent_attack_due(self.enemies, ticks, self.state) {
            Some(CombatEvent(self.state.opponent->Some_0))
        } else {
            None
        }
    }

    /// After `check_enemy_combat`.
    pub open spec fn opponent_launched(self, ticks: usize) -> CombatModel {
        if opponent_attack_due(self.enemies, ticks, self.state) {
            CombatModel { state: turn_passed(self.state), ..self }
        } else {
            self
        }
    }

    /// After `damage_player`.
    pub open spec fn player_struck(self, events: Seq<CombatEvent>) -> CombatModel {
        match opponent_strike(self.player, self.enemies, events, self.state) {
            None => self,
            Some(k) => CombatModel {
                player: Player { health: self.player.health.struck(), ..self.player },
                enemies: self.enemies.update(k, striking(self.enemies[k])),
                ..self
            },
        }
    }

    /// After `despawn_dead_enemies`.
    pub open spec fn buried(self) -> CombatModel {
        CombatModel {
            enemies: standing_views(self.enemies),
            state: opponent_cleared(self.state, standing_views(self.enemies)),
            ..self
        }
    }

    /// After `sync_player`.
    pub open spec fn settled(self) -> CombatModel {
        CombatModel { player: self.player.synced(self.state), ..self }
    }

    /// The model when the player's attack of this pass, if one is launched,
    /// has landed.
    pub open spec fn after_player_turn(self, ticks: usize, delta: u64) -> CombatModel {
        let sought = self.cooled(delta).sought(ticks);
        sought.player_launched(ticks).enemy_struck(queue(sought.player_launch(ticks)))
    }

    /// The model when the opponent's attack of this pass, if one is
    /// launched, has landed too.
    pub open spec fn after_opponent_turn(self, ticks: usize, delta: u64) -> CombatModel {
        let mine = self.after_player_turn(ticks, delta);
        mine.opponent_launched(ticks).player_struck(queue(mine.opponent_launch(ticks)))
    }

    /// After one whole pass of `combat_tick`.
    pub open spec fn after_tick(self, ticks: usize, delta: u64) -> CombatModel {
        self.after_opponent_turn(ticks, delta).buried().settled()
    }
}

/// The queue that holds `event` and nothing else, or nothing.
pub open spec fn queue(event: Option<CombatEvent>) -> Seq<CombatEvent> {
    match event {
        Some(e) => seq![e],
        None => Seq::empty(),
    }
}

/// What one pass of the combat rules did, for whoever draws and sounds it.
#[derive(Clone, Debug)]
pub struct CombatReport {
    /// The enemy that was engaged in this pass.
    pub engaged: Option<u64>,
    /// The hit that an enemy took in this pass.
    pub enemy_hit: Option<DamagedEvent>,
    /// The hit that the player took in this pass.
    pub player_hit: Option<DamagedEvent>,
    /// What is left of the enemies that died in this pass.
    pub corpses: Vec<Corpse>,
}

proof fn lemma_standing_views(enemies: Seq<Enemy>)
    ensures
        views(standing(enemies)) == standing_views(views(enemies)),
        views(fallen(enemies)) == fallen_views(views(enemies)),
    decreases enemies.len(),
{
    if enemies.len() == 0 {
        assert(views(standing(enemies)) =~= standing_views(views(enemies)));
        assert(views(fallen(enemies)) =~= fallen_views(views(enemies)));
    } else {
        let rest = enemies.drop_last();
        lemma_standing_views(rest);
        assert(views(enemies).drop_last() =~= views(rest));
        assert(views(enemies).last() == enemies.last()@);
        assert(views(standing(enemies)) =~= standing_views(views(enemies)));
        assert(views(fallen(enemies)) =~= fallen_views(views(enemies)));
    }
}

fn queue_of(event: Option<CombatEvent>) -> (events: Vec<CombatEvent>)
    ensures
        events@ == queue(event),
{
    let mut events: Vec<CombatEvent> = Vec::new();
    match event {
        Some(e) => {
            events.push(e);
        },
        None => {},
    }
    events
}

/// One pass of the combat rules, in their fixed order: the timer runs on by
/// `delta` nanoseconds; an opponent is looked for; the player's attack is
/// launched and lands; the opponent's attack is launched and lands; the
/// dead are removed; and the player's flags are set by what came of it.
///
/// The pass is `CombatModel::after_tick` on the model, and the report says
/// who was engaged, who was hit, and what is left of whom.
pub fn combat_tick(
    player: &mut Player,
    enemies: &mut Vec<Enemy>,
    state: &mut CombatState,
    ticks: usize,
    delta: u64,
) -> (report: CombatReport)
    ensures
        model_of(*final(player), final(enemies)@, *final(state)) == model_of(
            *old(player),
            old(enemies)@,
            *old(state),
        ).after_tick(ticks, delta),
        ({
            let before = model_of(*old(player), old(enemies)@, *old(state));
            let looking = before.cooled(delta);
            let sought = looking.sought(ticks);
            let launched = sought.player_launched(ticks);
            let mine = before.after_player_turn(ticks, delta);
            let theirs = before.after_opponent_turn(ticks, delta);
            &&& report.engaged == match engagement(looking.player, looking.enemies, ticks, looking.state) {
                Some(k) => Some(looking.enemies[k].id),
                None => None,
            }
            &&& report.enemy_hit == match player_strike(
                launched.player,
                launched.enemies,
                queue(sought.player_launch(ticks)),
                launched.state,
            ) {
                Some(k) => Some(DamagedEvent(launched.enemies[k].id)),
                None => None,
            }
            &&& report.player_hit == match opponent_strike(
                mine.opponent_launched(ticks).player,
                mine.opponent_launched(ticks).enemies,
                queue(mine.opponent_launch(ticks)),
                mine.opponent_launched(ticks).state,
            ) {
                Some(k) => Some(DamagedEvent(before.player.id)),
                None => None,
            }
            &&& report.corpses@.len() == fallen_views(theirs.enemies).len()
            &&& forall|i: int|
                0 <= i < report.corpses@.len() ==> is_corpse_of(
                    #[trigger] report.corpses@[i],
                    fallen_views(theirs.enemies)[i],
                )
        }),
{
    let ghost before = model_of(*player, enemies@, *state);
    state.cooldown.tick(delta);
    let ghost looking = model_of(*player, enemies@, *state);
    let engaged = update_combat(player, enemies, ticks, state);
    let ghost sought = model_of(*player, enemies@, *state);
    proof {
        assert(sought.enemies =~= looking.sought(ticks).enemies);
    }
    let attack = check_player_combat(player, ticks, state);
    let ghost launched = model_of(*player, enemies@, *state);
    let events = queue_of(attack);
    let enemy_hit = damage_enemy(player, enemies, &events, state);
    let ghost mine = model_of(*player, enemies@, *state);
    proof {
        assert(mine.enemies =~= launched.enemy_struck(events@).enemies);
    }
    let attack = check_enemy_combat(enemies, ticks, state);
    let ghost answered = model_of(*player, enemies@, *state);
    let events = queue_of(attack);
    let player_hit = damage_player(player, enemies, &events, state);
    let ghost theirs = model_of(*player, enemies@, *state);
    proof {
        assert(theirs.enemies =~= answered.player_struck(events@).enemies);
        lemma_standing_views(enemies@);
    }
    let corpses = despawn_dead_enemies(enemies, state);
    sync_player(player, state);
    CombatReport { engaged, enemy_hit, player_hit, corpses }
}

/// Whether no two enemies share an id.
pub open spec fn distinct_ids(enemies: Seq<EnemyView>) -> bool {
    forall|i: int, j: int|
        0 <= i < enemies.len() && 0 <= j < enemies.len() && i != j ==> (#[trigger] enemies[i]).id != (
        #[trigger] enemies[j]).id
}

/// Whether the player's flags agree with the combat state: the player is
/// in combat and frozen exactly while an opponent is engaged.
pub open spec fn flags_agree(player: Player, state: CombatState) -> bool {
    &&& player.location.can_move == (state.opponent is None)
    &&& player.combat.is_in_combat == (state.opponent is Some)
}

/// Every enemy that `standing_views` keeps has hit points left and was
/// among the enemies before.
pub proof fn lemma_standing_are_alive(enemies: Seq<EnemyView>)
    ensures
        standing_views(enemies).len() <= enemies.len(),
        forall|i: int|
            0 <= i < standing_views(enemies).len() ==> !(#[trigger] standing_views(
                enemies,
            )[i]).health.is_spent() && enemies.contains(standing_views(enemies)[i]),
        forall|j: int|
            0 <= j < enemies.len() && !enemies[j].health.is_spent() ==> standing_views(enemies).contains(
                #[trigger] enemies[j],
            ),
    decreases enemies.len(),
{
    if enemies.len() > 0 {
        let rest = enemies.drop_last();
        lemma_standing_are_alive(rest);
        let kept = standing_views(enemies);
        assert forall|i: int| 0 <= i < kept.len() implies !(#[trigger] kept[i]).health.is_spent()
            && enemies.contains(kept[i]) by {
            if i < standing_views(rest).len() {
                assert(kept[i] == standing_views(rest)[i]);
                let j = choose|j: int| 0 <= j < rest.len() && rest[j] == kept[i];
                assert(enemies[j] == kept[i]);
            } else {
                assert(kept[i] == enemies[enemies.len() - 1]);
            }
        }
        assert forall|j: int| 0 <= j < enemies.len() && !enemies[j].health.is_spent() implies kept.contains(
            #[trigger] enemies[j],
        ) by {
            if j < rest.len() {
                assert(rest[j] == enemies[j]);
                let i = choose|i: int|
                    0 <= i < standing_views(rest).len() && standing_views(rest)[i] == enemies[j];
                assert(kept[i] == enemies[j]);
            } else {
                assert(kept[kept.len() - 1] == enemies[j]);
            }
        }
    }
}

/// Removing the dead keeps the ids of the living apart.
pub proof fn lemma_standing_keeps_ids_apart(enemies: Seq<EnemyView>)
    requires
        distinct_ids(enemies),
    ensures
        distinct_ids(standing_views(enemies)),
    decreases enemies.len(),
{
    if enemies.len() > 0 {
        let rest = enemies.drop_last();
        assert(distinct_ids(rest)) by {
            assert forall|i: int, j: int| 0 <= i < rest.len() && 0 <= j < rest.len() && i != j implies (
            #[trigger] rest[i]).id != (#[trigger] rest[j]).id by {
                assert(rest[i] == enemies[i] && rest[j] == enemies[j]);
            }
        }
        lemma_standing_keeps_ids_apart(rest);
        lemma_standing_are_alive(rest);
        let kept = standing_views(enemies);
        let last = enemies.len() - 1;
        assert forall|i: int, j: int| 0 <= i < kept.len() && 0 <= j < kept.len() && i != j implies (
        #[trigger] kept[i]).id != (#[trigger] kept[j]).id by {
            let inner = standing_views(rest);
            if i < inner.len() && j < inner.len() {
                assert(kept[i] == inner[i] && kept[j] == inner[j]);
            } else if i < inner.len() {
                assert(kept[i] == inner[i]);
                let k = choose|k: int| 0 <= k < rest.len() && rest[k] == inner[i];
                assert(enemies[k] == kept[i] && enemies[last] == kept[j]);
            } else {
                assert(kept[j] == inner[j]);
                let k = choose|k: int| 0 <= k < rest.len() && rest[k] == inner[j];
                assert(enemies[k] == kept[j] && enemies[last] == kept[i]);
            }
        }
    }
}

/// After every pass the player's flags agree with the combat state, every
/// enemy that is left has hit points left, and an opponent that is still
/// engaged is one of them.
pub proof fn lemma_tick_settles(m: CombatModel, ticks: usize, delta: u64)
    ensures
        flags_agree(m.after_tick(ticks, delta).player, m.after_tick(ticks, delta).state),
        forall|i: int|
            0 <= i < m.after_tick(ticks, delta).enemies.len() ==> !(#[trigger] m.after_tick(
                ticks,
                delta,
            ).enemies[i]).health.is_spent(),
        m.after_tick(ticks, delta).state.opponent is Some ==> index_of_id(
            m.after_tick(ticks, delta).enemies,
            m.after_tick(ticks, delta).state.opponent->Some_0,
        ) is Some,
{
    lemma_standing_are_alive(m.after_opponent_turn(ticks, delta).enemies);
}

/// While an opponent is engaged, no other enemy becomes the opponent: after
/// a pass the opponent is the same, or nobody is engaged.
pub proof fn lemma_opponent_is_kept(m: CombatModel, ticks: usize, delta: u64)
    requires
        m.state.opponent is Some,
    ensures
        m.after_tick(ticks, delta).state.opponent is None || m.after_tick(ticks, delta).state.opponent
            == m.state.opponent,
{
}

/// No pass makes two enemies share an id, so that at most one enemy is the
/// opponent: any two enemies with the id of the opponent are one and the
/// same.
pub proof fn lemma_one_opponent_at_most(m: CombatModel, ticks: usize, delta: u64)
    requires
        distinct_ids(m.enemies),
    ensures
        distinct_ids(m.after_tick(ticks, delta).enemies),
        forall|i: int, j: int|
            #![trigger m.after_tick(ticks, delta).enemies[i], m.after_tick(ticks, delta).enemies[j]]
            0 <= i < m.after_tick(ticks, delta).enemies.len() && 0 <= j < m.after_tick(
                ticks,
                delta,
            ).enemies.len() && Some(m.after_tick(ticks, delta).enemies[i].id) == m.after_tick(
                ticks,
                delta,
            ).state.opponent && Some(m.after_tick(ticks, delta).enemies[j].id) == m.after_tick(
                ticks,
                delta,
            ).state.opponent ==> i == j,
{
    let looking = m.cooled(delta);
    let sought = looking.sought(ticks);
    assert(distinct_ids(sought.enemies)) by {
        match engagement(looking.player, looking.enemies, ticks, looking.state) {
            Some(k) => {
                crate::combat::lemma_first_contact(looking.enemies, looking.player.location.location);
            },
            None => {},
        }
    }
    let launched = sought.player_launched(ticks);
    let events = queue(sought.player_launch(ticks));
    let mine = launched.enemy_struck(events);
    assert(distinct_ids(mine.enemies)) by {
        match player_strike(launched.player, launched.enemies, events, launched.state) {
            Some(k) => {
                lemma_index_of_id(launched.enemies, launched.state.opponent->Some_0);
            },
            None => {},
        }
    }
    let answered = mine.opponent_launched(ticks);
    let replies = queue(mine.opponent_launch(ticks));
    let theirs = answered.player_struck(replies);
    assert(distinct_ids(theirs.enemies)) by {
        match opponent_strike(answered.player, answered.enemies, replies, answered.state) {
            Some(k) => {
                lemma_index_of_id(answered.enemies, answered.state.opponent->Some_0);
            },
            None => {},
        }
    }
    lemma_standing_keeps_ids_apart(theirs.enemies);
}

/// One attack of the player costs one enemy `ATTACK_DAMAGE` hit points and
/// no more, however many attacks are queued: only the first of the queue is
/// taken, the enemy it lands on loses exactly that, and every other enemy
/// keeps its health.
pub proof fn lemma_one_hit_per_attack(m: CombatModel, events: Seq<CombatEvent>)
    ensures
        events.len() > 0 ==> m.enemy_struck(events) == m.enemy_struck(seq![events[0]]),
        m.enemy_struck(events).enemies.len() == m.enemies.len(),
        forall|j: int|
            0 <= j < m.enemies.len() ==> (#[trigger] m.enemy_struck(events).enemies[j]).health
                == if player_strike(m.player, m.enemies, events, m.state) == Some(j) {
                m.enemies[j].health.struck()
            } else {
                m.enemies[j].health
            },
        forall|j: int|
            0 <= j < m.enemies.len() && m.enemies[j].health.0 >= i32::MIN + ATTACK_DAMAGE ==> (
            #[trigger] m.enemies[j]).health.struck().0 == m.enemies[j].health.0 - ATTACK_DAMAGE,
{
    if events.len() > 0 {
        assert(seq![events[0]][0] == events[0]);
    }
    match player_strike(m.player, m.enemies, events, m.state) {
        Some(k) => {
            lemma_index_of_id(m.enemies, m.state.opponent->Some_0);
        },
        None => {},
    }
}

/// However many ticks are pending, a pass does what it does with one.
pub proof fn lemma_ticks_count_once(m: CombatModel, ticks: usize, delta: u64)
    requires
        ticks > 0,
    ensures
        m.after_tick(ticks, delta) == m.after_tick(1, delta),
{
}

/// The death of the opponent ends the combat: once the dead are removed and
/// the player's flags are set, nobody is engaged, the player is free to
/// move, and no enemy with the id of the dead is left.
pub proof fn lemma_death_ends_combat(m: CombatModel, k: int)
    requires
        distinct_ids(m.enemies),
        0 <= k < m.enemies.len(),
        m.state.opponent == Some(m.enemies[k].id),
        m.enemies[k].health.is_spent(),
    ensures
        m.buried().settled().state.opponent is None,
        m.buried().settled().player.location.can_move,
        !m.buried().settled().player.combat.is_in_combat,
        forall|i: int|
            0 <= i < m.buried().settled().enemies.len() ==> (#[trigger] m.buried().settled().enemies[i]).id
                != m.enemies[k].id,
{
    let id = m.enemies[k].id;
    let left = standing_views(m.enemies);
    lemma_standing_are_alive(m.enemies);
    assert forall|i: int| 0 <= i < left.len() implies (#[trigger] left[i]).id != id by {
        let j = choose|j: int| 0 <= j < m.enemies.len() && m.enemies[j] == left[i];
        if j != k {
            assert(m.enemies[j].id != m.enemies[k].id);
        }
    }
    lemma_index_of_id(left, id);
}

} // verus!
