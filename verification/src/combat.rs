//! Turn-based melee between the player and one enemy at a time.

use vstd::prelude::*;
use crate::animation::{AnimationTimer, AnimationView};
use crate::coord::{lemma_unit_distance, Coord};
use crate::enemy::{views, Enemy, EnemyView};
use crate::location::WorldLocation;
use crate::player::Player;
use crate::search::{first_index, lemma_first_index, lemma_first_index_is, lemma_first_index_none};

verus! {

/// The damage of one attack.
pub const ATTACK_DAMAGE: i32 = 30;

/// The health that every actor starts with.
pub const FULL_HEALTH: i32 = 100;

/// The time between two attacks, in nanoseconds: half a second.
pub const COOLDOWN_NANOS: u64 = 500_000_000;

/// The hit points of an actor. An actor with none left is to be removed.
#[derive(Clone, Copy, Debug, PartialEq, Eq, Structural)]
pub struct Health(pub i32);

impl Health {
    /// The health after one attack: `ATTACK_DAMAGE` less, and never less
    /// than a 32-bit number can hold.
    pub open spec fn struck(self) -> Health {
        if self.0 >= i32::MIN + ATTACK_DAMAGE {
            Health((self.0 - ATTACK_DAMAGE) as i32)
        } else {
            Health(i32::MIN)
        }
    }

    /// Whether no hit point is left.
    pub open spec fn is_spent(self) -> bool {
        self.0 <= 0
    }

    /// The health of `points` hit points.
    pub fn new(points: i32) -> (h: Health)
        ensures
            h == Health(points),
    {
        Health(points)
    }

    /// The hit points left.
    pub fn points(&self) -> (p: i32)
        ensures
            p == self.0,
    {
        self.0
    }

    /// Whether no hit point is left.
    pub fn spent(&self) -> (b: bool)
        ensures
            b == self.is_spent(),
    {
        self.0 <= 0
    }

    /// Takes one attack.
    pub fn strike(&mut self)
        ensures
            *final(self) == old(self).struck(),
    {
        if self.0 >= i32::MIN + ATTACK_DAMAGE {
            self.0 = self.0 - ATTACK_DAMAGE;
        } else {
            self.0 = i32::MIN;
        }
    }
}

impl Default for Health {
    /// Full health.
    fn default() -> (h: Health)
        ensures
            h == Health(FULL_HEALTH),
    {
        Health(FULL_HEALTH)
    }
}

/// Whether an actor is locked in combat.
#[derive(Clone, Copy, Debug, PartialEq, Eq, Structural)]
pub struct Combat {
    pub is_in_combat: bool,
}

impl Default for Combat {
    /// Not in combat.
    fn default() -> (c: Combat)
        ensures
            c == (Combat { is_in_combat: false }),
    {
        Combat { is_in_combat: false }
    }
}

/// A timer that runs once up to its duration and then rests there until it
/// is reset. Times are in nanoseconds.
#[derive(Clone, Copy, Debug, PartialEq, Eq, Structural)]
pub struct Cooldown {
    pub elapsed: u64,
    pub duration: u64,
    pub finished: bool,
}

impl Cooldown {
    /// The timer after `delta` more nanoseconds.
    pub open spec fn ticked(self, delta: u64) -> Cooldown {
        if self.finished {
            self
        } else if self.elapsed + delta >= self.duration {
            Cooldown { elapsed: self.duration, finished: true, ..self }
        } else {
            Cooldown { elapsed: (self.elapsed + delta) as u64, ..self }
        }
    }

    /// The timer set back to its start.
    pub open spec fn rewound(self) -> Cooldown {
        Cooldown { elapsed: 0, finished: false, ..self }
    }

    /// A timer of the given duration that has not run yet.
    pub fn new(duration: u64) -> (c: Cooldown)
        ensures
            c == (Cooldown { elapsed: 0, duration, finished: false }),
    {
        Cooldown { elapsed: 0, duration, finished: false }
    }

    /// Lets `delta` nanoseconds pass. A timer that has finished stays as it
    /// is; one that reaches its duration finishes and rests there.
    pub fn tick(&mut self, delta: u64)
        ensures
            *final(self) == old(self).ticked(delta),
    {
        if self.finished {
            return ;
        }
        let sum: u128 = self.elapsed as u128 + delta as u128;
        if sum >= self.duration as u128 {
            self.elapsed = self.duration;
            self.finished = true;
        } else {
            self.elapsed = sum as u64;
        }
    }

    /// Whether the timer has reached its duration.
    pub fn finished(&self) -> (b: bool)
        ensures
            b == self.finished,
    {
        self.finished
    }

    /// Sets the timer back to its start.
    pub fn reset(&mut self)
        ensures
            *final(self) == old(self).rewound(),
    {
        self.elapsed = 0;
        self.finished = false;
    }
}

/// The three states of the arbitration.
#[derive(Clone, Copy, Debug, PartialEq, Eq, Structural)]
pub enum CombatPhase {
    /// No opponent is engaged.
    Idle,
    /// An opponent is engaged and the player attacks next.
    PlayerTurn,
    /// An opponent is engaged and attacks next.
    OpponentTurn,
}

/// The one state of combat that a session has: the opponent that is engaged,
/// if any, whose turn it is, and the timer that spaces the attacks.
#[derive(Clone, Copy, Debug, PartialEq, Eq, Structural)]
pub struct CombatState {
    pub cooldown: Cooldown,
    pub opponent: Option<u64>,
    pub is_player_turn: bool,
}

impl CombatState {
    /// The state that the arbitration is in.
    pub open spec fn spec_phase(&self) -> CombatPhase {
        if self.opponent is None {
            CombatPhase::Idle
        } else if self.is_player_turn {
            CombatPhase::PlayerTurn
        } else {
            CombatPhase::OpponentTurn
        }
    }

    /// The state at the start of a session: nobody engaged, and a timer of
    /// `COOLDOWN_NANOS` that has not run yet.
    pub fn new() -> (s: CombatState)
        ensures
            s == (CombatState {
                cooldown: Cooldown { elapsed: 0, duration: COOLDOWN_NANOS, finished: false },
                opponent: None,
                is_player_turn: false,
            }),
    {
        CombatState { cooldown: Cooldown::new(COOLDOWN_NANOS), opponent: None, is_player_turn: false }
    }

    /// The state that the arbitration is in.
    #[verifier::when_used_as_spec(spec_phase)]
    pub fn phase(&self) -> (p: CombatPhase)
        ensures
            p == self.spec_phase(),
    {
        if self.opponent.is_none() {
            CombatPhase::Idle
        } else if self.is_player_turn {
            CombatPhase::PlayerTurn
        } else {
            CombatPhase::OpponentTurn
        }
    }
}

/// An attack that is due. It holds the id of the attacker.
#[derive(Clone, Copy, Debug, PartialEq, Eq, Structural)]
pub struct CombatEvent(pub u64);

/// An attack that has landed. It holds the id of the actor that was hit.
#[derive(Clone, Copy, Debug, PartialEq, Eq, Structural)]
pub struct DamagedEvent(pub u64);

/// Whether an enemy can be engaged by a player on `at`: it stands exactly
/// one grid step away, at squared distance one, and is free to move.
pub open spec fn is_contact(enemy: EnemyView, at: Coord) -> bool {
    enemy.location.location.distance_squared(at) == 1 && enemy.location.can_move
}

/// The place in the list of the first enemy that can be engaged from `at`.
pub open spec fn first_contact(enemies: Seq<EnemyView>, at: Coord) -> Option<int> {
    first_index(enemies, |e: EnemyView| is_contact(e, at))
}

/// The place in the list of the first enemy with the id `id`.
pub open spec fn index_of_id(enemies: Seq<EnemyView>, id: u64) -> Option<int> {
    first_index(enemies, |e: EnemyView| e.id == id)
}

/// What `first_contact` finds: the enemy at the place it gives can be
/// engaged and none before it can; where it gives none, no enemy can.
pub proof fn lemma_first_contact(enemies: Seq<EnemyView>, at: Coord)
    ensures
        match first_contact(enemies, at) {
            Some(k) => 0 <= k < enemies.len() && is_contact(enemies[k], at) && forall|j: int|
                0 <= j < k ==> !is_contact(#[trigger] enemies[j], at),
            None => forall|j: int| 0 <= j < enemies.len() ==> !is_contact(#[trigger] enemies[j], at),
        },
{
    lemma_first_index(enemies, |e: EnemyView| is_contact(e, at));
}

/// What `index_of_id` finds: the enemy at the place it gives has the id and
/// none before it has; where it gives none, no enemy has.
pub proof fn lemma_index_of_id(enemies: Seq<EnemyView>, id: u64)
    ensures
        match index_of_id(enemies, id) {
            Some(k) => 0 <= k < enemies.len() && enemies[k].id == id && forall|j: int|
                0 <= j < k ==> (#[trigger] enemies[j]).id != id,
            None => forall|j: int| 0 <= j < enemies.len() ==> (#[trigger] enemies[j]).id != id,
        },
{
    lemma_first_index(enemies, |e: EnemyView| e.id == id);
}

/// The place in the list of the first enemy with the id `id`.
pub fn find_enemy(enemies: &Vec<Enemy>, id: u64) -> (found: Option<usize>)
    ensures
        found is Some <==> index_of_id(views(enemies@), id) is Some,
        found matches Some(k) ==> index_of_id(views(enemies@), id) == Some(k as int) && k
            < enemies@.len() && enemies@[k as int].id == id,
{
    let ghost has_id = |e: EnemyView| e.id == id;
    let mut i: usize = 0;
    while i < enemies.len()
        invariant
            i <= enemies.len(),
            has_id == (|e: EnemyView| e.id == id),
            forall|j: int| 0 <= j < i ==> !has_id(#[trigger] views(enemies@)[j]),
        decreases enemies.len() - i,
    {
        if enemies[i].id == id {
            proof {
                lemma_first_index_is(views(enemies@), has_id, i as int);
            }
            return Some(i);
        }
        i += 1;
    }
    proof {
        lemma_first_index_none(views(enemies@), has_id);
    }
    None
}

/// Sets the player's flags by the combat state: in combat and frozen while
/// an opponent is engaged, free while none is.
pub fn sync_player(player: &mut Player, state: &CombatState)
    ensures
        *final(player) == old(player).synced(*state),
{
    player.combat.is_in_combat = state.opponent.is_some();
    player.location.can_move = state.opponent.is_none();
}

/// The enemy that `update_combat` engages, as its place in the list: none
/// while an opponent is engaged or no tick is pending, else the first enemy
/// that can be engaged from where the player stands.
pub open spec fn engagement(player: Player, enemies: Seq<EnemyView>, ticks: usize, state: CombatState) -> Option<
    int,
> {
    if state.opponent is Some || ticks == 0 {
        None
    } else {
        first_contact(enemies, player.location.location)
    }
}

/// An enemy as it is once engaged: frozen.
pub open spec fn frozen(enemy: EnemyView) -> EnemyView {
    EnemyView { location: WorldLocation { can_move: false, ..enemy.location }, ..enemy }
}

/// Looks for an opponent.
///
/// The player's flags are first set by the combat state, as `sync_player`
/// does. While an opponent is engaged, or with no tick pending, nothing else
/// happens. Else the first enemy that stands one step from the player and is
/// free to move becomes the opponent: the player turns to face it, both are
/// frozen, and the player has the first turn. Returns the id of the enemy
/// engaged.
pub fn update_combat(player: &mut Player, enemies: &mut Vec<Enemy>, ticks: usize, state: &mut CombatState) -> (engaged:
    Option<u64>)
    ensures
        final(enemies)@.len() == old(enemies)@.len(),
        match engagement(*old(player), views(old(enemies)@), ticks, *old(state)) {
            None => {
                &&& engaged is None
                &&& *final(player) == old(player).synced(*old(state))
                &&& final(enemies)@ == old(enemies)@
                &&& *final(state) == *old(state)
            },
            Some(k) => {
                &&& 0 <= k < old(enemies)@.len()
                &&& engaged == Some(old(enemies)@[k].id)
                &&& *final(player) == old(player).engaged_with(old(enemies)@[k].location.location)
                &&& *final(state) == (CombatState {
                    opponent: Some(old(enemies)@[k].id),
                    is_player_turn: true,
                    ..*old(state)
                })
                &&& final(enemies)@[k]@ == frozen(old(enemies)@[k]@)
                &&& forall|j: int|
                    0 <= j < old(enemies)@.len() && j != k ==> #[trigger] final(enemies)@[j] == old(enemies)@[j]
            },
        },
{
    sync_player(player, state);
    if player.combat.is_in_combat || ticks == 0 {
        return None;
    }
    let at = player.location.location;
    let ghost in_reach = |e: EnemyView| is_contact(e, at);
    let mut i: usize = 0;
    while i < enemies.len()
        invariant
            i <= enemies.len(),
            enemies@ == old(enemies)@,
            *state == *old(state),
            state.opponent is None,
            ticks != 0,
            *player == old(player).synced(*old(state)),
            at == old(player).location.location,
            in_reach == (|e: EnemyView| is_contact(e, at)),
            forall|j: int| 0 <= j < i ==> !in_reach(#[trigger] views(enemies@)[j]),
        decreases enemies.len() - i,
    {
        let there = enemies[i].location.location;
        if there.is_one_step_from(&at) && enemies[i].location.can_move {
            let id = enemies[i].id;
            proof {
                lemma_first_index_is(views(enemies@), in_reach, i as int);
                lemma_unit_distance(there, at);
            }
            player.location.face_towards(there);
            player.location.can_move = false;
            player.combat.is_in_combat = true;
            state.opponent = Some(id);
            state.is_player_turn = true;
            enemies[i].location.can_move = false;
            return Some(id);
        }
        i += 1;
    }
    proof {
        lemma_first_index_none(views(enemies@), in_reach);
    }
    None
}

/// Whether the player's attack is due: the timer has run out, it is the
/// player's turn, a tick is pending and the player is in combat.
pub open spec fn player_attack_due(player: Player, ticks: usize, state: CombatState) -> bool {
    state.cooldown.finished && state.is_player_turn && ticks > 0 && player.combat.is_in_combat
}

/// The combat state once an attack has been launched: the turn passes to
/// the other side and the timer starts over.
pub open spec fn turn_passed(state: CombatState) -> CombatState {
    CombatState { is_player_turn: !state.is_player_turn, cooldown: state.cooldown.rewound(), ..state }
}

/// Launches the player's attack where it is due. However many ticks are
/// pending, one attack is launched: the turn passes to the opponent and the
/// timer starts over. Else nothing changes.
pub fn check_player_combat(player: &Player, ticks: usize, state: &mut CombatState) -> (attack: Option<
    CombatEvent,
>)
    ensures
        player_attack_due(*player, ticks, *old(state)) ==> attack == Some(CombatEvent(player.id))
            && *final(state) == turn_passed(*old(state)),
        !player_attack_due(*player, ticks, *old(state)) ==> attack is None && *final(state) == *old(state),
{
    if !state.cooldown.finished() {
        return None;
    }
    if !state.is_player_turn {
        return None;
    }
    if ticks == 0 || !player.combat.is_in_combat {
        return None;
    }
    state.is_player_turn = false;
    state.cooldown.reset();
    Some(CombatEvent(player.id))
}

/// The enemy that the player's attack lands on, as its place in the list:
/// the opponent, where the first queued attack is the player's, the player
/// is in combat and the opponent is still there. Attacks queued behind the
/// first are not looked at.
pub open spec fn player_strike(
    player: Player,
    enemies: Seq<EnemyView>,
    events: Seq<CombatEvent>,
    state: CombatState,
) -> Option<int> {
    if events.len() > 0 && events[0].0 == player.id && player.combat.is_in_combat && state.opponent is Some {
        index_of_id(enemies, state.opponent->Some_0)
    } else {
        None
    }
}

/// An enemy after the player's attack: one attack less healthy, and shown
/// in pain before it walks on.
pub open spec fn hurt(enemy: EnemyView) -> EnemyView {
    EnemyView {
        health: enemy.health.struck(),
        animation: enemy.animation.played("pain"@, Some("walk"@)),
        ..enemy
    }
}

/// Lands the player's attack.
///
/// Where `player_strike` names an enemy, that enemy loses `ATTACK_DAMAGE`
/// hit points, once, and is shown in pain; the hit is reported; and if the
/// enemy has no hit point left the player is released from combat. Else
/// nothing changes.
pub fn damage_enemy(
    player: &mut Player,
    enemies: &mut Vec<Enemy>,
    events: &Vec<CombatEvent>,
    state: &CombatState,
) -> (damaged: Option<DamagedEvent>)
    ensures
        final(enemies)@.len() == old(enemies)@.len(),
        match player_strike(*old(player), views(old(enemies)@), events@, *state) {
            None => {
                &&& damaged is None
                &&& *final(player) == *old(player)
                &&& final(enemies)@ == old(enemies)@
            },
            Some(k) => {
                &&& 0 <= k < old(enemies)@.len()
                &&& damaged == Some(DamagedEvent(old(enemies)@[k].id))
                &&& final(enemies)@[k]@ == hurt(old(enemies)@[k]@)
                &&& forall|j: int|
                    0 <= j < old(enemies)@.len() && j != k ==> #[trigger] final(enemies)@[j] == old(enemies)@[j]
                &&& *final(player) == if old(enemies)@[k].health.struck().is_spent() {
                    old(player).released()
                } else {
                    *old(player)
                }
            },
        },
{
    if events.len() == 0 || events[0].0 != player.id || !player.combat.is_in_combat {
        return None;
    }
    let id = match state.opponent {
        Some(id) => id,
        None => {
            return None;
        },
    };
    let k = match find_enemy(enemies, id) {
        Some(k) => k,
        None => {
            return None;
        },
    };
    enemies[k].health.strike();
    enemies[k].animation.play("pain".to_owned(), Some("walk".to_owned()));
    if enemies[k].health.spent() {
        player.combat.is_in_combat = false;
        player.location.can_move = true;
    }
    Some(DamagedEvent(enemies[k].id))
}

/// Whether the opponent's attack is due: the timer has run out, an opponent
/// is engaged and still there, it is its turn and a tick is pending.
pub open spec fn opponent_attack_due(enemies: Seq<EnemyView>, ticks: usize, state: CombatState) -> bool {
    &&& state.cooldown.finished
    &&& state.opponent is Some
    &&& !state.is_player_turn
    &&& ticks > 0
    &&& index_of_id(enemies, state.opponent->Some_0) is Some
}

/// Launches the opponent's attack where it is due. However many ticks are
/// pending, one attack is launched: the turn passes to the player and the
/// timer starts over. Else nothing changes.
pub fn check_enemy_combat(enemies: &Vec<Enemy>, ticks: usize, state: &mut CombatState) -> (attack: Option<
    CombatEvent,
>)
    ensures
        opponent_attack_due(views(enemies@), ticks, *old(state)) ==> attack == Some(
            CombatEvent(old(state).opponent->Some_0),
        ) && *final(state) == turn_passed(*old(state)),
        !opponent_attack_due(views(enemies@), ticks, *old(state)) ==> attack is None && *final(state)
            == *old(state),
{
    if !state.cooldown.finished() {
        return None;
    }
    let id = match state.opponent {
        Some(id) => id,
        None => {
            return None;
        },
    };
    if state.is_player_turn || ticks == 0 {
        return None;
    }
    if find_enemy(enemies, id).is_none() {
        return None;
    }
    state.cooldown.reset();
    state.is_player_turn = true;
    Some(CombatEvent(id))
}

/// The enemy whose attack lands on the player, as its place in the list:
/// the opponent, where the first queued attack is its own, the player is in
/// combat and the opponent is still there. Attacks queued behind the first
/// are not looked at.
pub open spec fn opponent_strike(
    player: Player,
    enemies: Seq<EnemyView>,
    events: Seq<CombatEvent>,
    state: CombatState,
) -> Option<int> {
    if events.len() > 0 && state.opponent is Some && events[0].0 == state.opponent->Some_0
        && player.combat.is_in_combat {
        index_of_id(enemies, state.opponent->Some_0)
    } else {
        None
    }
}

/// An enemy as it attacks: shown attacking before it walks on.
pub open spec fn striking(enemy: EnemyView) -> EnemyView {
    EnemyView { animation: enemy.animation.played("attack"@, Some("walk"@)), ..enemy }
}

/// Lands the opponent's attack.
///
/// Where `opponent_strike` names an enemy, that enemy is shown attacking,
/// the player loses `ATTACK_DAMAGE` hit points, once, and the hit is
/// reported. Else nothing changes.
pub fn damage_player(
    player: &mut Player,
    enemies: &mut Vec<Enemy>,
    events: &Vec<CombatEvent>,
    state: &CombatState,
) -> (damaged: Option<DamagedEvent>)
    ensures
        final(enemies)@.len() == old(enemies)@.len(),
        match opponent_strike(*old(player), views(old(enemies)@), events@, *state) {
            None => {
                &&& damaged is None
                &&& *final(player) == *old(player)
                &&& final(enemies)@ == old(enemies)@
            },
            Some(k) => {
                &&& 0 <= k < old(enemies)@.len()
                &&& damaged == Some(DamagedEvent(old(player).id))
                &&& final(enemies)@[k]@ == striking(old(enemies)@[k]@)
                &&& forall|j: int|
                    0 <= j < old(enemies)@.len() && j != k ==> #[trigger] final(enemies)@[j] == old(enemies)@[j]
                &&& *final(player) == (Player { health: old(player).health.struck(), ..*old(player) })
            },
        },
{
    if events.len() == 0 || !player.combat.is_in_combat {
        return None;
    }
    let id = match state.opponent {
        Some(id) => id,
        None => {
            return None;
        },
    };
    if events[0].0 != id {
        return None;
    }
    let k = match find_enemy(enemies, id) {
        Some(k) => k,
        None => {
            return None;
        },
    };
    enemies[k].animation.play("attack".to_owned(), Some("walk".to_owned()));
    player.health.strike();
    Some(DamagedEvent(player.id))
}

/// What is left of a dead enemy: a body where it fell, facing as it did,
/// shown in its death pose.
#[derive(Clone, Debug)]
pub struct Corpse {
    pub location: WorldLocation,
    pub animation: AnimationTimer,
}

/// The enemies that have hit points left, in their order.
pub open spec fn standing(enemies: Seq<Enemy>) -> Seq<Enemy>
    decreases enemies.len(),
{
    if enemies.len() == 0 {
        enemies
    } else if enemies.last().health.is_spent() {
        standing(enemies.drop_last())
    } else {
        standing(enemies.drop_last()).push(enemies.last())
    }
}

/// The enemies that have no hit point left, in their order.
pub open spec fn fallen(enemies: Seq<Enemy>) -> Seq<Enemy>
    decreases enemies.len(),
{
    if enemies.len() == 0 {
        enemies
    } else if enemies.last().health.is_spent() {
        fallen(enemies.drop_last()).push(enemies.last())
    } else {
        fallen(enemies.drop_last())
    }
}

/// The death pose of a sprite that draws from `library`.
pub open spec fn death_pose(library: Seq<char>) -> AnimationView {
    AnimationView {
        library,
        current_animation: "death"@,
        current_frame: 0,
        next: None,
        update_now: false,
    }
}

/// Whether `corpse` is what is left of `enemy`.
pub open spec fn is_corpse_of(corpse: Corpse, enemy: EnemyView) -> bool {
    corpse.location == enemy.location && corpse.animation@ == death_pose(enemy.animation.library)
}

/// The combat state once the enemies that are gone are taken note of: an
/// opponent that is not among `enemies` is no opponent any more.
pub open spec fn opponent_cleared(state: CombatState, enemies: Seq<EnemyView>) -> CombatState {
    if state.opponent is Some && index_of_id(enemies, state.opponent->Some_0) is None {
        CombatState { opponent: None, ..state }
    } else {
        state
    }
}

/// Removes the enemies that have no hit point left and returns a corpse for
/// each, in their order. If the opponent is not among the enemies that
/// remain, because it died now or was gone before, nobody is engaged any
/// more.
pub fn despawn_dead_enemies(enemies: &mut Vec<Enemy>, state: &mut CombatState) -> (corpses: Vec<Corpse>)
    ensures
        final(enemies)@ == standing(old(enemies)@),
        corpses@.len() == fallen(old(enemies)@).len(),
        forall|i: int|
            0 <= i < corpses@.len() ==> is_corpse_of(#[trigger] corpses@[i], fallen(old(enemies)@)[i]@),
        *final(state) == opponent_cleared(*old(state), views(standing(old(enemies)@))),
{
    let mut all: Vec<Enemy> = Vec::new();
    std::mem::swap(enemies, &mut all);
    let mut corpses: Vec<Corpse> = Vec::new();
    let ghost before = all@;
    for enemy in it: all
        invariant
            it.seq() == before,
            enemies@ == standing(before.take(it.index() as int)),
            corpses@.len() == fallen(before.take(it.index() as int)).len(),
            forall|i: int|
                0 <= i < corpses@.len() ==> is_corpse_of(
                    #[trigger] corpses@[i],
                    fallen(before.take(it.index() as int))[i]@,
                ),
    {
        proof {
            assert(before.take(it.index() + 1).drop_last() == before.take(it.index() as int));
        }
        if enemy.health.spent() {
            let animation = AnimationTimer::new(enemy.animation.library.clone(), "death".to_owned());
            corpses.push(Corpse { location: enemy.location, animation });
        } else {
            enemies.push(enemy);
        }
    }
    proof {
        assert(before.take(before.len() as int) == before);
    }
    match state.opponent {
        Some(id) => {
            if find_enemy(enemies, id).is_none() {
                state.opponent = None;
            }
        },
        None => {},
    }
    corpses
}

} // verus!
