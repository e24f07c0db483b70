use catacombat::animation::AnimationTimer;
use catacombat::arbitration::combat_tick;
use catacombat::combat::{
    check_enemy_combat, check_player_combat, damage_enemy, damage_player, despawn_dead_enemies,
    find_enemy, sync_player, update_combat, Combat, CombatEvent, CombatPhase, CombatState, Cooldown,
    DamagedEvent, Health, ATTACK_DAMAGE, COOLDOWN_NANOS, FULL_HEALTH,
};
use catacombat::coord::Coord;
use catacombat::enemy::Enemy;
use catacombat::location::WorldLocation;
use catacombat::player::Player;

fn cultist(id: u64, x: i32, y: i32) -> Enemy {
    Enemy::new(
        id,
        WorldLocation::new(Coord::new(x, y), Coord::new(0, 1)),
        AnimationTimer::new("Cultist".to_string(), "walk".to_string()),
    )
}

fn engaged_with(id: u64, player_turn: bool, finished: bool) -> CombatState {
    let mut state = CombatState::new();
    state.opponent = Some(id);
    state.is_player_turn = player_turn;
    if finished {
        state.cooldown.tick(COOLDOWN_NANOS);
    }
    state
}

fn fighting_player() -> Player {
    let mut player = Player::new(0);
    player.combat.is_in_combat = true;
    player.location.can_move = false;
    player
}

#[test]
fn health_starts_full_and_loses_thirty_a_hit() {
    let mut h = Health::default();
    assert_eq!(h.points(), 100);
    assert_eq!(FULL_HEALTH, 100);
    assert_eq!(ATTACK_DAMAGE, 30);
    h.strike();
    assert_eq!(h.points(), 70);
    h.strike();
    h.strike();
    assert_eq!(h.points(), 10);
    assert!(!h.spent());
    h.strike();
    assert_eq!(h.points(), -20);
    assert!(h.spent());
}

#[test]
fn health_of_nothing_is_spent() {
    assert!(Health::new(0).spent());
    assert!(!Health::new(1).spent());
}

#[test]
fn health_stops_at_the_least_number() {
    let mut h = Health::new(i32::MIN + 29);
    h.strike();
    assert_eq!(h.points(), i32::MIN);
    let mut g = Health::new(i32::MIN + 30);
    g.strike();
    assert_eq!(g.points(), i32::MIN);
    let mut f = Health::new(i32::MIN + 31);
    f.strike();
    assert_eq!(f.points(), i32::MIN + 1);
}

#[test]
fn cooldown_runs_once_and_rests() {
    let mut c = Cooldown::new(500);
    assert!(!c.finished());
    c.tick(200);
    assert_eq!(c, Cooldown { elapsed: 200, duration: 500, finished: false });
    c.tick(299);
    assert!(!c.finished());
    c.tick(1);
    assert_eq!(c, Cooldown { elapsed: 500, duration: 500, finished: true });
    c.tick(1000);
    assert_eq!(c, Cooldown { elapsed: 500, duration: 500, finished: true });
    c.reset();
    assert_eq!(c, Cooldown { elapsed: 0, duration: 500, finished: false });
}

#[test]
fn cooldown_takes_the_longest_delta() {
    let mut c = Cooldown::new(u64::MAX);
    c.tick(u64::MAX - 1);
    assert!(!c.finished());
    c.tick(u64::MAX);
    assert_eq!(c, Cooldown { elapsed: u64::MAX, duration: u64::MAX, finished: true });
}

#[test]
fn cooldown_of_no_time_finishes_on_the_first_tick() {
    let mut c = Cooldown::new(0);
    assert!(!c.finished());
    c.tick(0);
    assert!(c.finished());
}

#[test]
fn combat_starts_idle_with_half_a_second_of_cooldown() {
    let state = CombatState::new();
    assert_eq!(state.opponent, None);
    assert!(!state.is_player_turn);
    assert_eq!(state.cooldown, Cooldown { elapsed: 0, duration: 500_000_000, finished: false });
    assert_eq!(state.phase(), CombatPhase::Idle);
    assert_eq!(engaged_with(3, true, false).phase(), CombatPhase::PlayerTurn);
    assert_eq!(engaged_with(3, false, false).phase(), CombatPhase::OpponentTurn);
    assert_eq!(Combat::default(), Combat { is_in_combat: false });
}

#[test]
fn sync_player_sets_the_flags_by_the_opponent() {
    let mut player = Player::new(0);
    sync_player(&mut player, &engaged_with(1, true, false));
    assert!(player.combat.is_in_combat);
    assert!(!player.location.can_move);
    sync_player(&mut player, &CombatState::new());
    assert!(!player.combat.is_in_combat);
    assert!(player.location.can_move);
}

#[test]
fn update_combat_engages_the_first_enemy_one_step_away() {
    let mut player = Player::new(0);
    let mut enemies = vec![cultist(1, 3, 3), cultist(2, 1, 0), cultist(3, 0, 1)];
    let mut state = CombatState::new();
    let engaged = update_combat(&mut player, &mut enemies, 1, &mut state);
    assert_eq!(engaged, Some(2));
    assert_eq!(state.opponent, Some(2));
    assert!(state.is_player_turn);
    assert_eq!(state.phase(), CombatPhase::PlayerTurn);
    assert_eq!(player.location.get_forward(), Coord::new(1, 0));
    assert_eq!(player.location.get_location(), Coord::new(0, 0));
    assert!(!player.location.can_move);
    assert!(player.combat.is_in_combat);
    assert!(enemies[0].location.can_move);
    assert!(!enemies[1].location.can_move);
    assert!(enemies[2].location.can_move);
}

#[test]
fn update_combat_needs_a_tick() {
    let mut player = Player::new(0);
    let mut enemies = vec![cultist(1, 1, 0)];
    let mut state = CombatState::new();
    assert_eq!(update_combat(&mut player, &mut enemies, 0, &mut state), None);
    assert_eq!(state, CombatState::new());
    assert!(enemies[0].location.can_move);
    assert!(player.location.can_move);
}

#[test]
fn update_combat_passes_over_diagonal_and_distant_enemies() {
    let mut player = Player::new(0);
    let mut enemies = vec![cultist(1, 1, 1), cultist(2, 2, 0), cultist(3, 0, 0)];
    let mut state = CombatState::new();
    assert_eq!(update_combat(&mut player, &mut enemies, 3, &mut state), None);
    assert_eq!(state.opponent, None);
    assert!(player.location.can_move);
    assert!(!player.combat.is_in_combat);
}

#[test]
fn update_combat_passes_over_frozen_enemies() {
    let mut player = Player::new(0);
    let mut frozen = cultist(1, 1, 0);
    frozen.location.can_move = false;
    let mut enemies = vec![frozen, cultist(2, -1, 0)];
    let mut state = CombatState::new();
    assert_eq!(update_combat(&mut player, &mut enemies, 1, &mut state), Some(2));
    assert_eq!(player.location.get_forward(), Coord::new(-1, 0));
}

#[test]
fn update_combat_engages_nobody_while_an_opponent_is_engaged() {
    let mut player = Player::new(0);
    let mut enemies = vec![cultist(1, 1, 0), cultist(2, 0, 1)];
    let mut state = CombatState::new();
    assert_eq!(update_combat(&mut player, &mut enemies, 1, &mut state), Some(1));
    for _ in 0..5 {
        assert_eq!(update_combat(&mut player, &mut enemies, 4, &mut state), None);
        assert_eq!(state.opponent, Some(1));
        assert!(enemies[1].location.can_move);
        assert!(!player.location.can_move);
        assert!(player.combat.is_in_combat);
    }
}

#[test]
fn several_ticks_engage_one_enemy_only() {
    let mut player = Player::new(0);
    let mut enemies = vec![cultist(1, 1, 0), cultist(2, 0, 1), cultist(3, -1, 0)];
    let mut state = CombatState::new();
    assert_eq!(update_combat(&mut player, &mut enemies, 7, &mut state), Some(1));
    assert_eq!(state.opponent, Some(1));
    let frozen: Vec<bool> = enemies.iter().map(|e| !e.location.can_move).collect();
    assert_eq!(frozen, vec![true, false, false]);
}

#[test]
fn player_attack_is_launched_once_when_due() {
    let player = fighting_player();
    let mut state = engaged_with(1, true, true);
    let attack = check_player_combat(&player, 5, &mut state);
    assert_eq!(attack, Some(CombatEvent(0)));
    assert!(!state.is_player_turn);
    assert_eq!(state.cooldown, Cooldown::new(COOLDOWN_NANOS));
    assert_eq!(state.opponent, Some(1));
    assert_eq!(check_player_combat(&player, 5, &mut state), None);
}

#[test]
fn player_attack_waits_for_cooldown_turn_tick_and_combat() {
    let player = fighting_player();
    let mut cooling = engaged_with(1, true, false);
    assert_eq!(check_player_combat(&player, 1, &mut cooling), None);
    assert_eq!(cooling, engaged_with(1, true, false));
    let mut theirs = engaged_with(1, false, true);
    assert_eq!(check_player_combat(&player, 1, &mut theirs), None);
    assert_eq!(theirs, engaged_with(1, false, true));
    let mut ready = engaged_with(1, true, true);
    assert_eq!(check_player_combat(&player, 0, &mut ready), None);
    assert_eq!(ready, engaged_with(1, true, true));
    assert_eq!(check_player_combat(&Player::new(0), 1, &mut ready), None);
    assert_eq!(ready, engaged_with(1, true, true));
}

#[test]
fn one_attack_costs_the_opponent_thirty_however_many_are_queued() {
    let mut player = fighting_player();
    let mut enemies = vec![cultist(1, 1, 0), cultist(2, 0, 1)];
    let state = engaged_with(2, false, false);
    let events = vec![CombatEvent(0), CombatEvent(0), CombatEvent(0)];
    let damaged = damage_enemy(&mut player, &mut enemies, &events, &state);
    assert_eq!(damaged, Some(DamagedEvent(2)));
    assert_eq!(enemies[1].health.points(), 70);
    assert_eq!(enemies[0].health.points(), 100);
    assert_eq!(enemies[1].animation.current_animation, "pain");
    assert_eq!(enemies[1].animation.next, Some("walk".to_string()));
    assert_eq!(enemies[1].animation.current_frame, 0);
    assert!(enemies[1].animation.update_now);
    assert_eq!(enemies[0].animation.current_animation, "walk");
    assert!(player.combat.is_in_combat);
    assert!(!player.location.can_move);
}

#[test]
fn damage_enemy_needs_an_attack_of_the_player_in_combat_on_an_opponent_that_is_there() {
    let state = engaged_with(1, false, false);
    let mut enemies = vec![cultist(1, 1, 0)];
    let mut player = fighting_player();
    assert_eq!(damage_enemy(&mut player, &mut enemies, &Vec::new(), &state), None);
    assert_eq!(damage_enemy(&mut player, &mut enemies, &vec![CombatEvent(9)], &state), None);
    let mut idle = Player::new(0);
    assert_eq!(damage_enemy(&mut idle, &mut enemies, &vec![CombatEvent(0)], &state), None);
    assert_eq!(
        damage_enemy(&mut player, &mut enemies, &vec![CombatEvent(0)], &CombatState::new()),
        None
    );
    assert_eq!(
        damage_enemy(&mut player, &mut enemies, &vec![CombatEvent(0)], &engaged_with(7, false, false)),
        None
    );
    assert_eq!(enemies[0].health.points(), 100);
    assert_eq!(enemies[0].animation.current_animation, "walk");
    assert_eq!(player, fighting_player());
}

#[test]
fn a_killing_blow_releases_the_player() {
    let mut player = fighting_player();
    let mut weak = cultist(1, 1, 0);
    weak.health = Health::new(30);
    let mut enemies = vec![weak];
    let state = engaged_with(1, false, false);
    let damaged = damage_enemy(&mut player, &mut enemies, &vec![CombatEvent(0)], &state);
    assert_eq!(damaged, Some(DamagedEvent(1)));
    assert_eq!(enemies[0].health.points(), 0);
    assert!(!player.combat.is_in_combat);
    assert!(player.location.can_move);
}

#[test]
fn opponent_attack_is_launched_once_when_due() {
    let enemies = vec![cultist(1, 1, 0)];
    let mut state = engaged_with(1, false, true);
    assert_eq!(check_enemy_combat(&enemies, 3, &mut state), Some(CombatEvent(1)));
    assert!(state.is_player_turn);
    assert_eq!(state.cooldown, Cooldown::new(COOLDOWN_NANOS));
    assert_eq!(check_enemy_combat(&enemies, 3, &mut state), None);
}

#[test]
fn opponent_attack_waits_for_cooldown_turn_tick_and_opponent() {
    let enemies = vec![cultist(1, 1, 0)];
    let mut cooling = engaged_with(1, false, false);
    assert_eq!(check_enemy_combat(&enemies, 1, &mut cooling), None);
    let mut mine = engaged_with(1, true, true);
    assert_eq!(check_enemy_combat(&enemies, 1, &mut mine), None);
    assert_eq!(mine, engaged_with(1, true, true));
    let mut ready = engaged_with(1, false, true);
    assert_eq!(check_enemy_combat(&enemies, 0, &mut ready), None);
    let mut gone = engaged_with(5, false, true);
    assert_eq!(check_enemy_combat(&enemies, 1, &mut gone), None);
    assert_eq!(gone, engaged_with(5, false, true));
    let mut idle = CombatState::new();
    idle.cooldown.tick(COOLDOWN_NANOS);
    let before = idle;
    assert_eq!(check_enemy_combat(&enemies, 1, &mut idle), None);
    assert_eq!(idle, before);
}

#[test]
fn one_attack_costs_the_player_thirty_however_many_are_queued() {
    let mut player = fighting_player();
    let mut enemies = vec![cultist(1, 1, 0)];
    let state = engaged_with(1, true, false);
    let events = vec![CombatEvent(1), CombatEvent(1)];
    let damaged = damage_player(&mut player, &mut enemies, &events, &state);
    assert_eq!(damaged, Some(DamagedEvent(0)));
    assert_eq!(player.health.points(), 70);
    assert_eq!(enemies[0].health.points(), 100);
    assert_eq!(enemies[0].animation.current_animation, "attack");
    assert_eq!(enemies[0].animation.next, Some("walk".to_string()));
    assert!(enemies[0].animation.update_now);
}

#[test]
fn damage_player_needs_an_attack_of_the_opponent() {
    let mut player = fighting_player();
    let mut enemies = vec![cultist(1, 1, 0), cultist(2, 0, 1)];
    let state = engaged_with(1, true, false);
    assert_eq!(damage_player(&mut player, &mut enemies, &Vec::new(), &state), None);
    assert_eq!(damage_player(&mut player, &mut enemies, &vec![CombatEvent(2)], &state), None);
    assert_eq!(damage_player(&mut player, &mut enemies, &vec![CombatEvent(0)], &state), None);
    assert_eq!(
        damage_player(&mut player, &mut enemies, &vec![CombatEvent(1)], &CombatState::new()),
        None
    );
    let mut idle = Player::new(0);
    assert_eq!(damage_player(&mut idle, &mut enemies, &vec![CombatEvent(1)], &state), None);
    assert_eq!(player.health.points(), 100);
    assert_eq!(enemies[0].animation.current_animation, "walk");
}

#[test]
fn dead_enemies_leave_and_are_laid_out() {
    let mut dead = cultist(2, 4, 4);
    dead.health = Health::new(0);
    dead.location.turn(catacombat::location::Turn::Left);
    let mut dying = cultist(4, 6, 6);
    dying.health = Health::new(-20);
    let mut enemies = vec![cultist(1, 1, 0), dead, cultist(3, 5, 5), dying];
    let mut state = engaged_with(1, true, false);
    let corpses = despawn_dead_enemies(&mut enemies, &mut state);
    let ids: Vec<u64> = enemies.iter().map(|e| e.id).collect();
    assert_eq!(ids, vec![1, 3]);
    assert_eq!(corpses.len(), 2);
    assert_eq!(corpses[0].location.get_location(), Coord::new(4, 4));
    assert_eq!(corpses[0].location.get_forward(), Coord::new(-1, 0));
    assert_eq!(corpses[1].location.get_location(), Coord::new(6, 6));
    assert_eq!(corpses[0].animation.current_animation, "death");
    assert_eq!(corpses[0].animation.library, "Cultist");
    assert_eq!(corpses[0].animation.current_frame, 0);
    assert_eq!(corpses[0].animation.next, None);
    assert_eq!(state.opponent, Some(1));
}

#[test]
fn the_death_of_the_opponent_clears_the_slot() {
    let mut dead = cultist(2, 1, 0);
    dead.health = Health::new(-5);
    let mut enemies = vec![cultist(1, 3, 3), dead];
    let mut state = engaged_with(2, false, true);
    let corpses = despawn_dead_enemies(&mut enemies, &mut state);
    assert_eq!(corpses.len(), 1);
    assert_eq!(state.opponent, None);
    assert_eq!(state.phase(), CombatPhase::Idle);
    assert_eq!(enemies.len(), 1);
}

#[test]
fn an_opponent_that_is_gone_clears_the_slot() {
    let mut enemies = vec![cultist(1, 3, 3)];
    let mut state = engaged_with(9, true, false);
    let corpses = despawn_dead_enemies(&mut enemies, &mut state);
    assert!(corpses.is_empty());
    assert_eq!(state.opponent, None);
    assert_eq!(enemies.len(), 1);
}

#[test]
fn find_enemy_gives_the_first_with_the_id() {
    let enemies = vec![cultist(4, 0, 0), cultist(7, 1, 1), cultist(7, 2, 2)];
    assert_eq!(find_enemy(&enemies, 7), Some(1));
    assert_eq!(find_enemy(&enemies, 4), Some(0));
    assert_eq!(find_enemy(&enemies, 5), None);
    assert_eq!(find_enemy(&Vec::new(), 5), None);
}

#[test]
fn death_transition() {
    let mut player = Player::new(0);
    let mut weak = cultist(1, 1, 0);
    weak.health = Health::new(30);
    let mut enemies = vec![weak, cultist(2, 5, 5)];
    let mut state = CombatState::new();

    let report = combat_tick(&mut player, &mut enemies, &mut state, 1, 0);
    assert_eq!(report.engaged, Some(1));
    assert_eq!(report.enemy_hit, None);
    assert_eq!(state.opponent, Some(1));
    assert_eq!(state.phase(), CombatPhase::PlayerTurn);
    assert!(!player.location.can_move);

    let report = combat_tick(&mut player, &mut enemies, &mut state, 1, COOLDOWN_NANOS);
    assert_eq!(report.enemy_hit, Some(DamagedEvent(1)));
    assert_eq!(report.player_hit, None);
    assert_eq!(report.corpses.len(), 1);
    assert_eq!(report.corpses[0].location.get_location(), Coord::new(1, 0));
    assert_eq!(report.corpses[0].animation.current_animation, "death");
    assert_eq!(enemies.len(), 1);
    assert_eq!(enemies[0].id, 2);
    assert_eq!(state.opponent, None);
    assert!(player.location.can_move);
    assert!(!player.combat.is_in_combat);

    let report = combat_tick(&mut player, &mut enemies, &mut state, 1, 0);
    assert_eq!(report.engaged, None);
    assert_eq!(state.opponent, None);
    assert!(player.location.can_move);
    assert_eq!(player.health.points(), 100);
}

#[test]
fn turns_alternate_with_the_cooldown_between() {
    let mut player = Player::new(0);
    let mut enemies = vec![cultist(1, 0, 1)];
    let mut state = CombatState::new();
    let half = COOLDOWN_NANOS / 2;

    let report = combat_tick(&mut player, &mut enemies, &mut state, 1, half);
    assert_eq!(report.engaged, Some(1));
    assert_eq!(player.location.get_forward(), Coord::new(0, 1));
    assert_eq!((report.enemy_hit, report.player_hit), (None, None));

    let report = combat_tick(&mut player, &mut enemies, &mut state, 1, half);
    assert_eq!(report.enemy_hit, Some(DamagedEvent(1)));
    assert_eq!(report.player_hit, None);
    assert_eq!(enemies[0].health.points(), 70);
    assert_eq!(state.phase(), CombatPhase::OpponentTurn);

    let report = combat_tick(&mut player, &mut enemies, &mut state, 1, half);
    assert_eq!((report.enemy_hit, report.player_hit), (None, None));

    let report = combat_tick(&mut player, &mut enemies, &mut state, 0, half);
    assert_eq!((report.enemy_hit, report.player_hit), (None, None));
    assert_eq!(state.phase(), CombatPhase::OpponentTurn);

    let report = combat_tick(&mut player, &mut enemies, &mut state, 2, 0);
    assert_eq!(report.enemy_hit, None);
    assert_eq!(report.player_hit, Some(DamagedEvent(0)));
    assert_eq!(player.health.points(), 70);
    assert_eq!(enemies[0].health.points(), 70);
    assert_eq!(state.phase(), CombatPhase::PlayerTurn);
    assert_eq!(state.opponent, Some(1));
    assert!(!player.location.can_move);
    assert!(player.combat.is_in_combat);
}

#[test]
fn many_ticks_in_a_pass_are_one_hit() {
    let mut player = Player::new(0);
    let mut enemies = vec![cultist(1, 0, 1)];
    let mut state = CombatState::new();
    combat_tick(&mut player, &mut enemies, &mut state, 10, COOLDOWN_NANOS);
    assert_eq!(state.opponent, Some(1));
    assert_eq!(enemies[0].health.points(), 70);
    assert_eq!(player.health.points(), 100);
    assert_eq!(state.phase(), CombatPhase::OpponentTurn);
}

#[test]
fn no_second_opponent_while_one_is_engaged() {
    let mut player = Player::new(0);
    let mut enemies = vec![cultist(1, 0, 1), cultist(2, 1, 0), cultist(3, -1, 0)];
    let mut state = CombatState::new();
    for round in 0..40u64 {
        let before = state.opponent;
        combat_tick(&mut player, &mut enemies, &mut state, 1, COOLDOWN_NANOS);
        if let Some(id) = before {
            assert!(state.opponent == Some(id) || state.opponent == None);
        }
        if let Some(id) = state.opponent {
            assert_eq!(enemies.iter().filter(|e| e.id == id).count(), 1);
            let frozen = enemies.iter().filter(|e| !e.location.can_move).count();
            assert!(frozen >= 1);
        }
        assert_eq!(player.location.can_move, state.opponent.is_none());
        assert_eq!(player.combat.is_in_combat, state.opponent.is_some());
        assert!(enemies.iter().all(|e| e.health.points() > 0));
        assert!(round < 40);
    }
    assert!(enemies.is_empty() || player.health.points() < 100);
}

#[test]
fn a_stale_opponent_is_dropped_and_the_player_freed() {
    let mut player = fighting_player();
    let mut enemies = vec![cultist(2, 5, 5)];
    let mut state = engaged_with(1, true, true);
    let report = combat_tick(&mut player, &mut enemies, &mut state, 1, 0);
    assert_eq!(report.enemy_hit, None);
    assert_eq!(state.opponent, None);
    assert!(player.location.can_move);
    assert!(!player.combat.is_in_combat);
    assert_eq!(enemies.len(), 1);
}
