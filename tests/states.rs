use bomberman::bomb::{bomb_trigger, space_to_set_bomb};
use bomberman::grid::Pos;
use bomberman::portal::portal_player_collision;
use bomberman::state::{
    pause_enter, pause_exit, AppState, AppStatePluge, GameState, GameStatePlugin, Hook, RunState,
    StateError,
};
use bomberman::world::World;

fn playing_world() -> World {
    let mut w = World::new();
    w.spawn_player(Pos { x: 0, y: 0 }, 1, 1, 1).unwrap();
    w.spawn_creature().unwrap();
    w.add_animation(200);
    space_to_set_bomb(&mut w, true);
    bomb_trigger(&mut w, 1000);
    w
}

#[test]
fn pause_round_trip_keeps_timers() {
    let mut w = playing_world();
    w.animations[0].tick(50);
    let before: Vec<u64> = w.bombs.iter().map(|b| b.timer.remaining()).collect();
    pause_enter(&mut w);
    assert!(w.players[0].stopped);
    assert!(w.creatures[0].stopped);
    assert!(w.bombs[0].timer.paused && w.animations[0].paused);
    pause_exit(&mut w);
    let after: Vec<u64> = w.bombs.iter().map(|b| b.timer.remaining()).collect();
    assert_eq!(before, after);
    assert_eq!(before, vec![2000]);
    assert_eq!(w.animations[0].remaining(), 150);
    assert!(!w.players[0].stopped && !w.creatures[0].stopped);
    assert!(!w.bombs[0].timer.paused && !w.animations[0].paused);
}

#[test]
fn paused_world_does_not_detonate() {
    let mut w = playing_world();
    pause_enter(&mut w);
    bomb_trigger(&mut w, 10000);
    assert_eq!(w.bombs.len(), 1);
    assert!(w.fires.is_empty());
    pause_exit(&mut w);
    bomb_trigger(&mut w, 2000);
    assert!(w.bombs.is_empty());
}

#[test]
fn app_state_transitions() {
    let mut w = playing_world();
    let mut app = AppStatePluge::new();
    assert_eq!(app.state, AppState::StartMenu);
    assert_eq!(app.set_next(&mut w, AppState::StartMenu).unwrap_err(), StateError::AlreadyInState);
    let hooks = app.set_next(&mut w, AppState::Game).unwrap();
    assert_eq!(hooks, vec![Hook::DespawnUi, Hook::SetupMap]);
    assert_eq!(app.state, AppState::Game);
    assert_eq!(w.bombs.len(), 1);
    let next = w.next_entity;
    let hooks = app.set_next(&mut w, AppState::Temporary).unwrap();
    assert_eq!(hooks, vec![Hook::DespawnInGame, Hook::SetupMap]);
    assert_eq!(app.state, AppState::Game);
    assert!(w.bombs.is_empty() && w.players.is_empty());
    assert_eq!(w.next_entity, next);
    let hooks = app.set_next(&mut w, AppState::StartMenu).unwrap();
    assert_eq!(hooks, vec![Hook::DespawnInGame, Hook::ShowStartMenu]);
}

#[test]
fn game_state_pause_and_resume() {
    let mut w = playing_world();
    let mut g = GameStatePlugin::new();
    assert_eq!(g.state, GameState::Invalid);
    assert_eq!(g.set_next(&mut w, GameState::Game).unwrap(), vec![]);
    assert_eq!(g.set_next(&mut w, GameState::Pause).unwrap(), vec![Hook::ShowPauseMenu]);
    assert!(w.bombs[0].timer.paused);
    assert_eq!(g.set_next(&mut w, GameState::Pause).unwrap_err(), StateError::AlreadyInState);
    assert_eq!(g.set_next(&mut w, GameState::Game).unwrap(), vec![Hook::DespawnGameUi]);
    assert!(!w.bombs[0].timer.paused);
    assert_eq!(w.bombs[0].timer.remaining(), 2000);
}

#[test]
fn portal_wins_the_game() {
    let mut w = World::new();
    let id = w.spawn_player(Pos { x: 0, y: 0 }, 1, 1, 1).unwrap();
    w.spawn_portal(Pos { x: 40, y: 0 });
    portal_player_collision(&mut w);
    assert!(w.victory_events.is_empty());
    w.move_player(id, Pos { x: 20, y: 10 });
    portal_player_collision(&mut w);
    assert_eq!(w.victory_events, vec![id]);
    assert!(w.players[0].stopped);
    let mut g = GameStatePlugin::new();
    g.set_next(&mut w, GameState::Game).unwrap();
    assert_eq!(g.handle_events(&mut w), vec![Hook::ShowVictoryMenu]);
    assert_eq!(g.state, GameState::Victory);
    assert!(w.victory_events.is_empty());
}

#[test]
fn game_over_beats_victory() {
    let mut w = World::new();
    let mut g = GameStatePlugin::new();
    g.set_next(&mut w, GameState::Game).unwrap();
    w.victory_events.push(1);
    w.game_over_events.push(2);
    assert_eq!(g.handle_events(&mut w), vec![Hook::ShowGameOverMenu]);
    assert_eq!(g.state, GameState::GameOver);
    assert_eq!(g.set_next(&mut w, GameState::Game).unwrap(), vec![Hook::DespawnGameUi]);
}

#[test]
fn run_state_starts_empty() {
    let r = RunState::new();
    assert!(r.player.is_none());
    assert!(r.level.is_none());
}
