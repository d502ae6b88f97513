//! The application and game state machines, and pausing every timer of the
//! world while the game is paused.
use vstd::prelude::*;
use crate::timer::Timer;
use crate::world::{Bomb, Creature, Fire, Player, World};

verus! {

/// Top-level state: the start menu, a running game, or the passage that
/// restarts a game.
#[derive(Clone, Copy, Debug, PartialEq, Eq, Structural)]
pub enum AppState {
    StartMenu,
    Game,
    Temporary,
}

/// State of a running game.
#[derive(Clone, Copy, Debug, PartialEq, Eq, Structural)]
pub enum GameState {
    Invalid,
    Game,
    Pause,
    GameOver,
    Victory,
}

/// A request to move into the state the machine is in already.
#[derive(Clone, Copy, Debug, PartialEq, Eq, Structural)]
pub enum StateError {
    AlreadyInState,
}

/// Work a transition hands to the presentation side, in the order it is due.
#[derive(Clone, Copy, Debug, PartialEq, Eq, Structural)]
pub enum Hook {
    ShowStartMenu,
    /// Despawn the menu entities.
    DespawnUi,
    /// Load the level into the world.
    SetupMap,
    /// Despawn every presentation entity of the finished game.
    DespawnInGame,
    ShowPauseMenu,
    /// Despawn the in-game menu and switch physics back on.
    DespawnGameUi,
    ShowGameOverMenu,
    ShowVictoryMenu,
}

/// `b` is `a` with every player and creature stopped (or released) and every
/// bomb, fire and animation timer paused (or resumed), as `paused` says.
pub open spec fn with_pause(a: World, b: World, paused: bool) -> bool {
    &&& b.players@ == a.players@.map_values(|p: Player| Player { stopped: paused, ..p })
    &&& b.creatures@ == a.creatures@.map_values(|c: Creature| Creature { stopped: paused, ..c })
    &&& b.bombs@ == a.bombs@.map_values(|x: Bomb| Bomb { timer: x.timer.with_pause(paused), ..x })
    &&& b.fires@ == a.fires@.map_values(|f: Fire| Fire { timer: f.timer.with_pause(paused), ..f })
    &&& b.animations@ == a.animations@.map_values(|t: Timer| t.with_pause(paused))
    &&& b.walls@ == a.walls@
    &&& b.destructibles@ == a.destructibles@
    &&& b.buffs@ == a.buffs@
    &&& b.portals@ == a.portals@
    &&& b.recovery_events@ == a.recovery_events@
    &&& b.game_over_events@ == a.game_over_events@
    &&& b.victory_events@ == a.victory_events@
    &&& b.next_entity == a.next_entity
}

fn stop_players(ps: &mut Vec<Player>, paused: bool)
    ensures
        final(ps)@ == old(ps)@.map_values(|p: Player| Player { stopped: paused, ..p }),
{
    let ghost target = old(ps)@.map_values(|p: Player| Player { stopped: paused, ..p });
    let mut i: usize = 0;
    while i < ps.len()
        invariant
            i <= ps@.len(),
            ps@.len() == old(ps)@.len(),
            target == old(ps)@.map_values(|p: Player| Player { stopped: paused, ..p }),
            forall|k: int| 0 <= k < i ==> #[trigger] ps@[k] == target[k],
            forall|k: int| i <= k < ps@.len() ==> #[trigger] ps@[k] == old(ps)@[k],
        decreases ps@.len() - i,
    {
        let p = ps[i];
        ps.set(i, Player { stopped: paused, ..p });
        i = i + 1;
    }
    assert(ps@ =~= target);
}

fn stop_creatures(cs: &mut Vec<Creature>, paused: bool)
    ensures
        final(cs)@ == old(cs)@.map_values(|c: Creature| Creature { stopped: paused, ..c }),
{
    let ghost target = old(cs)@.map_values(|c: Creature| Creature { stopped: paused, ..c });
    let mut i: usize = 0;
    while i < cs.len()
        invariant
            i <= cs@.len(),
            cs@.len() == old(cs)@.len(),
            target == old(cs)@.map_values(|c: Creature| Creature { stopped: paused, ..c }),
            forall|k: int| 0 <= k < i ==> #[trigger] cs@[k] == target[k],
            forall|k: int| i <= k < cs@.len() ==> #[trigger] cs@[k] == old(cs)@[k],
        decreases cs@.len() - i,
    {
        let c = cs[i];
        cs.set(i, Creature { stopped: paused, ..c });
        i = i + 1;
    }
    assert(cs@ =~= target);
}

fn pause_bombs(bs: &mut Vec<Bomb>, paused: bool)
    ensures
        final(bs)@ == old(bs)@.map_values(|x: Bomb| Bomb { timer: x.timer.with_pause(paused), ..x }),
{
    let ghost target = old(bs)@.map_values(|x: Bomb| Bomb { timer: x.timer.with_pause(paused), ..x });
    let mut i: usize = 0;
    while i < bs.len()
        invariant
            i <= bs@.len(),
            bs@.len() == old(bs)@.len(),
            target == old(bs)@.map_values(|x: Bomb| Bomb { timer: x.timer.with_pause(paused), ..x }),
            forall|k: int| 0 <= k < i ==> #[trigger] bs@[k] == target[k],
            forall|k: int| i <= k < bs@.len() ==> #[trigger] bs@[k] == old(bs)@[k],
        decreases bs@.len() - i,
    {
        let b = bs[i];
        let mut t = b.timer;
        if paused {
            t.pause();
        } else {
            t.unpause();
        }
        bs.set(i, Bomb { timer: t, ..b });
        i = i + 1;
    }
    assert(bs@ =~= target);
}

fn pause_fires(fs: &mut Vec<Fire>, paused: bool)
    ensures
        final(fs)@ == old(fs)@.map_values(|f: Fire| Fire { timer: f.timer.with_pause(paused), ..f }),
{
    let ghost target = old(fs)@.map_values(|f: Fire| Fire { timer: f.timer.with_pause(paused), ..f });
    let mut i: usize = 0;
    while i < fs.len()
        invariant
            i <= fs@.len(),
            fs@.len() == old(fs)@.len(),
            target == old(fs)@.map_values(|f: Fire| Fire { timer: f.timer.with_pause(paused), ..f }),
            forall|k: int| 0 <= k < i ==> #[trigger] fs@[k] == target[k],
            forall|k: int| i <= k < fs@.len() ==> #[trigger] fs@[k] == old(fs)@[k],
        decreases fs@.len() - i,
    {
        let f = fs[i];
        let mut t = f.timer;
        if paused {
            t.pause();
        } else {
            t.unpause();
        }
        fs.set(i, Fire { timer: t, ..f });
        i = i + 1;
    }
    assert(fs@ =~= target);
}

fn pause_timers(ts: &mut Vec<Timer>, paused: bool)
    ensures
        final(ts)@ == old(ts)@.map_values(|t: Timer| t.with_pause(paused)),
{
    let ghost target = old(ts)@.map_values(|t: Timer| t.with_pause(paused));
    let mut i: usize = 0;
    while i < ts.len()
        invariant
            i <= ts@.len(),
            ts@.len() == old(ts)@.len(),
            target == old(ts)@.map_values(|t: Timer| t.with_pause(paused)),
            forall|k: int| 0 <= k < i ==> #[trigger] ts@[k] == target[k],
            forall|k: int| i <= k < ts@.len() ==> #[trigger] ts@[k] == old(ts)@[k],
        decreases ts@.len() - i,
    {
        let mut t = ts[i];
        if paused {
            t.pause();
        } else {
            t.unpause();
        }
        ts.set(i, t);
        i = i + 1;
    }
    assert(ts@ =~= target);
}

proof fn lemma_with_pause_wf(a: World, b: World, paused: bool)
    requires
        a.wf(),
        with_pause(a, b, paused),
    ensures
        b.wf(),
{
    assert forall|i: int| 0 <= i < b.players@.len() implies (#[trigger] b.players@[i]).wf()
        && b.players@[i].entity < b.next_entity by {
        assert(a.players@[i].wf());
    }
    assert forall|i: int, j: int| 0 <= i < b.players@.len() && 0 <= j < b.players@.len() && i != j
        implies b.players@[i].entity != b.players@[j].entity by {
        assert(a.players@[i].entity != a.players@[j].entity);
    }
    assert forall|i: int| 0 <= i < b.bombs@.len() implies (#[trigger] b.bombs@[i]).wf() by {
        assert(a.bombs@[i].wf());
    }
    assert forall|i: int, j: int| 0 <= i < b.bombs@.len() && 0 <= j < b.bombs@.len() && i != j
        implies b.bombs@[i].pos != b.bombs@[j].pos by {
        assert(a.bombs@[i].pos != a.bombs@[j].pos);
    }
    assert forall|i: int| 0 <= i < b.fires@.len() implies (#[trigger] b.fires@[i]).timer.wf() by {
        assert(a.fires@[i].timer.wf());
    }
    assert forall|i: int| 0 <= i < b.animations@.len() implies (#[trigger] b.animations@[i]).wf() by {
        assert(a.animations@[i].wf());
    }
}

/// Stops every player and creature and pauses every bomb, fire and animation timer.
pub fn pause_enter(world: &mut World)
    requires
        old(world).wf(),
    ensures
        final(world).wf(),
        with_pause(*old(world), *final(world), true),
{
    stop_players(&mut world.players, true);
    stop_creatures(&mut world.creatures, true);
    pause_timers(&mut world.animations, true);
    pause_bombs(&mut world.bombs, true);
    pause_fires(&mut world.fires, true);
    proof { lemma_with_pause_wf(*old(world), *world, true); }
}

/// Releases every stopped player and creature and resumes every bomb, fire and
/// animation timer.
pub fn pause_exit(world: &mut World)
    requires
        old(world).wf(),
    ensures
        final(world).wf(),
        with_pause(*old(world), *final(world), false),
{
    stop_players(&mut world.players, false);
    stop_creatures(&mut world.creatures, false);
    pause_timers(&mut world.animations, false);
    pause_bombs(&mut world.bombs, false);
    pause_fires(&mut world.fires, false);
    proof { lemma_with_pause_wf(*old(world), *world, false); }
}

/// What leaving application state `s` hands to the presentation side.
pub open spec fn app_exit_hooks(s: AppState) -> Seq<Hook> {
    match s {
        AppState::StartMenu => seq![Hook::DespawnUi],
        AppState::Game => seq![Hook::DespawnInGame],
        AppState::Temporary => Seq::empty(),
    }
}

/// What entering application state `s` hands to the presentation side. The
/// passage state goes on into a game at once, so it sets up the map.
pub open spec fn app_enter_hooks(s: AppState) -> Seq<Hook> {
    match s {
        AppState::StartMenu => seq![Hook::ShowStartMenu],
        AppState::Game => seq![Hook::SetupMap],
        AppState::Temporary => seq![Hook::SetupMap],
    }
}

/// Where a request for application state `s` comes to rest.
pub open spec fn app_landing(s: AppState) -> AppState {
    match s {
        AppState::Temporary => AppState::Game,
        _ => s,
    }
}

/// Pausing and at once resuming leaves every bomb, fire and animation timer
/// with the same duration and elapsed time, hence the same time remaining.
pub proof fn lemma_pause_round_trip(w0: World, w1: World, w2: World)
    requires
        with_pause(w0, w1, true),
        with_pause(w1, w2, false),
    ensures
        w2.bombs@.len() == w0.bombs@.len(),
        forall|i: int| 0 <= i < w0.bombs@.len() ==> (#[trigger] w2.bombs@[i]).timer.remaining_spec()
            == w0.bombs@[i].timer.remaining_spec() && w2.bombs@[i].timer.elapsed == w0.bombs@[i].timer.elapsed
            && w2.bombs@[i].timer.duration == w0.bombs@[i].timer.duration,
        w2.fires@.len() == w0.fires@.len(),
        forall|i: int| 0 <= i < w0.fires@.len() ==> (#[trigger] w2.fires@[i]).timer.remaining_spec()
            == w0.fires@[i].timer.remaining_spec() && w2.fires@[i].timer.elapsed == w0.fires@[i].timer.elapsed
            && w2.fires@[i].timer.duration == w0.fires@[i].timer.duration,
        w2.animations@.len() == w0.animations@.len(),
        forall|i: int| 0 <= i < w0.animations@.len() ==> (#[trigger] w2.animations@[i]).remaining_spec()
            == w0.animations@[i].remaining_spec() && w2.animations@[i].elapsed == w0.animations@[i].elapsed
            && w2.animations@[i].duration == w0.animations@[i].duration,
{
    assert forall|i: int| 0 <= i < w0.bombs@.len() implies (#[trigger] w2.bombs@[i]).timer.remaining_spec()
        == w0.bombs@[i].timer.remaining_spec() && w2.bombs@[i].timer.elapsed == w0.bombs@[i].timer.elapsed
        && w2.bombs@[i].timer.duration == w0.bombs@[i].timer.duration by {
        assert(w1.bombs@[i].timer.elapsed == w0.bombs@[i].timer.elapsed);
    }
    assert forall|i: int| 0 <= i < w0.fires@.len() implies (#[trigger] w2.fires@[i]).timer.remaining_spec()
        == w0.fires@[i].timer.remaining_spec() && w2.fires@[i].timer.elapsed == w0.fires@[i].timer.elapsed
        && w2.fires@[i].timer.duration == w0.fires@[i].timer.duration by {
        assert(w1.fires@[i].timer.elapsed == w0.fires@[i].timer.elapsed);
    }
    assert forall|i: int| 0 <= i < w0.animations@.len() implies (#[trigger] w2.animations@[i]).remaining_spec()
        == w0.animations@[i].remaining_spec() && w2.animations@[i].elapsed == w0.animations@[i].elapsed
        && w2.animations@[i].duration == w0.animations@[i].duration by {
        assert(w1.animations@[i].elapsed == w0.animations@[i].elapsed);
    }
}

/// The application-level state machine.
pub struct AppStatePluge {
    pub state: AppState,
}

impl AppStatePluge {
    pub fn new() -> (r: AppStatePluge)
        ensures
            r.state == AppState::StartMenu,
    {
        AppStatePluge { state: AppState::StartMenu }
    }

    /// Moves to `next`: runs the exit hooks of the current state, then the
    /// enter hooks of `next`. Leaving a game despawns every entity of the world.
    /// A request for the current state is refused and changes nothing.
    pub fn set_next(&mut self, world: &mut World, next: AppState) -> (r: Result<Vec<Hook>, StateError>)
        requires
            old(world).wf(),
        ensures
            final(world).wf(),
            next == old(self).state ==> r == Err::<Vec<Hook>, StateError>(StateError::AlreadyInState)
                && final(self).state == old(self).state && *final(world) == *old(world),
            next != old(self).state ==> r.is_ok()
                && r.unwrap()@ == app_exit_hooks(old(self).state) + app_enter_hooks(next)
                && final(self).state == app_landing(next),
            next != old(self).state && old(self).state == AppState::Game ==> final(world).is_empty()
                && final(world).next_entity == old(world).next_entity,
            next != old(self).state && old(self).state != AppState::Game ==> *final(world) == *old(world),
    {
        if next == self.state {
            return Err(StateError::AlreadyInState);
        }
        let mut hooks: Vec<Hook> = Vec::new();
        match self.state {
            AppState::StartMenu => {
                hooks.push(Hook::DespawnUi);
            },
            AppState::Game => {
                hooks.push(Hook::DespawnInGame);
                world.clear();
            },
            AppState::Temporary => {},
        }
        match next {
            AppState::StartMenu => {
                hooks.push(Hook::ShowStartMenu);
                self.state = AppState::StartMenu;
            },
            AppState::Game => {
                hooks.push(Hook::SetupMap);
                self.state = AppState::Game;
            },
            AppState::Temporary => {
                hooks.push(Hook::SetupMap);
                self.state = AppState::Game;
            },
        }
        assert(hooks@ =~= app_exit_hooks(old(self).state) + app_enter_hooks(next));
        Ok(hooks)
    }
}

/// What leaving game state `s` hands to the presentation side.
pub open spec fn game_exit_hooks(s: GameState) -> Seq<Hook> {
    match s {
        GameState::Pause | GameState::GameOver | GameState::Victory => seq![Hook::DespawnGameUi],
        _ => Seq::empty(),
    }
}

/// What entering game state `s` hands to the presentation side.
pub open spec fn game_enter_hooks(s: GameState) -> Seq<Hook> {
    match s {
        GameState::Pause => seq![Hook::ShowPauseMenu],
        GameState::GameOver => seq![Hook::ShowGameOverMenu],
        GameState::Victory => seq![Hook::ShowVictoryMenu],
        _ => Seq::empty(),
    }
}

/// The game-level state machine.
pub struct GameStatePlugin {
    pub state: GameState,
}

impl GameStatePlugin {
    pub fn new() -> (r: GameStatePlugin)
        ensures
            r.state == GameState::Invalid,
    {
        GameStatePlugin { state: GameState::Invalid }
    }

    /// Moves to `next`: runs the exit hooks of the current state, then the
    /// enter hooks of `next`. Entering the pause stops the world, leaving it
    /// starts the world again. A request for the current state is refused and
    /// changes nothing.
    pub fn set_next(&mut self, world: &mut World, next: GameState) -> (r: Result<Vec<Hook>, StateError>)
        requires
            old(world).wf(),
        ensures
            final(world).wf(),
            next == old(self).state ==> r == Err::<Vec<Hook>, StateError>(StateError::AlreadyInState)
                && final(self).state == old(self).state && *final(world) == *old(world),
            next != old(self).state ==> r.is_ok()
                && r.unwrap()@ == game_exit_hooks(old(self).state) + game_enter_hooks(next)
                && final(self).state == next,
            next != old(self).state && old(self).state == GameState::Pause
                ==> with_pause(*old(world), *final(world), false),
            next != old(self).state && next == GameState::Pause
                ==> with_pause(*old(world), *final(world), true),
            next != old(self).state && old(self).state != GameState::Pause && next != GameState::Pause
                ==> *final(world) == *old(world),
    {
        if next == self.state {
            return Err(StateError::AlreadyInState);
        }
        let mut hooks: Vec<Hook> = Vec::new();
        match self.state {
            GameState::Pause => {
                hooks.push(Hook::DespawnGameUi);
                pause_exit(world);
            },
            GameState::GameOver | GameState::Victory => {
                hooks.push(Hook::DespawnGameUi);
            },
            _ => {},
        }
        match next {
            GameState::Pause => {
                hooks.push(Hook::ShowPauseMenu);
                pause_enter(world);
            },
            GameState::GameOver => {
                hooks.push(Hook::ShowGameOverMenu);
            },
            GameState::Victory => {
                hooks.push(Hook::ShowVictoryMenu);
            },
            _ => {},
        }
        self.state = next;
        assert(hooks@ =~= game_exit_hooks(old(self).state) + game_enter_hooks(next));
        Ok(hooks)
    }
}

impl GameStatePlugin {
    /// Consumes the pending game-over and victory events. During play, a
    /// game-over event ends the game, and otherwise a victory event wins it;
    /// in any other state the events are dropped.
    pub fn handle_events(&mut self, world: &mut World) -> (r: Vec<Hook>)
        requires
            old(world).wf(),
        ensures
            final(world).wf(),
            final(world).game_over_events@.len() == 0,
            final(world).victory_events@.len() == 0,
            ({
                let over = old(world).game_over_events@.len() > 0;
                let won = old(world).victory_events@.len() > 0;
                if old(self).state == GameState::Game && over {
                    final(self).state == GameState::GameOver && r@ == game_enter_hooks(GameState::GameOver)
                } else if old(self).state == GameState::Game && won {
                    final(self).state == GameState::Victory && r@ == game_enter_hooks(GameState::Victory)
                } else {
                    final(self).state == old(self).state && r@.len() == 0
                }
            }),
            final(world).players@ == old(world).players@,
            final(world).bombs@ == old(world).bombs@,
            final(world).fires@ == old(world).fires@,
            final(world).walls@ == old(world).walls@,
            final(world).destructibles@ == old(world).destructibles@,
            final(world).buffs@ == old(world).buffs@,
            final(world).portals@ == old(world).portals@,
            final(world).creatures@ == old(world).creatures@,
            final(world).animations@ == old(world).animations@,
            final(world).recovery_events@ == old(world).recovery_events@,
            final(world).next_entity == old(world).next_entity,
    {
        let over = world.game_over_events.len() > 0;
        let won = world.victory_events.len() > 0;
        world.game_over_events = Vec::new();
        world.victory_events = Vec::new();
        let mut hooks: Vec<Hook> = Vec::new();
        if self.state == GameState::Game {
            if over {
                hooks.push(Hook::ShowGameOverMenu);
                self.state = GameState::GameOver;
                assert(hooks@ =~= game_enter_hooks(GameState::GameOver));
            } else if won {
                hooks.push(Hook::ShowVictoryMenu);
                self.state = GameState::Victory;
                assert(hooks@ =~= game_enter_hooks(GameState::Victory));
            }
        }
        hooks
    }
}

/// What a run carries between levels.
pub struct RunState {
    pub player: Option<u64>,
    pub level: Option<i32>,
}

impl RunState {
    pub fn new() -> (r: RunState)
        ensures
            r.player.is_none(),
            r.level.is_none(),
    {
        RunState { player: None, level: None }
    }
}

} // verus!
