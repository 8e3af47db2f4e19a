use ray_caster::game::{move_intent, FrameAction, FrameInput, GameState, MoveIntent, MoveKeys, Session};

fn input(start: bool, shot: bool, goal: bool, restart: bool) -> FrameInput {
    FrameInput { start_pressed: start, shot_landed: shot, goal_reached: goal, restart_pressed: restart }
}

fn keys(f: bool, b: bool, l: bool, r: bool, tl: bool, tr: bool) -> MoveKeys {
    MoveKeys { forward: f, back: b, strafe_left: l, strafe_right: r, turn_left: tl, turn_right: tr }
}

#[test]
fn starts_on_the_title_screen() {
    let s = Session::new();
    assert_eq!(s, Session { state: GameState::Welcome, hits: 0, inverted: false });
}

#[test]
fn enter_starts_play() {
    let s = Session::new();
    let (s2, a) = s.step(input(false, true, true, true));
    assert_eq!(s2, s);
    assert_eq!(a, FrameAction::Nothing);
    let (s3, a) = s.step(input(true, false, false, false));
    assert_eq!(s3.state, GameState::Playing);
    assert_eq!(a, FrameAction::BeginPlay);
}

#[test]
fn each_hit_counts_and_toggles_the_world() {
    let s = Session { state: GameState::Playing, hits: 0, inverted: false };
    let (s, _) = s.step(input(false, true, false, false));
    assert_eq!(s, Session { state: GameState::Playing, hits: 1, inverted: true });
    let (s, _) = s.step(input(false, false, false, false));
    assert_eq!(s, Session { state: GameState::Playing, hits: 1, inverted: true });
    let (s, _) = s.step(input(false, true, false, false));
    assert_eq!(s, Session { state: GameState::Playing, hits: 2, inverted: false });
}

#[test]
fn reaching_the_goal_completes_the_level_after_the_shot() {
    let s = Session { state: GameState::Playing, hits: 4, inverted: false };
    let (s, a) = s.step(input(false, true, true, false));
    assert_eq!(s, Session { state: GameState::LevelComplete, hits: 5, inverted: true });
    assert_eq!(a, FrameAction::Nothing);
    let (s2, _) = s.step(input(true, true, false, false));
    assert_eq!(s2, s);
}

#[test]
fn restart_resets_the_level() {
    let s = Session { state: GameState::LevelComplete, hits: 9, inverted: true };
    let (s, a) = s.step(input(false, false, false, true));
    assert_eq!(s, Session { state: GameState::Playing, hits: 0, inverted: false });
    assert_eq!(a, FrameAction::Respawn);
}

#[test]
fn hits_near_the_limit() {
    let s = Session { state: GameState::Playing, hits: u32::MAX - 1, inverted: false };
    let (s, _) = s.step(input(false, true, false, false));
    assert_eq!(s.hits, u32::MAX);
    let (s2, _) = s.step(input(false, false, false, false));
    assert_eq!(s2.hits, u32::MAX);
}

#[test]
fn movement_keys_give_the_intent() {
    assert_eq!(move_intent(keys(false, false, false, false, false, false), false), MoveIntent { forward: 0, strafe: 0, turn: 0 });
    assert_eq!(move_intent(keys(true, false, false, true, false, true), false), MoveIntent { forward: 1, strafe: 1, turn: 1 });
    assert_eq!(move_intent(keys(false, true, true, false, true, false), false), MoveIntent { forward: -1, strafe: -1, turn: -1 });
    assert_eq!(move_intent(keys(true, true, true, true, true, true), false), MoveIntent { forward: 0, strafe: 0, turn: 0 });
}

#[test]
fn inverted_world_reverses_every_key() {
    for bits in 0u32..64 {
        let k = keys(bits & 1 != 0, bits & 2 != 0, bits & 4 != 0, bits & 8 != 0, bits & 16 != 0, bits & 32 != 0);
        let n = move_intent(k, false);
        let i = move_intent(k, true);
        assert_eq!(i, MoveIntent { forward: -n.forward, strafe: -n.strafe, turn: -n.turn });
    }
    assert_eq!(move_intent(keys(true, false, false, false, true, false), true), MoveIntent { forward: -1, strafe: 0, turn: 1 });
}
