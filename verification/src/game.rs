//! The game's state machine and the reading of the movement keys: which screen is
//! up, how many times the target was hit, whether the world is inverted, and what a
//! frame's input does to all of that.
use vstd::prelude::*;

verus! {

/// The screens of the game.
#[derive(Clone, Copy, PartialEq, Eq, Structural, Debug)]
pub enum GameState {
    /// The title screen, waiting for Enter or Space.
    Welcome,
    /// The level is being played.
    Playing,
    /// The goal was reached; waiting for R to play again.
    LevelComplete,
}

/// What one frame of input amounted to.
#[derive(Clone, Copy, PartialEq, Eq, Structural, Debug)]
pub struct FrameInput {
    /// Enter or Space is held.
    pub start_pressed: bool,
    /// A shot was fired this frame and hit the target (only looked at while playing).
    pub shot_landed: bool,
    /// The player stands within reach of the goal point (only looked at while playing).
    pub goal_reached: bool,
    /// R is held.
    pub restart_pressed: bool,
}

/// What the frame loop must do besides updating the session.
#[derive(Clone, Copy, PartialEq, Eq, Structural, Debug)]
pub enum FrameAction {
    /// Nothing more.
    Nothing,
    /// Play starts: forget the last mouse position so the view does not jump.
    BeginPlay,
    /// The level restarts: put the player back on the spawn point, facing angle 0.
    Respawn,
}

/// The state the game keeps from frame to frame.
#[derive(Clone, Copy, PartialEq, Eq, Structural, Debug)]
pub struct Session {
    pub state: GameState,
    /// Hits on the target since the level (re)started.
    pub hits: u32,
    /// Whether the world is inverted: colours negated and controls reversed.
    pub inverted: bool,
}

/// The session before the first frame.
pub open spec fn spec_initial() -> Session {
    Session { state: GameState::Welcome, hits: 0, inverted: false }
}

/// One frame of the game: on the title screen, Enter or Space starts play; while
/// playing, a landed shot counts a hit and toggles the inverted world, and then
/// reaching the goal completes the level; on the completion screen, R restarts the
/// level with no hits and the normal world.
pub open spec fn spec_step(s: Session, input: FrameInput) -> (Session, FrameAction) {
    match s.state {
        GameState::Welcome => {
            if input.start_pressed {
                (Session { state: GameState::Playing, ..s }, FrameAction::BeginPlay)
            } else {
                (s, FrameAction::Nothing)
            }
        },
        GameState::Playing => {
            let after_shot = if input.shot_landed {
                Session { hits: (s.hits + 1) as u32, inverted: !s.inverted, ..s }
            } else {
                s
            };
            if input.goal_reached {
                (Session { state: GameState::LevelComplete, ..after_shot }, FrameAction::Nothing)
            } else {
                (after_shot, FrameAction::Nothing)
            }
        },
        GameState::LevelComplete => {
            if input.restart_pressed {
                (
                    Session { state: GameState::Playing, hits: 0, inverted: false },
                    FrameAction::Respawn,
                )
            } else {
                (s, FrameAction::Nothing)
            }
        },
    }
}

/// Whether `spec_step` needs no more than a `u32` to count the hits.
pub open spec fn step_fits(s: Session, input: FrameInput) -> bool {
    s.state == GameState::Playing && input.shot_landed ==> s.hits < u32::MAX
}

impl Session {
    /// The title screen, with no hits and the normal world.
    pub fn new() -> (s: Session)
        ensures
            s == spec_initial(),
    {
        Session { state: GameState::Welcome, hits: 0, inverted: false }
    }

    /// Advances the session by one frame (see `spec_step`).
    pub fn step(self, input: FrameInput) -> (r: (Session, FrameAction))
        requires
            step_fits(self, input),
        ensures
            r == spec_step(self, input),
            self.state == GameState::Welcome && input.start_pressed ==> r == (
                Session { state: GameState::Playing, hits: self.hits, inverted: self.inverted },
                FrameAction::BeginPlay,
            ),
            self.state == GameState::Welcome && !input.start_pressed ==> r == (
                self,
                FrameAction::Nothing,
            ),
            self.state == GameState::Playing && input.goal_reached ==> r.0.state
                == GameState::LevelComplete,
            self.state == GameState::Playing && !input.goal_reached ==> r.0.state
                == GameState::Playing,
            self.state == GameState::Playing ==> r.0.hits == self.hits + (if input.shot_landed {
                1int
            } else {
                0int
            }),
            self.state == GameState::Playing ==> r.0.inverted == (self.inverted != input.shot_landed),
            self.state == GameState::Playing ==> r.1 == FrameAction::Nothing,
            self.state == GameState::LevelComplete && input.restart_pressed ==> r == (
                Session { state: GameState::Playing, hits: 0, inverted: false },
                FrameAction::Respawn,
            ),
            self.state == GameState::LevelComplete && !input.restart_pressed ==> r == (
                self,
                FrameAction::Nothing,
            ),
    {
        match self.state {
            GameState::Welcome => {
                if input.start_pressed {
                    (Session { state: GameState::Playing, ..self }, FrameAction::BeginPlay)
                } else {
                    (self, FrameAction::Nothing)
                }
            },
            GameState::Playing => {
                let mut next = self;
                if input.shot_landed {
                    next.hits = self.hits + 1;
                    next.inverted = !self.inverted;
                }
                if input.goal_reached {
                    next.state = GameState::LevelComplete;
                }
                (next, FrameAction::Nothing)
            },
            GameState::LevelComplete => {
                if input.restart_pressed {
                    (
                        Session { state: GameState::Playing, hits: 0, inverted: false },
                        FrameAction::Respawn,
                    )
                } else {
                    (self, FrameAction::Nothing)
                }
            },
        }
    }
}

/// Each landed shot toggles the inverted world: two frames in which a shot lands,
/// with the goal not reached, leave the world as it was and count two hits.
pub proof fn lemma_two_hits_restore_world(s: Session, a: FrameInput, b: FrameInput)
    requires
        s.state == GameState::Playing,
        s.hits + 2 <= u32::MAX,
        a.shot_landed,
        b.shot_landed,
        !a.goal_reached,
        !b.goal_reached,
    ensures
        spec_step(spec_step(s, a).0, b).0.inverted == s.inverted,
        spec_step(spec_step(s, a).0, b).0.hits == s.hits + 2,
        spec_step(spec_step(s, a).0, b).0.state == GameState::Playing,
{
}

/// While playing, a frame that reaches the goal always completes the level, whether
/// or not a shot lands in it; a frame that does not reach it keeps the level in play.
pub proof fn lemma_goal_completes_level(s: Session, input: FrameInput)
    requires
        s.state == GameState::Playing,
    ensures
        input.goal_reached ==> spec_step(s, input).0.state == GameState::LevelComplete,
        !input.goal_reached ==> spec_step(s, input).0.state == GameState::Playing,
        spec_step(s, input).1 == FrameAction::Nothing,
{
}

/// Outside of play, shots change nothing: the hit count and the inverted world
/// only change while playing, or by a restart.
pub proof fn lemma_shots_count_only_in_play(s: Session, input: FrameInput)
    requires
        s.state != GameState::Playing,
        !(s.state == GameState::LevelComplete && input.restart_pressed),
    ensures
        spec_step(s, input).0.hits == s.hits,
        spec_step(s, input).0.inverted == s.inverted,
{
}

/// A restart from the completion screen always gives a fresh level: playing, no
/// hits, the normal world, and the player sent back to the spawn point.
pub proof fn lemma_restart_resets(s: Session, input: FrameInput)
    requires
        s.state == GameState::LevelComplete,
        input.restart_pressed,
    ensures
        spec_step(s, input) == (
            Session { state: GameState::Playing, hits: 0, inverted: false },
            FrameAction::Respawn,
        ),
{
}

/// The completion screen is only ever entered from play, on a frame that reached the goal.
pub proof fn lemma_complete_only_by_goal(s: Session, input: FrameInput)
    requires
        s.state != GameState::LevelComplete,
        spec_step(s, input).0.state == GameState::LevelComplete,
    ensures
        s.state == GameState::Playing,
        input.goal_reached,
{
}

/// The hit count never goes down, except when the level restarts.
pub proof fn lemma_hits_monotone(s: Session, input: FrameInput)
    requires
        step_fits(s, input),
        spec_step(s, input).1 != FrameAction::Respawn,
    ensures
        spec_step(s, input).0.hits >= s.hits,
{
}

/// The movement keys held in a frame.
#[derive(Clone, Copy, PartialEq, Eq, Structural, Debug)]
pub struct MoveKeys {
    /// W or the up arrow.
    pub forward: bool,
    /// S or the down arrow.
    pub back: bool,
    /// A.
    pub strafe_left: bool,
    /// D.
    pub strafe_right: bool,
    /// The left arrow.
    pub turn_left: bool,
    /// The right arrow.
    pub turn_right: bool,
}

/// What the keys ask for, each in -1, 0 or 1: `forward` along the view direction,
/// `strafe` to the right of it, `turn` clockwise (towards growing angle).
#[derive(Clone, Copy, PartialEq, Eq, Structural, Debug)]
pub struct MoveIntent {
    pub forward: i32,
    pub strafe: i32,
    pub turn: i32,
}

/// `1` for a held key, `0` otherwise.
pub open spec fn key_value(b: bool) -> int {
    if b {
        1
    } else {
        0
    }
}

/// `d`, reversed in the inverted world.
pub open spec fn oriented(d: int, inverted: bool) -> int {
    if inverted {
        -d
    } else {
        d
    }
}

/// The intent of the keys; in the inverted world every direction is reversed.
pub open spec fn spec_intent(keys: MoveKeys, inverted: bool) -> MoveIntent {
    MoveIntent {
        forward: oriented(key_value(keys.forward) - key_value(keys.back), inverted) as i32,
        strafe: oriented(key_value(keys.strafe_right) - key_value(keys.strafe_left), inverted) as i32,
        turn: oriented(key_value(keys.turn_right) - key_value(keys.turn_left), inverted) as i32,
    }
}

/// Reads the movement keys: forward minus back, right strafe minus left strafe,
/// right turn minus left turn, all reversed in the inverted world.
pub fn move_intent(keys: MoveKeys, inverted: bool) -> (m: MoveIntent)
    ensures
        m == spec_intent(keys, inverted),
        m.forward == (if keys.forward == keys.back {
            0i32
        } else if keys.forward != inverted {
            1i32
        } else {
            -1i32
        }),
        m.strafe == (if keys.strafe_right == keys.strafe_left {
            0i32
        } else if keys.strafe_right != inverted {
            1i32
        } else {
            -1i32
        }),
        m.turn == (if keys.turn_right == keys.turn_left {
            0i32
        } else if keys.turn_right != inverted {
            1i32
        } else {
            -1i32
        }),
{
    let forward: i32 = (if keys.forward {
        1i32
    } else {
        0i32
    }) - (if keys.back {
        1i32
    } else {
        0i32
    });
    let strafe: i32 = (if keys.strafe_right {
        1i32
    } else {
        0i32
    }) - (if keys.strafe_left {
        1i32
    } else {
        0i32
    });
    let turn: i32 = (if keys.turn_right {
        1i32
    } else {
        0i32
    }) - (if keys.turn_left {
        1i32
    } else {
        0i32
    });
    if inverted {
        MoveIntent { forward: -forward, strafe: -strafe, turn: -turn }
    } else {
        MoveIntent { forward, strafe, turn }
    }
}

/// Each axis of the intent is read from its own pair of keys alone: the turn from
/// the arrow keys, the strafe from A and D, the movement from forward and back.
/// Keys of another axis change nothing of it.
pub proof fn lemma_intent_axes_independent(a: MoveKeys, b: MoveKeys, inverted: bool)
    ensures
        a.turn_left == b.turn_left && a.turn_right == b.turn_right ==> spec_intent(a, inverted).turn
            == spec_intent(b, inverted).turn,
        a.strafe_left == b.strafe_left && a.strafe_right == b.strafe_right ==> spec_intent(
            a,
            inverted,
        ).strafe == spec_intent(b, inverted).strafe,
        a.forward == b.forward && a.back == b.back ==> spec_intent(a, inverted).forward
            == spec_intent(b, inverted).forward,
        !a.turn_left && !a.turn_right ==> spec_intent(a, inverted).turn == 0,
{
}

/// Hitting the target reverses the controls: in the inverted world every key asks
/// for the opposite of what it asks for in the normal one.
pub proof fn lemma_inverted_controls_reverse(keys: MoveKeys)
    ensures
        spec_intent(keys, true).forward == -spec_intent(keys, false).forward,
        spec_intent(keys, true).strafe == -spec_intent(keys, false).strafe,
        spec_intent(keys, true).turn == -spec_intent(keys, false).turn,
{
}

} // verus!
