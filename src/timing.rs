use vstd::prelude::*;

use crate::array::ReadError;
use crate::game_data::BetaPlayerDataManager;

verus! {

/// What the host timer's game time must do after one read of the play time.
#[derive(Debug, Clone, Copy, PartialEq, Eq, Structural)]
pub enum GameTimeAction {
    /// Nothing: the read failed.
    Keep,
    /// The play time stood still: a loading screen; pause the game time.
    Pause,
    /// The play time moves again after a pause; resume the game time.
    Resume,
    /// The play time moved; set the game time to it (bits of the seconds played).
    SetGameTime { seconds_bits: u32 },
}

/// The play time last read and whether the game time is paused.
#[derive(Debug, Clone, Copy, PartialEq, Eq, Structural)]
pub struct GameClock {
    pub previous: Option<BetaPlayerDataManager>,
    pub paused: bool,
}

/// The clock after `read`, and what the game time must do.
pub open spec fn clock_step(c: GameClock, read: Result<BetaPlayerDataManager, ReadError>) -> (GameClock, GameTimeAction) {
    match read {
        Err(_) => (c, GameTimeAction::Keep),
        Ok(p) => if c.previous == Some(p) {
            (GameClock { paused: true, ..c }, GameTimeAction::Pause)
        } else if c.paused && c.previous.is_some() {
            (GameClock { previous: Some(p), paused: false }, GameTimeAction::Resume)
        } else {
            (GameClock { previous: Some(p), ..c }, GameTimeAction::SetGameTime { seconds_bits: p.time_played_bits })
        },
    }
}

impl GameClock {
    /// A clock with no play time read yet, running.
    pub fn new() -> (r: Self)
        ensures
            r == (GameClock { previous: None, paused: false }),
    {
        GameClock { previous: None, paused: false }
    }

    /// Takes in this tick's read of the play time.
    pub fn tick(&mut self, read: Result<BetaPlayerDataManager, ReadError>) -> (r: GameTimeAction)
        ensures
            (*final(self), r) == clock_step(*old(self), read),
    {
        match read {
            Err(_) => GameTimeAction::Keep,
            Ok(p) => {
                let same = match self.previous {
                    Some(q) => q == p,
                    None => false,
                };
                if same {
                    self.paused = true;
                    GameTimeAction::Pause
                } else if self.paused && self.previous.is_some() {
                    self.previous = Some(p);
                    self.paused = false;
                    GameTimeAction::Resume
                } else {
                    self.previous = Some(p);
                    GameTimeAction::SetGameTime { seconds_bits: p.time_played_bits }
                }
            },
        }
    }

    /// The game time was paused from outside (back at the main menu).
    pub fn pause(&mut self)
        ensures
            final(self).previous == old(self).previous,
            final(self).paused,
    {
        self.paused = true;
    }

    /// The run ended: the game time is no longer held paused.
    pub fn run_ended(&mut self)
        ensures
            final(self).previous == old(self).previous,
            !final(self).paused,
    {
        self.paused = false;
    }
}

/// What a new scene name asks for.
#[derive(Debug, Clone, Copy, PartialEq, Eq, Structural)]
pub struct SceneDecision {
    /// The scene differs from the one last seen.
    pub changed: bool,
    /// A new run begins: start the timer.
    pub start_timer: bool,
    /// Back at the main menu: pause the game time and resolve every record anew.
    pub back_to_menu: bool,
}

/// The name of the main menu scene.
pub open spec fn main_menu() -> Seq<char> {
    "New Main Menu"@
}

/// The name of the first scene of a new game.
pub open spec fn intro() -> Seq<char> {
    "CBF Intro"@
}

/// What moving from scene `old` to scene `new` asks for; `fresh_save` says
/// that less than one second has been played.
pub open spec fn scene_decision_spec(old: Option<Seq<char>>, new: Seq<char>, fresh_save: bool) -> SceneDecision {
    if old == Some(new) {
        SceneDecision { changed: false, start_timer: false, back_to_menu: false }
    } else {
        SceneDecision {
            changed: true,
            start_timer: old == Some(main_menu()) && new == intro() && fresh_save,
            back_to_menu: new == main_menu(),
        }
    }
}

/// Whether `s` holds the characters of `lit`.
fn same_text(s: &String, lit: &str) -> (r: bool)
    ensures
        r == (s@ == lit@),
{
    *s == lit.to_owned()
}

/// What the scene `new` asks for, after the scene `old` was last seen.
pub fn scene_decision(old: &Option<String>, new: &String, fresh_save: bool) -> (r: SceneDecision)
    ensures
        r == scene_decision_spec(
            match old {
                Some(o) => Some(o@),
                None => None,
            },
            new@,
            fresh_save,
        ),
{
    let same = match old {
        Some(o) => *o == *new,
        None => false,
    };
    if same {
        SceneDecision { changed: false, start_timer: false, back_to_menu: false }
    } else {
        let from_menu = match old {
            Some(o) => same_text(o, "New Main Menu"),
            None => false,
        };
        SceneDecision {
            changed: true,
            start_timer: from_menu && same_text(new, "CBF Intro") && fresh_save,
            back_to_menu: same_text(new, "New Main Menu"),
        }
    }
}

} // verus!
