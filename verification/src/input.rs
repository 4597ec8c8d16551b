use vstd::prelude::*;
use crate::geometry::BlockType;
use crate::piece::{Block, Piece};
use crate::session::{spawned, GlobalState, Session};

verus! {

/// The keys that the game answers to. Every other key is `Other`.
#[derive(Clone, Copy, Debug, PartialEq, Eq, Structural)]
pub enum Key {
    ArrowUp,
    ArrowDown,
    ArrowLeft,
    ArrowRight,
    Space,
    Escape,
    Other,
}

/// What the caller is to do with the timer that lets the piece fall, after a
/// key has gone down or up.
#[derive(Clone, Copy, Debug, PartialEq, Eq, Structural)]
pub enum GravityTimer {
    Unchanged,
    Pause,
    Resume,
}

/// The key that a keyboard event names in its `key` attribute.
pub open spec fn key_named(name: Seq<char>) -> Key {
    if name == "ArrowUp"@ {
        Key::ArrowUp
    } else if name == "ArrowDown"@ {
        Key::ArrowDown
    } else if name == "ArrowLeft"@ {
        Key::ArrowLeft
    } else if name == "ArrowRight"@ {
        Key::ArrowRight
    } else if name == " "@ {
        Key::Space
    } else if name == "Escape"@ {
        Key::Escape
    } else {
        Key::Other
    }
}

impl Key {
    /// The key that a keyboard event names in its `key` attribute.
    pub fn from_name(name: &str) -> (key: Key)
        ensures
            key == key_named(name@),
    {
        let name = name.to_string();
        if name == "ArrowUp".to_string() {
            Key::ArrowUp
        } else if name == "ArrowDown".to_string() {
            Key::ArrowDown
        } else if name == "ArrowLeft".to_string() {
            Key::ArrowLeft
        } else if name == "ArrowRight".to_string() {
            Key::ArrowRight
        } else if name == " ".to_string() {
            Key::Space
        } else if name == "Escape".to_string() {
            Key::Escape
        } else {
            Key::Other
        }
    }
}

impl Session {
    /// The session after `key` has gone down, with `next` to fall after a
    /// piece that locks. Each command looks at the state of the game itself:
    /// only the pause key does anything to a paused game, and no key to one
    /// that is over.
    pub open spec fn key_down(self, key: Key, next: Piece) -> Session {
        match key {
            Key::ArrowUp => self.rotate_block(),
            Key::ArrowDown => self.descend_block(),
            Key::ArrowLeft => self.move_block_left(),
            Key::ArrowRight => self.move_block_right(),
            Key::Space => self.full_descend_block(next),
            Key::Escape => self.toggle_pause(),
            Key::Other => self,
        }
    }

    /// What becomes of the gravity timer when `key` goes down: it pauses
    /// while the soft-drop key is held in a running game, so that the piece
    /// does not fall twice as fast, and it pauses and resumes with the game.
    pub open spec fn key_down_timer(self, key: Key) -> GravityTimer {
        if self.game_over {
            GravityTimer::Unchanged
        } else if key == Key::ArrowDown && !self.paused {
            GravityTimer::Pause
        } else if key == Key::Escape {
            if self.paused {
                GravityTimer::Resume
            } else {
                GravityTimer::Pause
            }
        } else {
            GravityTimer::Unchanged
        }
    }

    /// What becomes of the gravity timer when `key` goes up: it resumes when
    /// the soft-drop key is let go, unless the game is paused.
    pub open spec fn key_up_timer(self, key: Key) -> GravityTimer {
        if key == Key::ArrowDown && !self.paused {
            GravityTimer::Resume
        } else {
            GravityTimer::Unchanged
        }
    }
}

impl Session {
    /// Once the game is over, no key and no tick changes the session.
    pub proof fn lemma_game_over_is_final(self, key: Key, next: Piece)
        requires
            self.game_over,
        ensures
            self.key_down(key, next) == self,
            self.tick(next) == self,
    {
    }
}

impl GlobalState {
    /// What becomes of the gravity timer when `key` goes down.
    fn timer_on_key_down(&self, key: Key) -> (timer: GravityTimer)
        ensures
            timer == self@.key_down_timer(key),
    {
        if self.game_over {
            GravityTimer::Unchanged
        } else if key == Key::ArrowDown && !self.game_paused {
            GravityTimer::Pause
        } else if key == Key::Escape {
            if self.game_paused {
                GravityTimer::Resume
            } else {
                GravityTimer::Pause
            }
        } else {
            GravityTimer::Unchanged
        }
    }

    /// Carries out the command of a key other than the hard-drop key.
    fn steer(&mut self, key: Key)
        requires
            key != Key::Space,
        ensures
            forall|next: Piece| final(self)@ == #[trigger] old(self)@.key_down(key, next),
            old(self).wf() ==> final(self).wf(),
    {
        match key {
            Key::ArrowUp => self.rotate_block(),
            Key::ArrowDown => self.descend_block(),
            Key::ArrowLeft => self.move_block_left(),
            Key::ArrowRight => self.move_block_right(),
            Key::Escape => self.toggle_pause(),
            _ => {},
        }
    }

    /// Answers a key that has gone down: carries out its command, with
    /// `next` to fall after a piece that locks, and says what the caller is to
    /// do with the gravity timer.
    pub fn key_down_with(&mut self, key: Key, next: Block) -> (timer: GravityTimer)
        ensures
            final(self)@ == old(self)@.key_down(key, next@),
            timer == old(self)@.key_down_timer(key),
            old(self).wf() && next@.wf() ==> final(self).wf(),
    {
        let timer = self.timer_on_key_down(key);
        if key == Key::Space {
            self.full_descend_block_with(next);
        } else {
            self.steer(key);
        }
        timer
    }

    /// Answers a key that has gone down: carries out its command, with a
    /// piece of a random kind to fall after a piece that locks, and says what
    /// the caller is to do with the gravity timer.
    pub fn key_down(&mut self, key: Key) -> (timer: GravityTimer)
        ensures
            exists|next: Piece| #[trigger]
                spawned(next) && final(self)@ == old(self)@.key_down(key, next),
            timer == old(self)@.key_down_timer(key),
            old(self).wf() ==> final(self).wf(),
    {
        let timer = self.timer_on_key_down(key);
        if key == Key::Space {
            self.full_descend_block();
        } else {
            self.steer(key);
            assert(spawned(Piece::spawn(BlockType::Smashboy)));
        }
        timer
    }

    /// Answers a key that has gone up: says what the caller is to do with the
    /// gravity timer. The session stays as it is.
    pub fn key_up(&self, key: Key) -> (timer: GravityTimer)
        ensures
            timer == self@.key_up_timer(key),
    {
        if key == Key::ArrowDown && !self.game_paused {
            GravityTimer::Resume
        } else {
            GravityTimer::Unchanged
        }
    }
}

} // verus!
