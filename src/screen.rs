//! The round: waiting to start, being played, or over.
use vstd::prelude::*;
use crate::playground::{after_key, after_tick, is_fresh, Key, Playground};
use crate::units::Pos;

verus! {

/// The stage of a round.
#[derive(Debug, Clone, Copy, PartialEq, Eq, Structural)]
pub enum State {
    Ready,
    Playing,
    Finished,
}

/// One tick of the round: while it is played the field advances, and the
/// round is over when the field says so; otherwise nothing changes.
pub open spec fn after_screen_tick(old: Screen, new: Screen) -> bool {
    if old.state == State::Playing {
        &&& new.pos == old.pos
        &&& exists|r: bool|
            #[trigger] after_tick(old.playground, new.playground, r) && new.state == (if r {
                State::Playing
            } else {
                State::Finished
            })
    } else {
        new == old
    }
}

/// What a key does to the round: space starts a ready round, and makes a
/// finished round ready again with a fresh field; other keys do nothing
/// there. While the round is played every key goes to the field.
pub open spec fn after_screen_key(old: Screen, new: Screen, key: Key) -> bool {
    match old.state {
        State::Ready => if key == Key::Space {
            new == Screen { state: State::Playing, ..old }
        } else {
            new == old
        },
        State::Finished => if key == Key::Space {
            &&& new.state == State::Ready
            &&& new.pos == old.pos
            &&& is_fresh(new.playground)
        } else {
            new == old
        },
        State::Playing => {
            &&& new.state == State::Playing
            &&& new.pos == old.pos
            &&& after_key(old.playground, new.playground, key)
        },
    }
}

/// A round of play around one field, with the screen position it is drawn at.
#[derive(Debug)]
pub struct Screen {
    pub state: State,
    pub pos: Pos,
    pub playground: Playground,
}

impl Screen {
    pub open spec fn wf(&self) -> bool {
        self.playground.wf()
    }

    /// Passes the tick to the field while the round is played, and ends the
    /// round when the field reports that it is over; otherwise does nothing.
    pub fn on_tick(&mut self)
        requires
            old(self).wf(),
        ensures
            final(self).wf(),
            after_screen_tick(*old(self), *final(self)),
    {
        match self.state {
            State::Ready => {},
            State::Finished => {},
            State::Playing => {
                let going = self.playground.on_tick();
                if !going {
                    self.state = State::Finished;
                }
            },
        }
    }

    /// Space starts a ready round, and makes a finished round ready again
    /// with a fresh field; while the round is played every key goes to the
    /// field.
    pub fn on_keydown(&mut self, key: Key)
        requires
            old(self).wf(),
        ensures
            final(self).wf(),
            after_screen_key(*old(self), *final(self), key),
    {
        match self.state {
            State::Ready => {
                if key == Key::Space {
                    self.state = State::Playing;
                }
            },
            State::Finished => {
                if key == Key::Space {
                    self.playground.clear();
                    self.state = State::Ready;
                }
            },
            State::Playing => {
                self.playground.on_keydown(key);
            },
        }
    }

    pub fn new() -> (r: Screen)
        ensures
            r.wf(),
            r.state == State::Ready,
            r.pos == (Pos { x: 0, y: 0 }),
            is_fresh(r.playground),
    {
        Screen { state: State::Ready, pos: Pos::new(0, 0), playground: Playground::new() }
    }
}

} // verus!
