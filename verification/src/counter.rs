//! A counter that is moved up and down by messages.

use vstd::prelude::*;

verus! {

/// What can be asked of a counter.
#[derive(Clone, Copy, Debug)]
pub enum Message {
    /// One up.
    Increment,
    /// One down.
    Decrement,
}

/// A number that messages move.
pub struct Counter {
    value: i64,
}

impl View for Counter {
    type V = int;

    closed spec fn view(&self) -> int {
        self.value as int
    }
}

impl Default for Counter {
    /// A counter at zero.
    fn default() -> (r: Counter)
        ensures
            r@ == 0,
    {
        Counter { value: 0 }
    }
}

impl Counter {
    /// The number that `message` moves the counter at `value` to.
    pub open spec fn moved(value: int, message: Message) -> int {
        match message {
            Message::Increment => value + 1,
            Message::Decrement => value - 1,
        }
    }

    /// The number the counter stands at.
    pub fn value(&self) -> (r: i64)
        ensures
            r == self@,
    {
        self.value
    }

    /// Whether `message` can move the counter: the number it would move to is
    /// one that the counter can hold.
    pub fn can_update(&self, message: Message) -> (r: bool)
        ensures
            r == (i64::MIN <= Counter::moved(self@, message) <= i64::MAX),
    {
        match message {
            Message::Increment => self.value < i64::MAX,
            Message::Decrement => self.value > i64::MIN,
        }
    }

    /// Moves the counter by one, up or down.
    pub fn update(&mut self, message: Message)
        requires
            i64::MIN <= Counter::moved(old(self)@, message) <= i64::MAX,
        ensures
            final(self)@ == Counter::moved(old(self)@, message),
    {
        match message {
            Message::Increment => {
                self.value += 1;
            },
            Message::Decrement => {
                self.value -= 1;
            },
        }
    }
}

} // verus!
