//! The input buffer: holds the most recent directional command, decoupled
//! from the movement tick rate. Written on key-press edges, read once per
//! movement tick without being consumed. No validation happens here;
//! illegal-reversal filtering belongs to the snake's movement step.

use vstd::prelude::*;
use crate::geometry::Direction;

verus! {

/// A key identifier as the simulation core sees it: one of the four arrow
/// keys, or any other key, which the core ignores.
#[derive(Clone, Copy, PartialEq, Eq, Structural, Debug)]
pub enum Key {
    Up,
    Down,
    Left,
    Right,
    Other,
}

/// The buffered direction after one key transition: an arrow press-edge
/// overwrites it; release-edges and other keys leave it unchanged.
pub open spec fn buffered_after(current: Direction, key: Key, pressed: bool) -> Direction {
    if pressed {
        match key {
            Key::Up => Direction::Up,
            Key::Down => Direction::Down,
            Key::Left => Direction::Left,
            Key::Right => Direction::Right,
            Key::Other => current,
        }
    } else {
        current
    }
}

/// The single stored directional command.
pub struct InputBuffer {
    pub dir: Direction,
}

impl InputBuffer {
    /// A fresh buffer holds the default sentinel command, `Up`.
    pub fn new() -> (b: InputBuffer)
        ensures
            b.dir == Direction::Up,
    {
        InputBuffer { dir: Direction::Up }
    }

    /// Overwrite the buffered direction unconditionally.
    pub fn set(&mut self, d: Direction)
        ensures
            final(self).dir == d,
    {
        self.dir = d;
    }

    /// Read the buffered direction without consuming it. Movement ticks may
    /// read the same value repeatedly if no new key arrives.
    pub fn read(&self) -> (d: Direction)
        ensures
            d == self.dir,
    {
        self.dir
    }

    /// Feed one key transition: arrow press-edges overwrite the buffer, all
    /// other keys and all release-edges are no-ops.
    pub fn on_key(&mut self, key: Key, pressed: bool)
        ensures
            final(self).dir == buffered_after(old(self).dir, key, pressed),
    {
        if pressed {
            match key {
                Key::Up => self.dir = Direction::Up,
                Key::Down => self.dir = Direction::Down,
                Key::Left => self.dir = Direction::Left,
                Key::Right => self.dir = Direction::Right,
                Key::Other => {},
            }
        }
    }
}

} // verus!
