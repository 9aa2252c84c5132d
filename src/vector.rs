use vstd::prelude::*;

verus! {

/// A pair of coordinates, for positions and sizes on screen.
#[derive(Clone, Copy, Debug)]
pub struct Vector2<T: Copy> {
    pub x: T,
    pub y: T,
}

impl<T: Copy> Vector2<T> {
    pub fn new(x: T, y: T) -> (r: Self)
        ensures
            r.x == x,
            r.y == y,
    {
        Vector2 { x, y }
    }

    pub fn x(&self) -> (r: T)
        ensures
            r == self.x,
    {
        self.x
    }

    pub fn y(&self) -> (r: T)
        ensures
            r == self.y,
    {
        self.y
    }

    pub fn set_x(&mut self, x: T)
        ensures
            final(self).x == x,
            final(self).y == old(self).y,
    {
        self.x = x;
    }

    pub fn set_y(&mut self, y: T)
        ensures
            final(self).y == y,
            final(self).x == old(self).x,
    {
        self.y = y;
    }
}

} // verus!
