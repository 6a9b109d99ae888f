//! Pixel walks for lines and filled rectangles on integer coordinates.
use vstd::prelude::*;
use crate::vectors::Vector2;
use crate::triangles::VERTEX_LIMIT;

verus! {

pub open spec fn abs(v: int) -> int {
    if v < 0 {
        -v
    } else {
        v
    }
}

pub open spec fn signum(v: int) -> int {
    if v > 0 {
        1
    } else if v < 0 {
        -1
    } else {
        0
    }
}

pub open spec fn point_in_limit(p: Vector2<i32>) -> bool {
    -VERTEX_LIMIT <= p.x <= VERTEX_LIMIT && -VERTEX_LIMIT <= p.y <= VERTEX_LIMIT
}

/// The pixels of a line segment by Bresenham's method: one pixel per step
/// along the main axis (the one of larger extent), the other coordinate
/// following when the accumulated error reaches a full pixel.
pub struct Line {
    start: Vector2<i32>,
    end: Vector2<i32>,
    delta: Vector2<i32>,
    position: Vector2<i32>,
    increment: Vector2<i32>,
    is_x_main: bool,
    module: i32,
}

impl Line {
    /// Left end of the segment.
    pub closed spec fn start_spec(&self) -> (int, int) {
        (self.start.x as int, self.start.y as int)
    }

    /// Right end minus left end.
    pub closed spec fn delta_spec(&self) -> (int, int) {
        (self.delta.x as int, self.delta.y as int)
    }

    /// Offset from the left end of the next pixel.
    pub closed spec fn position_spec(&self) -> (int, int) {
        (self.position.x as int, self.position.y as int)
    }

    pub closed spec fn x_main(&self) -> bool {
        self.is_x_main
    }

    /// Error accumulated along the minor axis, in units of `1 / |main
    /// extent|` of a pixel.
    pub closed spec fn error(&self) -> int {
        self.module as int
    }

    pub closed spec fn wf(&self) -> bool {
        let d = self.delta_spec();
        let p = self.position_spec();
        &&& point_in_limit(self.start)
        &&& point_in_limit(self.end)
        &&& d == (self.end.x - self.start.x, self.end.y - self.start.y)
        &&& self.is_x_main == (abs(d.0) >= abs(d.1))
        &&& self.increment.x == signum(d.0)
        &&& self.increment.y == signum(d.1)
        &&& abs(p.0) <= abs(d.0)
        &&& abs(p.1) <= abs(d.1)
        &&& 0 <= self.module
        &&& self.is_x_main ==> self.module < abs(d.0) || d.0 == 0
        &&& !self.is_x_main ==> self.module <= abs(d.1)
        &&& d.0 > 0 ==> p.0 >= 0
        &&& d.0 < 0 ==> p.0 <= 0
        &&& d.1 > 0 ==> p.1 >= 0
        &&& d.1 < 0 ==> p.1 <= 0
    }

    /// The walk from the left end of the segment between `start` and `end`
    /// toward its right end; always `Some`.
    pub fn new(start: Vector2<i32>, end: Vector2<i32>) -> (r: Option<Self>)
        requires
            point_in_limit(start),
            point_in_limit(end),
        ensures
            r.is_some(),
            r.unwrap().wf(),
            r.unwrap().position_spec() == (0int, 0int),
            r.unwrap().error() == 0,
            r.unwrap().x_main() == (abs(r.unwrap().delta_spec().0) >= abs(r.unwrap().delta_spec().1)),
            start.x < end.x ==> r.unwrap().start_spec() == (start.x as int, start.y as int)
                && r.unwrap().delta_spec() == (end.x - start.x, end.y - start.y),
            start.x >= end.x ==> r.unwrap().start_spec() == (end.x as int, end.y as int)
                && r.unwrap().delta_spec() == (start.x - end.x, start.y - end.y),
    {
        let (start, end) = if start.x < end.x {
            (start, end)
        } else {
            (end, start)
        };
        let delta = Vector2::new(end.x - start.x, end.y - start.y);
        let ax = if delta.x < 0 { -delta.x } else { delta.x };
        let ay = if delta.y < 0 { -delta.y } else { delta.y };
        let is_x_main = ax >= ay;
        let sx: i32 = if delta.x > 0 { 1 } else if delta.x < 0 { -1 } else { 0 };
        let sy: i32 = if delta.y > 0 { 1 } else if delta.y < 0 { -1 } else { 0 };
        Some(Self {
            start,
            end,
            delta,
            position: Vector2::new(0, 0),
            increment: Vector2::new(sx, sy),
            module: 0,
            is_x_main,
        })
    }

    /// The walk has reached the extent of the segment along an axis.
    pub open spec fn finished(&self) -> bool {
        abs(self.position_spec().0) >= abs(self.delta_spec().0) || abs(self.position_spec().1)
            >= abs(self.delta_spec().1)
    }

    /// The next pixel; the walk then moves one pixel along the main axis and
    /// at most one along the other.
    pub fn next(&mut self) -> (r: Option<Vector2<i32>>)
        requires
            old(self).wf(),
        ensures
            final(self).wf(),
            final(self).start_spec() == old(self).start_spec(),
            final(self).delta_spec() == old(self).delta_spec(),
            final(self).x_main() == old(self).x_main(),
            old(self).finished() ==> r.is_none() && final(self).position_spec() == old(
                self,
            ).position_spec() && final(self).error() == old(self).error(),
            !old(self).finished() ==> {
                let p = old(self).position_spec();
                let q = final(self).position_spec();
                let d = old(self).delta_spec();
                let e = old(self).error();
                &&& r.is_some()
                &&& r.unwrap().x == old(self).start_spec().0 + p.0
                &&& r.unwrap().y == old(self).start_spec().1 + p.1
                &&& old(self).x_main() ==> {
                    let step = e + abs(d.1) >= abs(d.0);
                    &&& q.0 == p.0 + signum(d.0)
                    &&& q.1 == if step { p.1 + signum(d.1) } else { p.1 }
                    &&& final(self).error() == if step { e + abs(d.1) - abs(d.0) } else { e + abs(d.1) }
                }
                &&& !old(self).x_main() ==> {
                    let step = e + abs(d.0) > abs(d.1);
                    &&& q.1 == p.1 + signum(d.1)
                    &&& q.0 == if step { p.0 + signum(d.0) } else { p.0 }
                    &&& final(self).error() == if step { (e + abs(d.0)) % abs(d.1) } else { e + abs(d.0) }
                }
            },
    {
        let ax = if self.delta.x < 0 { -self.delta.x } else { self.delta.x };
        let ay = if self.delta.y < 0 { -self.delta.y } else { self.delta.y };
        let px = if self.position.x < 0 { -self.position.x } else { self.position.x };
        let py = if self.position.y < 0 { -self.position.y } else { self.position.y };
        if px >= ax || py >= ay {
            return None;
        }
        let output = Vector2::new(self.position.x + self.start.x, self.position.y + self.start.y);
        if self.is_x_main {
            self.position.x = self.position.x + self.increment.x;
            self.module = self.module + ay;
            if self.module >= ax {
                self.position.y = self.position.y + self.increment.y;
                self.module = self.module - ax;
            }
        } else {
            self.position.y = self.position.y + self.increment.y;
            self.module = self.module + ax;
            if self.module > ay {
                self.position.x = self.position.x + self.increment.x;
                self.module = self.module % ay;
            }
        }
        Some(output)
    }
}

/// The pixels of a rectangle: `delta.x * delta.y` of them, pixel `k` at
/// `start + (k % delta.y, k / delta.y)`.
pub struct Rect {
    start: Vector2<i32>,
    end: Vector2<i32>,
    position: i32,
    position_end: i32,
    delta: Vector2<i32>,
}

impl Rect {
    pub closed spec fn start_spec(&self) -> (int, int) {
        (self.start.x as int, self.start.y as int)
    }

    pub closed spec fn delta_spec(&self) -> (int, int) {
        (self.delta.x as int, self.delta.y as int)
    }

    /// Number of pixels yielded so far.
    pub closed spec fn position_spec(&self) -> int {
        self.position as int
    }

    pub closed spec fn wf(&self) -> bool {
        &&& point_in_limit(self.start)
        &&& self.delta.x >= 1
        &&& self.delta.y >= 1
        &&& self.position_end == self.delta.x * self.delta.y
        &&& 0 <= self.position <= self.position_end
        &&& self.delta.x <= 2 * VERTEX_LIMIT
        &&& self.delta.y <= 2 * VERTEX_LIMIT
    }

    /// The walk over the rectangle from `start` to `end`, or `None` where it
    /// has no pixel.
    pub fn new(start: Vector2<i32>, end: Vector2<i32>) -> (r: Option<Self>)
        requires
            point_in_limit(start),
            point_in_limit(end),
            (end.x - start.x) * (end.y - start.y) <= i32::MAX,
        ensures
            r.is_some() <==> (end.x - start.x >= 1 && end.y - start.y >= 1),
            r.is_some() ==> r.unwrap().wf() && r.unwrap().start_spec() == (
                start.x as int,
                start.y as int,
            ) && r.unwrap().delta_spec() == (end.x - start.x, end.y - start.y)
                && r.unwrap().position_spec() == 0,
    {
        let delta = Vector2::new(end.x - start.x, end.y - start.y);
        if delta.x < 1 || delta.y < 1 {
            return None;
        }
        Some(Self { start, end, position: 0, position_end: delta.x * delta.y, delta })
    }

    /// Pixel number `position`, after which the walk moves on; `None` once
    /// all the pixels have been yielded.
    pub fn next(&mut self) -> (r: Option<Vector2<i32>>)
        requires
            old(self).wf(),
        ensures
            final(self).wf(),
            final(self).start_spec() == old(self).start_spec(),
            final(self).delta_spec() == old(self).delta_spec(),
            ({
                let k = old(self).position_spec();
                let d = old(self).delta_spec();
                let s = old(self).start_spec();
                &&& k >= d.0 * d.1 ==> r.is_none() && final(self).position_spec() == k
                &&& k < d.0 * d.1 ==> r.is_some() && r.unwrap().x == s.0 + k % d.1 && r.unwrap().y
                    == s.1 + k / d.1 && final(self).position_spec() == k + 1
            }),
    {
        if self.position >= self.position_end {
            return None;
        }
        proof {
            let k = self.position as int;
            let dy = self.delta.y as int;
            let dx = self.delta.x as int;
            vstd::arithmetic::div_mod::lemma_mod_pos_bound(k, dy);
            vstd::arithmetic::div_mod::lemma_fundamental_div_mod(k, dy);
            vstd::arithmetic::div_mod::lemma_div_pos_is_pos(k, dy);
            assert(k / dy < dx) by (nonlinear_arith)
                requires
                    0 <= k < dx * dy,
                    k == dy * (k / dy) + k % dy,
                    0 <= k % dy,
                    dy > 0,
            ;
        }
        let x = self.start.x + self.position % self.delta.y;
        let y = self.start.y + self.position / self.delta.y;
        self.position = self.position + 1;
        Some(Vector2::new(x, y))
    }
}

} // verus!
