use vstd::prelude::*;

verus! {

/// Integer vector. Positions are in thousandths of a world unit; axes are
/// unit vectors along the grid.
#[derive(Clone, Copy, Debug, PartialEq, Eq, Structural)]
pub struct Vec3 {
    pub x: i64,
    pub y: i64,
    pub z: i64,
}

/// How far one move goes, in thousandths of a world unit.
pub const CAMERA_STEP: i64 = 50;

/// Direction of one camera move, relative to the current pose.
#[derive(Clone, Copy, Debug, PartialEq, Eq, Structural)]
pub enum Direction {
    Forward,
    Backward,
    Left,
    Right,
    Up,
    Down,
}

/// Pose of the camera that the render pass looks through.
#[derive(Clone, Copy, Debug, PartialEq, Eq, Structural)]
pub struct Camera {
    pub pos: Vec3,
    pub target: Vec3,
    pub front: Vec3,
    pub up: Vec3,
}

pub open spec fn len_sq(t: (int, int, int)) -> int {
    t.0 * t.0 + t.1 * t.1 + t.2 * t.2
}

pub open spec fn dot(a: Vec3, b: Vec3) -> int {
    a.x * b.x + a.y * b.y + a.z * b.z
}

/// A vector of length one; with integer components it lies along an axis.
pub open spec fn is_unit(v: Vec3) -> bool {
    &&& -1 <= v.x <= 1
    &&& -1 <= v.y <= 1
    &&& -1 <= v.z <= 1
    &&& len_sq(as_triple(v)) == 1
}

pub open spec fn cross(a: Vec3, b: Vec3) -> (int, int, int) {
    (a.y * b.z - a.z * b.y, a.z * b.x - a.x * b.z, a.x * b.y - a.y * b.x)
}

pub open spec fn as_triple(v: Vec3) -> (int, int, int) {
    (v.x as int, v.y as int, v.z as int)
}

pub open spec fn neg(t: (int, int, int)) -> (int, int, int) {
    (-t.0, -t.1, -t.2)
}

pub open spec fn fits_i64(t: (int, int, int)) -> bool {
    &&& i64::MIN <= t.0 <= i64::MAX
    &&& i64::MIN <= t.1 <= i64::MAX
    &&& i64::MIN <= t.2 <= i64::MAX
}

impl Camera {
    /// A usable pose: front, up and right (front x up) are unit vectors, and
    /// front is at a right angle to up.
    pub open spec fn wf(&self) -> bool {
        &&& is_unit(self.front)
        &&& is_unit(self.up)
        &&& dot(self.front, self.up) == 0
        &&& len_sq(cross(self.front, self.up)) == 1
    }

    /// The axis that a move in `d` follows: front, right (front x up) or up,
    /// negated for the opposite directions. Each has length one, so a move
    /// goes `CAMERA_STEP` whatever its direction.
    pub open spec fn axis(&self, d: Direction) -> (int, int, int) {
        match d {
            Direction::Forward => as_triple(self.front),
            Direction::Backward => neg(as_triple(self.front)),
            Direction::Right => cross(self.front, self.up),
            Direction::Left => neg(cross(self.front, self.up)),
            Direction::Up => as_triple(self.up),
            Direction::Down => neg(as_triple(self.up)),
        }
    }

    /// Where a move in `d` would put the camera.
    pub open spec fn candidate(&self, d: Direction) -> (int, int, int) {
        let a = self.axis(d);
        (
            self.pos.x + CAMERA_STEP * a.0,
            self.pos.y + CAMERA_STEP * a.1,
            self.pos.z + CAMERA_STEP * a.2,
        )
    }

    /// The pose after a move in `d`: the candidate position where it is
    /// representable, else the pose unchanged.
    pub open spec fn moved(&self, d: Direction) -> Camera {
        let t = self.candidate(d);
        if fits_i64(t) {
            Camera { pos: Vec3 { x: t.0 as i64, y: t.1 as i64, z: t.2 as i64 }, ..*self }
        } else {
            *self
        }
    }

    /// At the origin, looking down the negative z axis, with y up.
    pub fn new() -> (r: Camera)
        ensures
            r.wf(),
            r.pos == (Vec3 { x: 0, y: 0, z: 0 }),
            r.target == (Vec3 { x: 0, y: 0, z: 0 }),
            r.front == (Vec3 { x: 0, y: 0, z: -1i64 }),
            r.up == (Vec3 { x: 0, y: 1, z: 0 }),
    {
        let r = Camera {
            pos: Vec3 { x: 0, y: 0, z: 0 },
            target: Vec3 { x: 0, y: 0, z: 0 },
            front: Vec3 { x: 0, y: 0, z: -1 },
            up: Vec3 { x: 0, y: 1, z: 0 },
        };
        proof {
            assert(as_triple(r.front) == (0int, 0int, -1int));
            assert(as_triple(r.up) == (0int, 1int, 0int));
            assert(cross(r.front, r.up) == (1int, 0int, 0int));
            assert((-1int) * (-1int) == 1) by (nonlinear_arith);
            assert(len_sq((0int, 0int, -1int)) == 1);
            assert(len_sq((0int, 1int, 0int)) == 1);
            assert(len_sq((1int, 0int, 0int)) == 1);
            assert(dot(r.front, r.up) == 0);
        }
        r
    }

    pub fn is_valid(&self) -> (r: bool)
        ensures
            r == self.wf(),
    {
        let f = self.front;
        let u = self.up;
        if !(-1 <= f.x && f.x <= 1 && -1 <= f.y && f.y <= 1 && -1 <= f.z && f.z <= 1) {
            return false;
        }
        if !(-1 <= u.x && u.x <= 1 && -1 <= u.y && u.y <= 1 && -1 <= u.z && u.z <= 1) {
            return false;
        }
        proof {
            lemma_product_bound(f.x as int, f.x as int);
            lemma_product_bound(f.y as int, f.y as int);
            lemma_product_bound(f.z as int, f.z as int);
            lemma_product_bound(u.x as int, u.x as int);
            lemma_product_bound(u.y as int, u.y as int);
            lemma_product_bound(u.z as int, u.z as int);
            lemma_product_bound(f.x as int, u.x as int);
            lemma_product_bound(f.y as int, u.y as int);
            lemma_product_bound(f.z as int, u.z as int);
        }
        let c = cross_exec(f, u);
        proof {
            assert(-2 <= c.0 <= 2 && -2 <= c.1 <= 2 && -2 <= c.2 <= 2);
            assert(0 <= c.0 * c.0 <= 4 && 0 <= c.1 * c.1 <= 4 && 0 <= c.2 * c.2 <= 4) by (nonlinear_arith)
                requires
                    -2 <= c.0 <= 2,
                    -2 <= c.1 <= 2,
                    -2 <= c.2 <= 2,
            ;
        }
        f.x * f.x + f.y * f.y + f.z * f.z == 1 && u.x * u.x + u.y * u.y + u.z * u.z == 1 && f.x
            * u.x + f.y * u.y + f.z * u.z == 0 && c.0 * c.0 + c.1 * c.1 + c.2 * c.2 == 1
    }

    /// Moves the camera one step in `d` and reports whether it moved; a move
    /// that would leave the representable range is not made.
    pub fn move_camera(&mut self, d: Direction) -> (r: bool)
        requires
            old(self).wf(),
        ensures
            *final(self) == old(self).moved(d),
            r == fits_i64(old(self).candidate(d)),
    {
        let a = self.axis_exec(d);
        let s = CAMERA_STEP as i128;
        let x = self.pos.x as i128 + s * a.0;
        let y = self.pos.y as i128 + s * a.1;
        let z = self.pos.z as i128 + s * a.2;
        let lo = i64::MIN as i128;
        let hi = i64::MAX as i128;
        if lo <= x && x <= hi && lo <= y && y <= hi && lo <= z && z <= hi {
            self.pos = Vec3 { x: x as i64, y: y as i64, z: z as i64 };
            true
        } else {
            false
        }
    }

    fn axis_exec(&self, d: Direction) -> (r: (i128, i128, i128))
        requires
            self.wf(),
        ensures
            (r.0 as int, r.1 as int, r.2 as int) == self.axis(d),
            -2 <= r.0 <= 2,
            -2 <= r.1 <= 2,
            -2 <= r.2 <= 2,
    {
        let f = (self.front.x as i128, self.front.y as i128, self.front.z as i128);
        let u = (self.up.x as i128, self.up.y as i128, self.up.z as i128);
        match d {
            Direction::Forward => f,
            Direction::Backward => (-f.0, -f.1, -f.2),
            Direction::Right => cross_exec(self.front, self.up),
            Direction::Left => {
                let c = cross_exec(self.front, self.up);
                (-c.0, -c.1, -c.2)
            },
            Direction::Up => u,
            Direction::Down => (-u.0, -u.1, -u.2),
        }
    }
}

fn cross_exec(a: Vec3, b: Vec3) -> (r: (i128, i128, i128))
    requires
        -1 <= a.x <= 1,
        -1 <= a.y <= 1,
        -1 <= a.z <= 1,
        -1 <= b.x <= 1,
        -1 <= b.y <= 1,
        -1 <= b.z <= 1,
    ensures
        (r.0 as int, r.1 as int, r.2 as int) == cross(a, b),
        -2 <= r.0 <= 2,
        -2 <= r.1 <= 2,
        -2 <= r.2 <= 2,
{
    let (ax, ay, az) = (a.x as i128, a.y as i128, a.z as i128);
    let (bx, by, bz) = (b.x as i128, b.y as i128, b.z as i128);
    proof {
        lemma_product_bound(ay as int, bz as int);
        lemma_product_bound(az as int, by as int);
        lemma_product_bound(az as int, bx as int);
        lemma_product_bound(ax as int, bz as int);
        lemma_product_bound(ax as int, by as int);
        lemma_product_bound(ay as int, bx as int);
    }
    (ay * bz - az * by, az * bx - ax * bz, ax * by - ay * bx)
}

proof fn lemma_product_bound(p: int, q: int)
    requires
        -1 <= p <= 1,
        -1 <= q <= 1,
    ensures
        -1 <= p * q <= 1,
{
    assert(-1 <= p * q <= 1) by (nonlinear_arith)
        requires
            -1 <= p <= 1,
            -1 <= q <= 1,
    ;
}

/// Every move direction of a usable pose has length one, so each move goes
/// exactly `CAMERA_STEP`.
pub proof fn lemma_move_is_one_step(c: Camera, d: Direction)
    requires
        c.wf(),
    ensures
        len_sq(c.axis(d)) == 1,
{
    lemma_neg_len(as_triple(c.front));
    lemma_neg_len(as_triple(c.up));
    lemma_neg_len(cross(c.front, c.up));
}

proof fn lemma_neg_len(t: (int, int, int))
    ensures
        len_sq(neg(t)) == len_sq(t),
{
    assert((-t.0) * (-t.0) == t.0 * t.0) by (nonlinear_arith);
    assert((-t.1) * (-t.1) == t.1 * t.1) by (nonlinear_arith);
    assert((-t.2) * (-t.2) == t.2 * t.2) by (nonlinear_arith);
}

/// One forward move goes one step along the facing; a second goes one more,
/// so two moves cover twice the step.
pub proof fn lemma_forward_twice(c: Camera)
    requires
        c.wf(),
        fits_i64(
            (
                c.pos.x + 2 * CAMERA_STEP * c.front.x,
                c.pos.y + 2 * CAMERA_STEP * c.front.y,
                c.pos.z + 2 * CAMERA_STEP * c.front.z,
            ),
        ),
    ensures
        as_triple(c.moved(Direction::Forward).pos) == (
            c.pos.x + CAMERA_STEP * c.front.x,
            c.pos.y + CAMERA_STEP * c.front.y,
            c.pos.z + CAMERA_STEP * c.front.z,
        ),
        c.moved(Direction::Forward).wf(),
        c.moved(Direction::Forward).front == c.front,
        as_triple(c.moved(Direction::Forward).moved(Direction::Forward).pos) == (
            c.pos.x + 2 * CAMERA_STEP * c.front.x,
            c.pos.y + 2 * CAMERA_STEP * c.front.y,
            c.pos.z + 2 * CAMERA_STEP * c.front.z,
        ),
{
    let c1 = c.moved(Direction::Forward);
    assert(CAMERA_STEP == 50);
    assert(2 * CAMERA_STEP * c.front.x == 100 * c.front.x);
    assert(2 * CAMERA_STEP * c.front.y == 100 * c.front.y);
    assert(2 * CAMERA_STEP * c.front.z == 100 * c.front.z);
    assert(fits_i64(c.candidate(Direction::Forward)));
    assert(c1.candidate(Direction::Forward) == (
        c.pos.x + 2 * CAMERA_STEP * c.front.x,
        c.pos.y + 2 * CAMERA_STEP * c.front.y,
        c.pos.z + 2 * CAMERA_STEP * c.front.z,
    ));
}

} // verus!
