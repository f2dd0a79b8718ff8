use vstd::prelude::*;

verus! {

/// Width of the canvas, in logical pixels.
pub const WIDTH: u32 = 320;

/// Height of the canvas, in logical pixels.
pub const HEIGHT: u32 = 240;

/// Side of the square box, in logical pixels.
pub const BOX_SIZE: i16 = 64;

/// Length in bytes of a frame: four bytes (red, green, blue, alpha) per pixel.
pub const BUFF_SIZE: usize = 307200;

/// The four bytes of a pixel, red, green, blue, alpha: one color inside the
/// box, another outside it.
pub open spec fn rgba(inside: bool) -> Seq<u8> {
    if inside {
        seq![0x5eu8, 0x48u8, 0xe8u8, 0xffu8]
    } else {
        seq![0x48u8, 0xb2u8, 0xe8u8, 0xffu8]
    }
}

/// The velocity of one axis after the boundary check at `pos`: it is negated
/// when the box touches the low edge or sticks out past the high edge.
pub open spec fn reflected(pos: int, vel: int, extent: int) -> int {
    if pos <= 0 || pos + BOX_SIZE > extent {
        -vel
    } else {
        vel
    }
}

/// Whether `v` is a unit step.
pub open spec fn unit(v: int) -> bool {
    v == 1 || v == -1
}

/// The states of one axis that the motion keeps to once it is in them: the box
/// edge may reach the low wall only while heading out of it (about to bounce
/// back), and it may overshoot the high wall by one pixel only while heading
/// into it.
pub open spec fn axis_settled(pos: int, vel: int, extent: int) -> bool {
    &&& unit(vel)
    &&& 0 <= pos <= extent - BOX_SIZE + 1
    &&& pos == 0 ==> vel == -1
    &&& pos == extent - BOX_SIZE + 1 ==> vel == 1
}

/// The state of the animation: where the box's top-left corner is, and how far
/// it moves each frame.
pub struct World {
    pub box_x: i16,
    pub box_y: i16,
    pub velocity_x: i16,
    pub velocity_y: i16,
}

impl World {
    /// The state that `new` makes.
    pub open spec fn starting() -> World {
        World { box_x: 24, box_y: 16, velocity_x: 1, velocity_y: 1 }
    }

    /// Unit velocities, and a position that one step cannot carry past the
    /// range of `i16`.
    pub open spec fn can_step(self) -> bool {
        &&& unit(self.velocity_x as int)
        &&& unit(self.velocity_y as int)
        &&& i16::MIN < self.box_x < i16::MAX
        &&& i16::MIN < self.box_y < i16::MAX
    }

    /// Both axes are in the states that the motion keeps to.
    pub open spec fn settled(self) -> bool {
        &&& axis_settled(self.box_x as int, self.velocity_x as int, WIDTH as int)
        &&& axis_settled(self.box_y as int, self.velocity_y as int, HEIGHT as int)
    }

    /// The state after one step: reflect each velocity, then move by it.
    pub open spec fn stepped(self) -> World {
        let vx = reflected(self.box_x as int, self.velocity_x as int, WIDTH as int);
        let vy = reflected(self.box_y as int, self.velocity_y as int, HEIGHT as int);
        World {
            box_x: (self.box_x + vx) as i16,
            box_y: (self.box_y + vy) as i16,
            velocity_x: vx as i16,
            velocity_y: vy as i16,
        }
    }

    /// The state after `n` steps.
    pub open spec fn after_steps(self, n: nat) -> World
        decreases n,
    {
        if n == 0 {
            self
        } else {
            self.after_steps((n - 1) as nat).stepped()
        }
    }

    /// Whether the box covers the pixel at column `x` and row `y`; the ranges
    /// are half-open, so the box spans `BOX_SIZE` pixels on each axis.
    pub open spec fn covers(self, x: int, y: int) -> bool {
        &&& self.box_x <= x < self.box_x + BOX_SIZE
        &&& self.box_y <= y < self.box_y + BOX_SIZE
    }

    /// The color of the `i`-th pixel, counted row by row.
    pub open spec fn pixel(self, i: int) -> Seq<u8> {
        rgba(self.covers(i as int % (WIDTH as int), i as int / (WIDTH as int)))
    }

    /// The frame that this state paints: the pixels' colors one after another.
    pub open spec fn frame(self) -> Seq<u8> {
        Seq::new(BUFF_SIZE as nat, |k: int| self.pixel(k / 4)[k % 4])
    }

    /// Create the state in which the animation starts.
    pub fn new() -> (w: Self)
        ensures
            w == World::starting(),
            w.settled(),
    {
        World { box_x: 24, box_y: 16, velocity_x: 1, velocity_y: 1 }
    }

    /// Advance the animation by one frame: on each axis, first reverse the
    /// velocity if the box is at or past a wall, then move.
    pub fn update(&mut self)
        requires
            old(self).can_step(),
        ensures
            *final(self) == old(self).stepped(),
            final(self).velocity_x == reflected(
                old(self).box_x as int,
                old(self).velocity_x as int,
                WIDTH as int,
            ),
            final(self).velocity_y == reflected(
                old(self).box_y as int,
                old(self).velocity_y as int,
                HEIGHT as int,
            ),
            final(self).box_x == old(self).box_x + final(self).velocity_x,
            final(self).box_y == old(self).box_y + final(self).velocity_y,
    {
        if self.box_x <= 0 || self.box_x as i32 + BOX_SIZE as i32 > WIDTH as i32 {
            self.velocity_x = -self.velocity_x;
        }
        if self.box_y <= 0 || self.box_y as i32 + BOX_SIZE as i32 > HEIGHT as i32 {
            self.velocity_y = -self.velocity_y;
        }
        self.box_x = self.box_x + self.velocity_x;
        self.box_y = self.box_y + self.velocity_y;
    }

    /// Paint the current state into `frame`, every byte of it. The result is
    /// a function of the state alone: what the buffer held before is gone.
    pub fn draw(&self, frame: &mut [u8])
        requires
            old(frame)@.len() == BUFF_SIZE,
        ensures
            final(frame)@ == self.frame(),
    {
        let n: usize = (WIDTH * HEIGHT) as usize;
        let mut i: usize = 0;
        while i < n
            invariant
                n == WIDTH * HEIGHT,
                i <= n,
                frame@.len() == BUFF_SIZE,
                forall|k: int| 0 <= k < 4 * i ==> #[trigger] frame@[k] == self.frame()[k],
            decreases n - i,
        {
            let x: i32 = (i % WIDTH as usize) as i32;
            let y: i32 = (i / WIDTH as usize) as i32;
            let inside = x >= self.box_x as i32 && x < self.box_x as i32 + BOX_SIZE as i32
                && y >= self.box_y as i32 && y < self.box_y as i32 + BOX_SIZE as i32;
            let (r, g, b, a): (u8, u8, u8, u8) = if inside {
                (0x5e, 0x48, 0xe8, 0xff)
            } else {
                (0x48, 0xb2, 0xe8, 0xff)
            };
            let base: usize = 4 * i;
            frame[base] = r;
            frame[base + 1] = g;
            frame[base + 2] = b;
            frame[base + 3] = a;
            proof {
                assert(inside == self.covers(i as int % (WIDTH as int), i as int / (WIDTH as int)));
                assert forall|k: int| 4 * i <= k < 4 * i + 4 implies #[trigger] frame@[k]
                    == self.frame()[k] by {
                    assert(k / 4 == i as int);
                    assert(k % 4 == k - 4 * i);
                }
            }
            i = i + 1;
        }
        assert(frame@ =~= self.frame());
    }
}

/// One step keeps a settled state settled, and a settled state can always
/// take that step.
pub proof fn lemma_step_keeps_settled(w: World)
    requires
        w.settled(),
    ensures
        w.can_step(),
        w.stepped().settled(),
{
}

/// Any number of steps keeps a settled state settled.
pub proof fn lemma_settled_after_steps(w: World, n: nat)
    requires
        w.settled(),
    ensures
        w.after_steps(n).settled(),
    decreases n,
{
    if n > 0 {
        lemma_settled_after_steps(w, (n - 1) as nat);
        lemma_step_keeps_settled(w.after_steps((n - 1) as nat));
    }
}

/// However long the animation runs from a settled state (the starting state
/// is one), the box's corner stays within one pixel of the canvas:
/// `-1 <= x <= WIDTH` and `-1 <= y <= HEIGHT`.
pub proof fn lemma_long_run_within_canvas(w: World, n: nat)
    requires
        w.settled(),
    ensures
        -1 <= w.after_steps(n).box_x <= WIDTH,
        -1 <= w.after_steps(n).box_y <= HEIGHT,
{
    lemma_settled_after_steps(w, n);
}

/// From the starting state the box's corner never goes left of the canvas,
/// and never further right than one pixel past the point where the box
/// touches the right edge.
pub proof fn lemma_start_horizontal_range(n: nat)
    ensures
        0 <= World::starting().after_steps(n).box_x <= WIDTH - BOX_SIZE + 1,
{
    lemma_settled_after_steps(World::starting(), n);
}

/// In a settled state where the next move would carry the box left of the
/// canvas, the step reverses the horizontal velocity before moving, so the
/// box ends one pixel inside instead.
pub proof fn lemma_reflect_off_left_wall(w: World)
    requires
        w.settled(),
        w.box_x + w.velocity_x < 0,
    ensures
        w.stepped().velocity_x == -w.velocity_x,
        w.stepped().box_x == 1,
{
}

/// The `p`-th group of four bytes of a frame is the `p`-th pixel's color.
proof fn lemma_pixel_bytes(w: World, p: int)
    requires
        0 <= p < WIDTH * HEIGHT,
    ensures
        w.frame().subrange(4 * p, 4 * p + 4) == w.pixel(p),
{
    assert forall|c: int| 0 <= c < 4 implies #[trigger] w.frame().subrange(4 * p, 4 * p + 4)[c]
        == w.pixel(p)[c] by {
        assert((4 * p + c) / 4 == p);
        assert((4 * p + c) % 4 == c);
    }
    assert(w.frame().subrange(4 * p, 4 * p + 4) =~= w.pixel(p));
}

/// Every pixel of every frame is painted in exactly one of the two colors.
pub proof fn lemma_frame_two_colors(w: World)
    ensures
        w.frame().len() == BUFF_SIZE,
        BUFF_SIZE == WIDTH * HEIGHT * 4,
        forall|p: int|
            0 <= p < WIDTH * HEIGHT ==> {
                let px = #[trigger] w.frame().subrange(4 * p, 4 * p + 4);
                px == rgba(true) || px == rgba(false)
            },
{
    assert forall|p: int| 0 <= p < WIDTH * HEIGHT implies #[trigger] w.frame().subrange(
        4 * p,
        4 * p + 4,
    ) == w.pixel(p) by {
        lemma_pixel_bytes(w, p);
    }
}

/// The four bytes of the pixel at column `x` and row `y` hold the box's color
/// where the box covers that pixel, and the background's color elsewhere.
pub proof fn lemma_pixel_at(w: World, x: int, y: int)
    requires
        0 <= x < WIDTH,
        0 <= y < HEIGHT,
    ensures
        w.frame().subrange(4 * (y * WIDTH + x), 4 * (y * WIDTH + x) + 4) == rgba(w.covers(x, y)),
{
    let p = y * WIDTH + x;
    assert(0 <= p < WIDTH * HEIGHT) by (nonlinear_arith)
        requires
            0 <= x < WIDTH,
            0 <= y < HEIGHT,
            p == y * WIDTH + x,
    ;
    assert(p % (WIDTH as int) == x && p / (WIDTH as int) == y) by (nonlinear_arith)
        requires
            0 <= x < WIDTH,
            p == y * WIDTH + x,
    ;
    lemma_pixel_bytes(w, p);
}

} // verus!
