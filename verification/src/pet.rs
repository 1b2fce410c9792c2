use vstd::prelude::*;

verus! {

/// What the cat is visibly doing; it decides which sprite is drawn.
#[derive(Clone, Copy, PartialEq, Eq, Structural, Debug)]
pub enum CatState {
    Chasing,
    Sitting,
    Washing,
    Sleeping,
}

/// One of the eight compass directions the cat can face or walk in.
#[derive(Clone, Copy, PartialEq, Eq, Structural, Debug)]
pub enum Dir {
    N,
    NE,
    E,
    SE,
    S,
    SW,
    W,
    NW,
}

/// What the cat does when it is not chasing anything.
#[derive(Clone, Copy, PartialEq, Eq, Structural, Debug)]
pub enum PetAction {
    Wandering(Dir),
    Sitting,
    Washing,
    Sleeping,
}

/// The sprite bitmaps (each drawn through its own mask) that make up the
/// cat's animations.
#[derive(Clone, Copy, PartialEq, Eq, Structural, Debug)]
pub enum Sprite {
    Sitting,
    Washing1,
    Washing2,
    Sleeping1,
    Sleeping2,
    Right1,
    Right2,
    Left1,
    Left2,
    Up1,
    Up2,
    Down1,
    Down2,
    Ne1,
    Ne2,
    Nw1,
    Nw2,
    Se1,
    Se2,
    Sw1,
    Sw2,
}

// ---------------------------------------------------------------------------
// Directions
// ---------------------------------------------------------------------------

/// Unit step `(dx, dy)` of a direction, screen coordinates (y grows downwards).
pub open spec fn spec_dir_step(d: Dir) -> (int, int) {
    match d {
        Dir::N => (0, -1),
        Dir::NE => (1, -1),
        Dir::E => (1, 0),
        Dir::SE => (1, 1),
        Dir::S => (0, 1),
        Dir::SW => (-1, 1),
        Dir::W => (-1, 0),
        Dir::NW => (-1, -1),
    }
}

/// The unit step of a direction: walking one tick in `d` moves the cat by
/// the returned pair times its speed.
pub fn dir_step(d: Dir) -> (r: (i8, i8))
    ensures
        (r.0 as int, r.1 as int) == spec_dir_step(d),
{
    match d {
        Dir::N => (0, -1),
        Dir::NE => (1, -1),
        Dir::E => (1, 0),
        Dir::SE => (1, 1),
        Dir::S => (0, 1),
        Dir::SW => (-1, 1),
        Dir::W => (-1, 0),
        Dir::NW => (-1, -1),
    }
}

/// The eight directions in clockwise order from north.
pub open spec fn spec_dir_at(i: int) -> Dir {
    if i == 0 {
        Dir::N
    } else if i == 1 {
        Dir::NE
    } else if i == 2 {
        Dir::E
    } else if i == 3 {
        Dir::SE
    } else if i == 4 {
        Dir::S
    } else if i == 5 {
        Dir::SW
    } else if i == 6 {
        Dir::W
    } else {
        Dir::NW
    }
}

fn dir_at(i: u32) -> (r: Dir)
    requires
        i < 8,
    ensures
        r == spec_dir_at(i as int),
{
    if i == 0 {
        Dir::N
    } else if i == 1 {
        Dir::NE
    } else if i == 2 {
        Dir::E
    } else if i == 3 {
        Dir::SE
    } else if i == 4 {
        Dir::S
    } else if i == 5 {
        Dir::SW
    } else if i == 6 {
        Dir::W
    } else {
        Dir::NW
    }
}

/// The comparisons on an offset `(dx, dy)` from the cat to its target that
/// decide which way the cat faces.
#[derive(Clone, Copy, PartialEq, Eq, Structural, Debug)]
pub struct DeltaSigns {
    /// `|dx| > 2 |dy|`
    pub mostly_horizontal: bool,
    /// `|dy| > 2 |dx|`
    pub mostly_vertical: bool,
    /// `dx > 0`
    pub right: bool,
    /// `dy > 0`
    pub down: bool,
    /// `dx >= 0`
    pub not_left: bool,
    /// `dy <= 0`
    pub not_down: bool,
}

/// The comparisons of `DeltaSigns` taken on exact numbers.
pub open spec fn signs_of(dx: int, dy: int) -> DeltaSigns {
    let adx = if dx < 0 {
        -dx
    } else {
        dx
    };
    let ady = if dy < 0 {
        -dy
    } else {
        dy
    };
    DeltaSigns {
        mostly_horizontal: adx > ady * 2,
        mostly_vertical: ady > adx * 2,
        right: dx > 0,
        down: dy > 0,
        not_left: dx >= 0,
        not_down: dy <= 0,
    }
}

/// The direction to face for an offset: a straight direction where one axis
/// outweighs the other more than twice, a diagonal elsewhere.
pub open spec fn spec_dir_from_signs(s: DeltaSigns) -> Dir {
    if s.mostly_horizontal {
        if s.right {
            Dir::E
        } else {
            Dir::W
        }
    } else if s.mostly_vertical {
        if s.down {
            Dir::S
        } else {
            Dir::N
        }
    } else if s.not_left {
        if s.not_down {
            Dir::NE
        } else {
            Dir::SE
        }
    } else {
        if s.not_down {
            Dir::NW
        } else {
            Dir::SW
        }
    }
}

/// Picks the direction to face for an offset, given the comparisons on it.
pub fn dir_from_signs(s: DeltaSigns) -> (r: Dir)
    ensures
        r == spec_dir_from_signs(s),
{
    if s.mostly_horizontal {
        if s.right {
            Dir::E
        } else {
            Dir::W
        }
    } else if s.mostly_vertical {
        if s.down {
            Dir::S
        } else {
            Dir::N
        }
    } else {
        match (s.not_left, s.not_down) {
            (true, true) => Dir::NE,
            (false, true) => Dir::NW,
            (true, false) => Dir::SE,
            (false, false) => Dir::SW,
        }
    }
}

/// The direction the cat faces toward a target never points away from it on
/// either axis, and a step in it brings the cat closer whenever the target
/// is elsewhere.
pub proof fn lemma_facing_heads_toward_target(dx: int, dy: int)
    ensures
        ({
            let (sx, sy) = spec_dir_step(spec_dir_from_signs(signs_of(dx, dy)));
            &&& sx * dx >= 0
            &&& sy * dy >= 0
            &&& (dx != 0 || dy != 0) ==> sx * dx + sy * dy > 0
        }),
{
}

// ---------------------------------------------------------------------------
// Sprites
// ---------------------------------------------------------------------------

/// The walking sprite for a direction and animation frame.
pub open spec fn walk_sprite(dir: Dir, frame: bool) -> Sprite {
    match dir {
        Dir::E => if frame {
            Sprite::Right1
        } else {
            Sprite::Right2
        },
        Dir::W => if frame {
            Sprite::Left1
        } else {
            Sprite::Left2
        },
        Dir::N => if frame {
            Sprite::Up1
        } else {
            Sprite::Up2
        },
        Dir::S => if frame {
            Sprite::Down1
        } else {
            Sprite::Down2
        },
        Dir::NE => if frame {
            Sprite::Ne1
        } else {
            Sprite::Ne2
        },
        Dir::NW => if frame {
            Sprite::Nw1
        } else {
            Sprite::Nw2
        },
        Dir::SE => if frame {
            Sprite::Se1
        } else {
            Sprite::Se2
        },
        Dir::SW => if frame {
            Sprite::Sw1
        } else {
            Sprite::Sw2
        },
    }
}

/// The sprite shown for a state: sitting has one picture, washing flips with
/// the animation frame, sleeping flips every four ticks, and a moving cat
/// shows the walking picture of its direction and frame.
pub open spec fn spec_select_sprite(state: CatState, dir: Dir, frame: bool, action_ticks: u32) -> Sprite {
    match state {
        CatState::Sitting => Sprite::Sitting,
        CatState::Washing => if frame {
            Sprite::Washing1
        } else {
            Sprite::Washing2
        },
        CatState::Sleeping => if (action_ticks / 4) % 2 == 0 {
            Sprite::Sleeping1
        } else {
            Sprite::Sleeping2
        },
        CatState::Chasing => walk_sprite(dir, frame),
    }
}

/// Picks the sprite (and with it its mask) to draw for the cat's state.
pub fn select_sprite(state: CatState, dir: Dir, frame: bool, action_ticks: u32) -> (r: Sprite)
    ensures
        r == spec_select_sprite(state, dir, frame, action_ticks),
{
    match state {
        CatState::Sitting => Sprite::Sitting,
        CatState::Washing => {
            if frame {
                Sprite::Washing1
            } else {
                Sprite::Washing2
            }
        },
        CatState::Sleeping => {
            if (action_ticks / 4) % 2 == 0 {
                Sprite::Sleeping1
            } else {
                Sprite::Sleeping2
            }
        },
        CatState::Chasing => match (dir, frame) {
            (Dir::E, true) => Sprite::Right1,
            (Dir::E, false) => Sprite::Right2,
            (Dir::W, true) => Sprite::Left1,
            (Dir::W, false) => Sprite::Left2,
            (Dir::N, true) => Sprite::Up1,
            (Dir::N, false) => Sprite::Up2,
            (Dir::S, true) => Sprite::Down1,
            (Dir::S, false) => Sprite::Down2,
            (Dir::NE, true) => Sprite::Ne1,
            (Dir::NE, false) => Sprite::Ne2,
            (Dir::NW, true) => Sprite::Nw1,
            (Dir::NW, false) => Sprite::Nw2,
            (Dir::SE, true) => Sprite::Se1,
            (Dir::SE, false) => Sprite::Se2,
            (Dir::SW, true) => Sprite::Sw1,
            (Dir::SW, false) => Sprite::Sw2,
        },
    }
}

/// A moving cat's picture tells its direction and frame apart: two different
/// (direction, frame) pairs never share a walking sprite, and no walking
/// sprite is one of the resting ones.
pub proof fn lemma_walk_sprites_distinct(d1: Dir, f1: bool, d2: Dir, f2: bool, t: u32)
    ensures
        walk_sprite(d1, f1) == walk_sprite(d2, f2) ==> d1 == d2 && f1 == f2,
        walk_sprite(d1, f1) != spec_select_sprite(CatState::Sitting, d2, f2, t),
        walk_sprite(d1, f1) != spec_select_sprite(CatState::Washing, d2, f2, t),
        walk_sprite(d1, f1) != spec_select_sprite(CatState::Sleeping, d2, f2, t),
{
}

/// A sleeping cat's picture depends only on the tick count, not on direction
/// or frame; it holds for four ticks and then changes.
pub proof fn lemma_sleep_animation(dir1: Dir, f1: bool, dir2: Dir, f2: bool, t: u32)
    ensures
        spec_select_sprite(CatState::Sleeping, dir1, f1, t) == spec_select_sprite(
            CatState::Sleeping,
            dir2,
            f2,
            t,
        ),
        spec_select_sprite(CatState::Sleeping, dir1, f1, t) == spec_select_sprite(
            CatState::Sleeping,
            dir1,
            f1,
            (t - t % 4) as u32,
        ),
        t <= u32::MAX - 4 ==> spec_select_sprite(CatState::Sleeping, dir1, f1, t)
            != spec_select_sprite(CatState::Sleeping, dir1, f1, (t + 4) as u32),
{
    if t <= u32::MAX - 4 {
        assert(((t + 4) as u32) / 4 == t / 4 + 1);
    }
    assert(((t - t % 4) as u32) / 4 == t / 4);
}

// ---------------------------------------------------------------------------
// Choosing what to do next
// ---------------------------------------------------------------------------

/// The action the cat takes up when its current one runs out, with the number
/// of ticks it lasts, drawn from a pseudo-random `time`. With `r = time % 100`:
/// a wandering cat sits down (r < 30) or walks on; a sitting cat washes
/// (r < 30), walks (r < 60) or keeps sitting; a washing cat falls asleep
/// (r < 50), sits (r < 70) or walks; a sleeping cat wakes up and sits
/// (r < 20) or sleeps on. A walk goes in direction `time % 8` (clockwise from
/// north) for `15 + time % 15` ticks; sitting and washing last 20 ticks,
/// sleeping 40.
pub open spec fn spec_next_action(action: PetAction, time: u32) -> (PetAction, u32) {
    let r = time % 100;
    let walk = (PetAction::Wandering(spec_dir_at((time % 8) as int)), (15 + time % 15) as u32);
    match action {
        PetAction::Wandering(_) => if r < 30 {
            (PetAction::Sitting, 20)
        } else {
            walk
        },
        PetAction::Sitting => if r < 30 {
            (PetAction::Washing, 20)
        } else if r < 60 {
            walk
        } else {
            (PetAction::Sitting, 20)
        },
        PetAction::Washing => if r < 50 {
            (PetAction::Sleeping, 40)
        } else if r < 70 {
            (PetAction::Sitting, 20)
        } else {
            walk
        },
        PetAction::Sleeping => if r < 20 {
            (PetAction::Sitting, 20)
        } else {
            (PetAction::Sleeping, 40)
        },
    }
}

fn random_walk(time: u32) -> (r: (PetAction, u32))
    ensures
        r == (PetAction::Wandering(spec_dir_at((time % 8) as int)), (15 + time % 15) as u32),
{
    (PetAction::Wandering(dir_at(time % 8)), 15 + (time % 15))
}

/// The action that follows `action` and how many ticks it lasts, for the
/// pseudo-random value `time`.
pub fn next_action(action: PetAction, time: u32) -> (r: (PetAction, u32))
    ensures
        r == spec_next_action(action, time),
{
    let rand = time % 100;
    match action {
        PetAction::Wandering(_) => {
            if rand < 30 {
                (PetAction::Sitting, 20)
            } else {
                random_walk(time)
            }
        },
        PetAction::Sitting => {
            if rand < 30 {
                (PetAction::Washing, 20)
            } else if rand < 60 {
                random_walk(time)
            } else {
                (PetAction::Sitting, 20)
            }
        },
        PetAction::Washing => {
            if rand < 50 {
                (PetAction::Sleeping, 40)
            } else if rand < 70 {
                (PetAction::Sitting, 20)
            } else {
                random_walk(time)
            }
        },
        PetAction::Sleeping => {
            if rand < 20 {
                (PetAction::Sitting, 20)
            } else {
                (PetAction::Sleeping, 40)
            }
        },
    }
}

/// The order of the cat's habits: it only washes after sitting, only falls
/// asleep after washing (or sleeps on), always sits when it wakes up, and
/// every action lasts between 15 and 40 ticks.
pub proof fn lemma_habits(action: PetAction, time: u32)
    ensures
        spec_next_action(action, time).0 == PetAction::Washing ==> action == PetAction::Sitting,
        spec_next_action(action, time).0 == PetAction::Sleeping ==> action == PetAction::Washing
            || action == PetAction::Sleeping,
        action == PetAction::Sleeping ==> spec_next_action(action, time).0 == PetAction::Sitting
            || spec_next_action(action, time).0 == PetAction::Sleeping,
        15 <= spec_next_action(action, time).1 <= 40,
{
}

// ---------------------------------------------------------------------------
// The cat's own state
// ---------------------------------------------------------------------------

/// Number of ticks the cat rests after reaching its target.
pub const ARRIVAL_REST_TICKS: u32 = 160;

/// Number of ticks between two looks for a ledge.
pub const LEDGE_SCAN_TICKS: u32 = 480;

/// The cat's state apart from its position and target: where it looks, its
/// animation frame, its current action and the ticks left of it, whether the
/// mouse button is held, and the ticks until it next looks for a ledge.
#[derive(Clone, Copy, PartialEq, Eq, Structural, Debug)]
pub struct Pet {
    pub dir: Dir,
    pub frame: bool,
    pub action: PetAction,
    pub action_ticks: u32,
    pub mouse_down: bool,
    pub ledge_timer: u32,
}

/// The state a pet starts in: facing east, sitting, about to pick an action.
pub open spec fn spec_new_pet() -> Pet {
    Pet {
        dir: Dir::E,
        frame: false,
        action: PetAction::Sitting,
        action_ticks: 0,
        mouse_down: false,
        ledge_timer: LEDGE_SCAN_TICKS,
    }
}

/// One tick of a cat that chases nothing: when its action has run out it
/// takes up the next one (and faces the way a walk goes), otherwise one tick
/// of the action passes.
pub open spec fn spec_idle_step(p: Pet, time: u32) -> Pet {
    if p.action_ticks == 0 {
        let (a, t) = spec_next_action(p.action, time);
        Pet {
            action: a,
            action_ticks: t,
            dir: match a {
                PetAction::Wandering(d) => d,
                _ => p.dir,
            },
            ..p
        }
    } else {
        Pet { action_ticks: (p.action_ticks - 1) as u32, ..p }
    }
}

/// The cat after reaching its target with the button up: it sits down and
/// rests.
pub open spec fn spec_arrive(p: Pet) -> Pet {
    Pet { action: PetAction::Sitting, action_ticks: ARRIVAL_REST_TICKS, ..p }
}

/// The state the cat shows: a chasing or walking cat runs, any other shows
/// its action.
pub open spec fn spec_state(action: PetAction, chasing: bool) -> CatState {
    if chasing {
        CatState::Chasing
    } else {
        match action {
            PetAction::Sitting => CatState::Sitting,
            PetAction::Washing => CatState::Washing,
            PetAction::Sleeping => CatState::Sleeping,
            PetAction::Wandering(_) => CatState::Chasing,
        }
    }
}

/// A look for a ledge is due: the button is up and the count has run out.
pub open spec fn spec_ledge_scan_due(p: Pet) -> bool {
    !p.mouse_down && p.ledge_timer == 0
}

/// The ledge count after one tick: it stands still while the button is
/// held, restarts after a look, and otherwise counts down.
pub open spec fn spec_ledge_tick(p: Pet) -> Pet {
    Pet {
        ledge_timer: if p.mouse_down {
            p.ledge_timer
        } else if p.ledge_timer == 0 {
            LEDGE_SCAN_TICKS
        } else {
            (p.ledge_timer - 1) as u32
        },
        ..p
    }
}

/// `n` ticks of the ledge count.
pub open spec fn ledge_ticks(p: Pet, n: nat) -> Pet
    decreases n,
{
    if n == 0 {
        p
    } else {
        spec_ledge_tick(ledge_ticks(p, (n - 1) as nat))
    }
}

/// `n` idle ticks in a row, with the pseudo-random values `times`.
pub open spec fn idle_steps(p: Pet, times: Seq<u32>) -> Pet
    decreases times.len(),
{
    if times.len() == 0 {
        p
    } else {
        spec_idle_step(idle_steps(p, times.drop_last()), times.last())
    }
}

impl Pet {
    pub fn new() -> (p: Pet)
        ensures
            p == spec_new_pet(),
    {
        Pet {
            dir: Dir::E,
            frame: false,
            action: PetAction::Sitting,
            action_ticks: 0,
            mouse_down: false,
            ledge_timer: LEDGE_SCAN_TICKS,
        }
    }

    /// Advances the two-frame animation.
    pub fn next_frame(&mut self)
        ensures
            *final(self) == (Pet { frame: !old(self).frame, ..*old(self) }),
    {
        self.frame = !self.frame;
    }

    /// The mouse button went down on the cat: it stops to sit and picks a new
    /// action on its next idle tick.
    pub fn press(&mut self)
        ensures
            *final(self) == (Pet {
                mouse_down: true,
                action: PetAction::Sitting,
                action_ticks: 0,
                ..*old(self)
            }),
    {
        self.mouse_down = true;
        self.action = PetAction::Sitting;
        self.action_ticks = 0;
    }

    /// The mouse button went up.
    pub fn release(&mut self)
        ensures
            *final(self) == (Pet { mouse_down: false, ..*old(self) }),
    {
        self.mouse_down = false;
    }

    /// Counts down to the next look for a ledge while the button is up;
    /// returns whether to look now, and then restarts the count.
    pub fn ledge_scan_due(&mut self) -> (due: bool)
        ensures
            due == spec_ledge_scan_due(*old(self)),
            *final(self) == spec_ledge_tick(*old(self)),
    {
        if !self.mouse_down {
            if self.ledge_timer == 0 {
                self.ledge_timer = LEDGE_SCAN_TICKS;
                true
            } else {
                self.ledge_timer -= 1;
                false
            }
        } else {
            false
        }
    }

    /// The cat is close to its target (`close`): if the button is up it stops
    /// chasing, sits down and rests; returns whether it did.
    pub fn arrive_if_close(&mut self, close: bool) -> (arrived: bool)
        ensures
            arrived == (close && !old(self).mouse_down),
            *final(self) == if arrived {
                spec_arrive(*old(self))
            } else {
                *old(self)
            },
    {
        if close && !self.mouse_down {
            self.action = PetAction::Sitting;
            self.action_ticks = ARRIVAL_REST_TICKS;
            true
        } else {
            false
        }
    }

    /// One tick of a cat that chases nothing; `time` is the pseudo-random
    /// value used if a new action has to be picked.
    pub fn idle_step(&mut self, time: u32)
        ensures
            *final(self) == spec_idle_step(*old(self), time),
    {
        if self.action_ticks == 0 {
            let (a, t) = next_action(self.action, time);
            self.action = a;
            self.action_ticks = t;
            if let PetAction::Wandering(d) = a {
                self.dir = d;
            }
        } else {
            self.action_ticks -= 1;
        }
    }

    /// A walk ran into the edge of the screen: a new action is picked on the
    /// next idle tick.
    pub fn hit_edge(&mut self)
        ensures
            *final(self) == (Pet { action_ticks: 0, ..*old(self) }),
    {
        self.action_ticks = 0;
    }

    /// The state the cat shows, given whether it is chasing a target.
    pub fn state(&self, chasing: bool) -> (s: CatState)
        ensures
            s == spec_state(self.action, chasing),
    {
        if chasing {
            CatState::Chasing
        } else {
            match self.action {
                PetAction::Sitting => CatState::Sitting,
                PetAction::Washing => CatState::Washing,
                PetAction::Sleeping => CatState::Sleeping,
                PetAction::Wandering(_) => CatState::Chasing,
            }
        }
    }
}

/// Having reached its target, the cat sits through the next 160 idle ticks
/// whatever the pseudo-random values, and picks a new action only on the
/// tick after those.
pub proof fn lemma_rest_after_arrival(p: Pet, times: Seq<u32>)
    requires
        times.len() <= ARRIVAL_REST_TICKS,
    ensures
        idle_steps(spec_arrive(p), times).action == PetAction::Sitting,
        idle_steps(spec_arrive(p), times).action_ticks == ARRIVAL_REST_TICKS - times.len(),
        idle_steps(spec_arrive(p), times).dir == p.dir,
    decreases times.len(),
{
    if times.len() > 0 {
        lemma_rest_after_arrival(p, times.drop_last());
    }
}

/// With the button up, the cat looks for a ledge once every 481 ticks: after
/// a look, the next 480 ticks are not due and the one after them is.
pub proof fn lemma_ledge_scan_period(p: Pet, k: nat)
    requires
        spec_ledge_scan_due(p),
        k <= LEDGE_SCAN_TICKS,
    ensures
        ledge_ticks(spec_ledge_tick(p), k).ledge_timer == LEDGE_SCAN_TICKS - k,
        ledge_ticks(spec_ledge_tick(p), k).mouse_down == p.mouse_down,
        spec_ledge_scan_due(ledge_ticks(spec_ledge_tick(p), k)) <==> k == LEDGE_SCAN_TICKS,
    decreases k,
{
    if k > 0 {
        lemma_ledge_scan_period(p, (k - 1) as nat);
    }
}

/// After a press the cat's next idle tick picks what follows sitting, and it
/// faces the way it then walks, if it walks.
pub proof fn lemma_press_then_idle(p: Pet, time: u32)
    ensures
        ({
            let pressed = Pet {
                mouse_down: true,
                action: PetAction::Sitting,
                action_ticks: 0,
                ..p
            };
            let q = spec_idle_step(pressed, time);
            &&& q.action == spec_next_action(PetAction::Sitting, time).0
            &&& q.action_ticks == spec_next_action(PetAction::Sitting, time).1
            &&& (q.action matches PetAction::Wandering(d) ==> q.dir == d)
        }),
{
}

// ---------------------------------------------------------------------------
// Laws stated on what the operations produce
// ---------------------------------------------------------------------------

/// Position of a direction going clockwise from north (north is 0).
pub open spec fn clockwise_index(d: Dir) -> int {
    match d {
        Dir::N => 0,
        Dir::NE => 1,
        Dir::E => 2,
        Dir::SE => 3,
        Dir::S => 4,
        Dir::SW => 5,
        Dir::W => 6,
        Dir::NW => 7,
    }
}

/// `a` is a walk in the direction `time % 8` (clockwise from north) lasting
/// `15 + time % 15` ticks.
pub open spec fn is_random_walk(a: (PetAction, u32), time: u32) -> bool {
    &&& a.0 matches PetAction::Wandering(d) && clockwise_index(d) == time % 8
    &&& a.1 == 15 + time % 15
}

/// What follows each action, by the value `r = time % 100`: a wandering cat
/// sits for 20 ticks when r < 30 and otherwise walks on; a sitting cat washes
/// for 20 ticks when r < 30, walks when 30 <= r < 60 and otherwise sits for
/// 20 more; a washing cat sleeps for 40 ticks when r < 50, sits for 20 when
/// 50 <= r < 70 and otherwise walks; a sleeping cat sits for 20 when r < 20
/// and otherwise sleeps 40 more. Every walk goes in direction `time % 8`
/// clockwise from north for `15 + time % 15` ticks.
pub proof fn lemma_next_action_choices(action: PetAction, time: u32)
    ensures
        ({
            let r = time % 100;
            let n = spec_next_action(action, time);
            &&& action is Wandering ==> (r < 30 ==> n == (PetAction::Sitting, 20u32)) && (r >= 30
                ==> is_random_walk(n, time))
            &&& action is Sitting ==> (r < 30 ==> n == (PetAction::Washing, 20u32)) && (30 <= r < 60
                ==> is_random_walk(n, time)) && (r >= 60 ==> n == (PetAction::Sitting, 20u32))
            &&& action is Washing ==> (r < 50 ==> n == (PetAction::Sleeping, 40u32)) && (50 <= r
                < 70 ==> n == (PetAction::Sitting, 20u32)) && (r >= 70 ==> is_random_walk(n, time))
            &&& action is Sleeping ==> (r < 20 ==> n == (PetAction::Sitting, 20u32)) && (r >= 20
                ==> n == (PetAction::Sleeping, 40u32))
        }),
{
    let k = time % 8;
    assert(0 <= k < 8);
}

/// An idle tick while the current action lasts only counts it down: the
/// action, the direction and everything else stay, and the count drops by
/// exactly one. When it has run out, the tick takes up what follows the
/// action, and the cat faces the way a new walk goes (its direction stays
/// otherwise).
pub proof fn lemma_idle_tick(p: Pet, time: u32)
    ensures
        p.action_ticks > 0 ==> {
            let q = spec_idle_step(p, time);
            &&& q.action == p.action
            &&& q.dir == p.dir
            &&& q.action_ticks + 1 == p.action_ticks
            &&& q.frame == p.frame
            &&& q.mouse_down == p.mouse_down
            &&& q.ledge_timer == p.ledge_timer
        },
        p.action_ticks == 0 ==> {
            let q = spec_idle_step(p, time);
            &&& (q.action, q.action_ticks) == spec_next_action(p.action, time)
            &&& q.dir == (match q.action {
                PetAction::Wandering(d) => d,
                _ => p.dir,
            })
            &&& q.frame == p.frame
            &&& q.mouse_down == p.mouse_down
            &&& q.ledge_timer == p.ledge_timer
        },
{
}

/// The way the cat faces: straight right or left when the offset is mostly
/// horizontal, straight down or up when it is mostly vertical, and otherwise
/// the diagonal toward the offset's side on each axis.
pub proof fn lemma_facing_choice(s: DeltaSigns)
    ensures
        s.mostly_horizontal ==> spec_dir_step(spec_dir_from_signs(s)) == (if s.right {
            (1int, 0int)
        } else {
            (-1int, 0int)
        }),
        !s.mostly_horizontal && s.mostly_vertical ==> spec_dir_step(spec_dir_from_signs(s)) == (
        0int,
        if s.down {
            1int
        } else {
            -1int
        },
        ),
        !s.mostly_horizontal && !s.mostly_vertical ==> spec_dir_step(spec_dir_from_signs(s)) == (
        if s.not_left {
            1int
        } else {
            -1int
        },
        if s.not_down {
            -1int
        } else {
            1int
        },
        ),
{
}

/// The direction a walking sprite shows.
pub open spec fn sprite_facing(s: Sprite) -> Option<Dir> {
    match s {
        Sprite::Right1 | Sprite::Right2 => Some(Dir::E),
        Sprite::Left1 | Sprite::Left2 => Some(Dir::W),
        Sprite::Up1 | Sprite::Up2 => Some(Dir::N),
        Sprite::Down1 | Sprite::Down2 => Some(Dir::S),
        Sprite::Ne1 | Sprite::Ne2 => Some(Dir::NE),
        Sprite::Nw1 | Sprite::Nw2 => Some(Dir::NW),
        Sprite::Se1 | Sprite::Se2 => Some(Dir::SE),
        Sprite::Sw1 | Sprite::Sw2 => Some(Dir::SW),
        _ => None,
    }
}

/// Whether a sprite is the first picture of its two-picture animation.
pub open spec fn sprite_first_picture(s: Sprite) -> bool {
    match s {
        Sprite::Washing1 | Sprite::Sleeping1 | Sprite::Right1 | Sprite::Left1 | Sprite::Up1
        | Sprite::Down1 | Sprite::Ne1 | Sprite::Nw1 | Sprite::Se1 | Sprite::Sw1 => true,
        _ => false,
    }
}

/// What each state shows: a sitting cat always the sitting picture; a washing
/// cat the first washing picture exactly on the first frame, whatever its
/// direction and tick count; a sleeping cat the first sleeping picture
/// exactly when `action_ticks / 4` is even, whatever its direction and frame;
/// a moving cat a walking picture of its own direction, the first one exactly
/// on the first frame, whatever its tick count.
pub proof fn lemma_sprite_choice(state: CatState, dir: Dir, frame: bool, t: u32)
    ensures
        ({
            let s = spec_select_sprite(state, dir, frame, t);
            &&& state == CatState::Sitting ==> s == Sprite::Sitting
            &&& state == CatState::Washing ==> (s == Sprite::Washing1 || s == Sprite::Washing2) && (
            s == Sprite::Washing1 <==> frame)
            &&& state == CatState::Sleeping ==> (s == Sprite::Sleeping1 || s == Sprite::Sleeping2)
                && (s == Sprite::Sleeping1 <==> (t / 4) % 2 == 0)
            &&& state == CatState::Chasing ==> sprite_facing(s) == Some(dir) && (
            sprite_first_picture(s) <==> frame)
        }),
{
}

/// Steps of the compass: north is up `(0, -1)` and east is right `(1, 0)`
/// on screen, opposite directions step oppositely, and a diagonal is the sum
/// of the two straight directions beside it.
pub proof fn lemma_compass_steps(d: Dir)
    ensures
        spec_dir_step(Dir::N) == (0int, -1int),
        spec_dir_step(Dir::E) == (1int, 0int),
        ({
            let (x, y) = spec_dir_step(d);
            &&& (x, y) != (0int, 0int)
            &&& -1 <= x <= 1 && -1 <= y <= 1
        }),
        forall|a: Dir, b: Dir|
            (clockwise_index(a) + 4) % 8 == clockwise_index(b) ==> spec_dir_step(a).0
                == -spec_dir_step(b).0 && spec_dir_step(a).1 == -spec_dir_step(b).1,
        forall|a: Dir, l: Dir, r: Dir|
            clockwise_index(a) % 2 == 1 && clockwise_index(l) == clockwise_index(a) - 1
                && clockwise_index(r) == (clockwise_index(a) + 1) % 8 ==> spec_dir_step(a).0
                == spec_dir_step(l).0 + spec_dir_step(r).0 && spec_dir_step(a).1 == spec_dir_step(
                l,
            ).1 + spec_dir_step(r).1,
        forall|a: Dir, b: Dir| #[trigger] spec_dir_step(a) == #[trigger] spec_dir_step(b) ==> a == b,
{
}

/// The state the cat shows: running whenever it chases a target or walks,
/// and otherwise the picture of its action.
pub proof fn lemma_shown_state(action: PetAction, chasing: bool)
    ensures
        chasing ==> spec_state(action, chasing) == CatState::Chasing,
        !chasing ==> (spec_state(action, chasing) == CatState::Chasing <==> action is Wandering),
        !chasing && action == PetAction::Sitting ==> spec_state(action, chasing) == CatState::Sitting,
        !chasing && action == PetAction::Washing ==> spec_state(action, chasing) == CatState::Washing,
        !chasing && action == PetAction::Sleeping ==> spec_state(action, chasing)
            == CatState::Sleeping,
{
}

/// Arriving changes only the action, to sitting, and its count, to the rest
/// of 160 ticks.
pub proof fn lemma_arrival(p: Pet)
    ensures
        spec_arrive(p).action == PetAction::Sitting,
        spec_arrive(p).action_ticks == 160,
        spec_arrive(p).dir == p.dir,
        spec_arrive(p).frame == p.frame,
        spec_arrive(p).mouse_down == p.mouse_down,
        spec_arrive(p).ledge_timer == p.ledge_timer,
{
}

} // verus!
