//! The player controller: continuous motion against the collision world's
//! contact probes, and a discrete state machine whose states may run one
//! background task each.
use vstd::prelude::*;
use crate::geom::Vec2i;

verus! {

/// Speed added per frame on each axis while a direction is held, in pixels per second.
pub const MOVE_SPEED: i64 = 10;

/// Largest speed on either axis, in pixels per second.
pub const MAX_SPEED: i64 = 400;

/// How long the shoot task waits before the player may fire again, in microseconds.
pub const SHOOT_COOLDOWN: u64 = 250_000;

/// Where the player starts, in sub-pixels.
pub const START_X: i64 = 100_000_000;

/// Where the player starts, in sub-pixels.
pub const START_Y: i64 = 100_000_000;

/// The discrete modes of the player.
#[derive(Clone, Copy, Debug, PartialEq, Eq, Structural)]
pub enum PlayerState {
    Normal,
    Death,
    Shoot,
    Aftermath,
}

/// What a background task does when it resumes.
#[derive(Clone, Copy, Debug, PartialEq, Eq, Structural)]
pub enum TaskKind {
    /// Performs the shot's effect and returns the player to `Normal`.
    Shoot,
    /// Marks the player dead.
    Death,
}

/// A suspended background task: it resumes once `wait` more microseconds have
/// passed at the frame boundaries.
#[derive(Clone, Copy, Debug, PartialEq, Eq, Structural)]
pub struct Task {
    pub kind: TaskKind,
    pub wait: u64,
}

/// The movement and fire keys held during a frame.
#[derive(Clone, Copy, Debug, PartialEq, Eq, Structural)]
pub struct Input {
    pub up: bool,
    pub down: bool,
    pub left: bool,
    pub right: bool,
    pub fire: bool,
}

/// Whether the player's collider touches solid ground one pixel away on each side.
#[derive(Clone, Copy, Debug, PartialEq, Eq, Structural)]
pub struct Contacts {
    pub top: bool,
    pub bottom: bool,
    pub left: bool,
    pub right: bool,
}

/// What a frame of the player asks of the world: move the collider by `dx`, then
/// by `dy` (in sub-pixels), and fire a projectile if `fire`.
#[derive(Clone, Copy, Debug, PartialEq, Eq, Structural)]
pub struct PlayerAction {
    pub dx: i64,
    pub dy: i64,
    pub fire: bool,
}

/// The player: where its collider stood at the start of the last update, its
/// speed in pixels per second, its facing, and its discrete state.
pub struct Player {
    pub speed: Vec2i,
    /// Facing right when true.
    pub flip: bool,
    pub pos: Vec2i,
    pub state: PlayerState,
    pub dead: bool,
    pub task: Option<Task>,
}

/// The task that entering `s` starts, if any.
pub open spec fn entry_task(s: PlayerState) -> Option<Task> {
    match s {
        PlayerState::Shoot => Some(Task { kind: TaskKind::Shoot, wait: SHOOT_COOLDOWN }),
        PlayerState::Death => Some(Task { kind: TaskKind::Death, wait: 0 }),
        _ => None,
    }
}

/// `v` limited to the speed cap.
pub open spec fn capped(v: int) -> int {
    if v > MAX_SPEED {
        MAX_SPEED as int
    } else if v < -MAX_SPEED {
        -MAX_SPEED
    } else {
        v
    }
}

/// The new speed on one axis: zero if either side of the axis is blocked, then
/// one step towards each held direction that is not blocked, within the cap.
pub open spec fn axis_speed(
    v: int,
    neg_held: bool,
    neg_blocked: bool,
    pos_held: bool,
    pos_blocked: bool,
) -> int {
    let v0 = if neg_blocked || pos_blocked {
        0
    } else {
        v
    };
    let v1 = if neg_held && !neg_blocked {
        v0 - MOVE_SPEED
    } else {
        v0
    };
    let v2 = if pos_held && !pos_blocked {
        v1 + MOVE_SPEED
    } else {
        v1
    };
    capped(v2)
}

/// The speed after a frame of input `i` against contacts `c`.
pub open spec fn moved_speed(v: Vec2i, i: Input, c: Contacts) -> Vec2i {
    Vec2i {
        x: axis_speed(v.x as int, i.left, c.left, i.right, c.right) as i64,
        y: axis_speed(v.y as int, i.up, c.top, i.down, c.bottom) as i64,
    }
}

/// The facing after a frame of input `i`: the last of left and right held wins.
pub open spec fn moved_flip(flip: bool, i: Input) -> bool {
    if i.right {
        true
    } else if i.left {
        false
    } else {
        flip
    }
}

impl Player {
    /// Speeds within the cap, the position in bounds, and the state, the dead flag
    /// and the task in agreement: a task is the one its state started, and the
    /// dead flag is set only in `Death` (after the death task ran) or `Aftermath`.
    pub open spec fn wf(&self) -> bool {
        &&& -MAX_SPEED <= self.speed.x <= MAX_SPEED
        &&& -MAX_SPEED <= self.speed.y <= MAX_SPEED
        &&& self.pos.in_bounds()
        &&& match self.state {
            PlayerState::Normal => !self.dead && self.task is None,
            PlayerState::Shoot => !self.dead && (self.task matches Some(t) && t.kind
                == TaskKind::Shoot),
            PlayerState::Death => if self.dead {
                self.task is None
            } else {
                (self.task matches Some(t) && t.kind == TaskKind::Death)
            },
            PlayerState::Aftermath => self.dead && self.task is None,
        }
    }

    /// The player after one frame's update with input `i`, contacts `c` and the
    /// collider at `at`.
    pub open spec fn stepped(self, i: Input, c: Contacts, at: Vec2i) -> Player {
        if self.dead {
            Player {
                state: PlayerState::Aftermath,
                task: None,
                speed: Vec2i { x: 0, y: self.speed.y },
                ..self
            }
        } else {
            let fires = i.fire && self.state == PlayerState::Normal;
            Player {
                pos: at,
                speed: moved_speed(self.speed, i, c),
                flip: moved_flip(self.flip, i),
                state: if fires {
                    PlayerState::Shoot
                } else {
                    self.state
                },
                task: if fires {
                    entry_task(PlayerState::Shoot)
                } else {
                    self.task
                },
                ..self
            }
        }
    }

    /// What one frame's update asks of the world.
    pub open spec fn action(self, i: Input, c: Contacts, dt: int) -> PlayerAction {
        if self.dead {
            PlayerAction { dx: 0, dy: 0, fire: false }
        } else {
            let v = moved_speed(self.speed, i, c);
            PlayerAction {
                dx: (v.x * dt) as i64,
                dy: (v.y * dt) as i64,
                fire: i.fire && self.state == PlayerState::Normal,
            }
        }
    }

    /// The player after its task is resumed at a frame boundary `dt` microseconds
    /// after the previous one.
    pub open spec fn resumed(self, dt: int) -> Player {
        match self.task {
            None => self,
            Some(t) => match t.kind {
                TaskKind::Shoot => if t.wait <= dt {
                    Player { state: PlayerState::Normal, task: None, ..self }
                } else {
                    Player { task: Some(Task { wait: (t.wait - dt) as u64, ..t }), ..self }
                },
                TaskKind::Death => Player { dead: true, task: None, ..self },
            },
        }
    }

    /// The player after a kill request.
    pub open spec fn killed(self) -> Player {
        if self.state == PlayerState::Normal || self.state == PlayerState::Shoot {
            Player { state: PlayerState::Death, task: entry_task(PlayerState::Death), ..self }
        } else {
            self
        }
    }

    /// A new player at the start position, at rest, facing right, in `Normal`.
    pub fn new() -> (r: Player)
        ensures
            r.wf(),
            r.pos == (Vec2i { x: START_X, y: START_Y }),
            r.speed == (Vec2i { x: 0, y: 0 }),
            r.flip,
            r.state == PlayerState::Normal,
            !r.dead,
            r.task is None,
    {
        Player {
            pos: Vec2i { x: START_X, y: START_Y },
            speed: Vec2i { x: 0, y: 0 },
            flip: true,
            state: PlayerState::Normal,
            dead: false,
            task: None,
        }
    }

    /// Per-frame work of `Normal`: none beyond the movement.
    pub fn update_normal(&mut self, _dt: u32)
        ensures
            *final(self) == *old(self),
    {
    }

    /// Per-frame work of `Shoot`: none beyond the movement.
    pub fn update_shoot(&mut self, _dt: u32)
        ensures
            *final(self) == *old(self),
    {
    }

    /// Per-frame work of `Aftermath`: the horizontal speed is held at zero.
    pub fn update_aftermatch(&mut self, _dt: u32)
        ensures
            *final(self) == (Player { speed: Vec2i { x: 0, y: old(self).speed.y }, ..*old(self) }),
    {
        self.speed.x = 0;
    }

    /// The task that entering `Shoot` starts.
    pub fn shoot_coroutine(&self) -> (r: Task)
        ensures
            Some(r) == entry_task(PlayerState::Shoot),
    {
        Task { kind: TaskKind::Shoot, wait: SHOOT_COOLDOWN }
    }

    /// The task that entering `Death` starts.
    pub fn death_coroutine(&self) -> (r: Task)
        ensures
            Some(r) == entry_task(PlayerState::Death),
    {
        Task { kind: TaskKind::Death, wait: 0 }
    }

    pub fn get_pos(&self) -> (r: Vec2i)
        ensures
            r == self.pos,
    {
        self.pos
    }

    pub fn set_pos(&mut self, pos: &Vec2i)
        requires
            pos.in_bounds(),
        ensures
            *final(self) == (Player { pos: *pos, ..*old(self) }),
    {
        self.pos = *pos;
    }

    /// A kill request: from `Normal` or `Shoot` the player enters `Death`, which
    /// starts the death task; in `Death` or `Aftermath` nothing changes.
    pub fn kill(&mut self, _direction: bool)
        requires
            old(self).wf(),
        ensures
            final(self).wf(),
            *final(self) == old(self).killed(),
    {
        if self.state == PlayerState::Normal || self.state == PlayerState::Shoot {
            self.state = PlayerState::Death;
            self.task = Some(self.death_coroutine());
        }
    }

    /// One frame's update. A dead player enters `Aftermath`, holds its horizontal
    /// speed at zero and asks for nothing. Otherwise the position is taken from
    /// the collider at `at`; on each axis the speed is zeroed if either side is in
    /// contact, then stepped towards each held direction that is free, within the
    /// cap; fire in `Normal` enters `Shoot` and asks for a projectile; and the
    /// collider is asked to move by the speed over `dt` microseconds.
    pub fn update(&mut self, input: Input, contacts: Contacts, at: Vec2i, dt: u32) -> (act:
        PlayerAction)
        requires
            old(self).wf(),
            at.in_bounds(),
        ensures
            final(self).wf(),
            *final(self) == old(self).stepped(input, contacts, at),
            act == old(self).action(input, contacts, dt as int),
            contacts.left ==> act.dx >= 0,
            contacts.right ==> act.dx <= 0,
            contacts.top ==> act.dy >= 0,
            contacts.bottom ==> act.dy <= 0,
    {
        let mut act = PlayerAction { dx: 0, dy: 0, fire: false };
        if self.dead {
            self.state = PlayerState::Aftermath;
            self.task = None;
        } else {
            self.set_pos(&at);
            if contacts.bottom || contacts.top {
                self.speed.y = 0;
            }
            if contacts.left || contacts.right {
                self.speed.x = 0;
            }
            if input.up && !contacts.top {
                self.speed.y = self.speed.y - MOVE_SPEED;
            }
            if input.down && !contacts.bottom {
                self.speed.y = self.speed.y + MOVE_SPEED;
            }
            if input.left {
                self.flip = false;
                if !contacts.left {
                    self.speed.x = self.speed.x - MOVE_SPEED;
                }
            }
            if input.right {
                self.flip = true;
                if !contacts.right {
                    self.speed.x = self.speed.x + MOVE_SPEED;
                }
            }
            self.speed.x = cap(self.speed.x);
            self.speed.y = cap(self.speed.y);
            if input.fire && self.state == PlayerState::Normal {
                self.state = PlayerState::Shoot;
                self.task = Some(self.shoot_coroutine());
                act.fire = true;
            }
            let d = dt as i64;
            proof {
                lemma_step_bounded(self.speed.x as int, d as int);
                lemma_step_bounded(self.speed.y as int, d as int);
            }
            act.dx = self.speed.x * d;
            act.dy = self.speed.y * d;
        }
        if self.state == PlayerState::Aftermath {
            self.update_aftermatch(dt);
        }
        act
    }

    /// Resumes the player's task at a frame boundary, `dt` microseconds after the
    /// previous one, and returns the kind of the task if it ran to completion:
    /// the shoot task once its wait has passed returns the player to `Normal`; the
    /// death task marks the player dead.
    pub fn resume_task(&mut self, dt: u32) -> (done: Option<TaskKind>)
        requires
            old(self).wf(),
        ensures
            final(self).wf(),
            *final(self) == old(self).resumed(dt as int),
            done == (match old(self).task {
                Some(t) => if t.kind == TaskKind::Death || t.wait <= dt {
                    Some(t.kind)
                } else {
                    None
                },
                None => None,
            }),
    {
        match self.task {
            None => None,
            Some(t) => match t.kind {
                TaskKind::Shoot => {
                    if t.wait <= dt as u64 {
                        self.state = PlayerState::Normal;
                        self.task = None;
                        Some(TaskKind::Shoot)
                    } else {
                        self.task = Some(Task { kind: t.kind, wait: t.wait - dt as u64 });
                        None
                    }
                },
                TaskKind::Death => {
                    self.dead = true;
                    self.task = None;
                    Some(TaskKind::Death)
                },
            },
        }
    }
}

/// `v` limited to the speed cap.
fn cap(v: i64) -> (r: i64)
    ensures
        r == capped(v as int),
{
    if v > MAX_SPEED {
        MAX_SPEED
    } else if v < -MAX_SPEED {
        -MAX_SPEED
    } else {
        v
    }
}

proof fn lemma_step_bounded(v: int, d: int)
    requires
        -MAX_SPEED <= v <= MAX_SPEED,
        0 <= d <= u32::MAX,
    ensures
        -MAX_SPEED * u32::MAX <= v * d <= MAX_SPEED * u32::MAX,
        v >= 0 ==> v * d >= 0,
        v <= 0 ==> v * d <= 0,
{
    assert(-MAX_SPEED * u32::MAX <= v * d <= MAX_SPEED * u32::MAX) by (nonlinear_arith)
        requires
            -MAX_SPEED <= v <= MAX_SPEED,
            0 <= d <= u32::MAX,
    ;
    assert(v >= 0 ==> v * d >= 0) by (nonlinear_arith)
        requires
            0 <= d,
    ;
    assert(v <= 0 ==> v * d <= 0) by (nonlinear_arith)
        requires
            0 <= d,
    ;
}

/// The outside facts of one frame: the keys, the contacts, where the collision
/// world holds the collider, and the frame's length in microseconds.
#[derive(Clone, Copy, Debug, PartialEq, Eq, Structural)]
pub struct Frame {
    pub input: Input,
    pub contacts: Contacts,
    pub at: Vec2i,
    pub dt: u32,
}

/// The player after the frames `fs`, each an update followed by the task's
/// resumption at the frame boundary.
pub open spec fn run(p: Player, fs: Seq<Frame>) -> Player
    decreases fs.len(),
{
    if fs.len() == 0 {
        p
    } else {
        run(p.stepped(fs[0].input, fs[0].contacts, fs[0].at).resumed(fs[0].dt as int), fs.skip(1))
    }
}

/// The total length of the frames `fs`, in microseconds.
pub open spec fn total_time(fs: Seq<Frame>) -> int
    decreases fs.len(),
{
    if fs.len() == 0 {
        0
    } else {
        fs[0].dt + total_time(fs.skip(1))
    }
}

/// In `Normal`, a fire input enters `Shoot`, starts the shoot task and asks for
/// a projectile.
pub proof fn lemma_fire_enters_shoot(p: Player, i: Input, c: Contacts, at: Vec2i, dt: int)
    requires
        p.wf(),
        p.state == PlayerState::Normal,
        i.fire,
    ensures
        p.stepped(i, c, at).state == PlayerState::Shoot,
        p.stepped(i, c, at).task == Some(Task { kind: TaskKind::Shoot, wait: SHOOT_COOLDOWN }),
        p.action(i, c, dt).fire,
{
}

/// In `Shoot`, once the frames have lasted as long as the shoot task waits, the
/// player has been back in `Normal` after some of them, whatever the input.
pub proof fn lemma_shoot_returns_to_normal(p: Player, fs: Seq<Frame>)
    requires
        p.wf(),
        p.state == PlayerState::Shoot,
        forall|j: int| 0 <= j < fs.len() ==> (#[trigger] fs[j]).at.in_bounds(),
        fs.len() > 0,
        total_time(fs) >= p.task->Some_0.wait,
    ensures
        exists|k: int| 0 < k <= fs.len() && (#[trigger] run(p, fs.take(k))).state == PlayerState::Normal,
    decreases fs.len(),
{
    let t = p.task->Some_0;
    if fs.len() == 0 {
        assert(total_time(fs) == 0);
    } else {
        let f = fs[0];
        let q = p.stepped(f.input, f.contacts, f.at).resumed(f.dt as int);
        assert(fs.take(1).skip(1) =~= Seq::<Frame>::empty());
        assert(run(p, fs.take(1)) == run(q, fs.take(1).skip(1)));
        if t.wait <= f.dt {
            assert(run(p, fs.take(1)).state == PlayerState::Normal);
            assert(0 < 1 <= fs.len() && run(p, fs.take(1)).state == PlayerState::Normal);
        } else {
            let rest = fs.skip(1);
            assert forall|j: int| 0 <= j < rest.len() implies (#[trigger] rest[j]).at.in_bounds() by {
                assert(rest[j] == fs[j + 1]);
            }
            assert(total_time(fs) == f.dt + total_time(rest));
            if rest.len() == 0 {
                assert(total_time(rest) == 0);
            }
            lemma_shoot_returns_to_normal(q, rest);
            let k = choose|k: int| 0 < k <= rest.len() && (#[trigger] run(q, rest.take(k))).state
                == PlayerState::Normal;
            assert(fs.take(k + 1).skip(1) =~= rest.take(k));
            assert(run(p, fs.take(k + 1)) == run(q, fs.take(k + 1).skip(1)));
            assert(0 < k + 1 <= fs.len() && run(p, fs.take(k + 1)).state == PlayerState::Normal);
        }
    }
}

/// A kill request in `Normal` or `Shoot` enters `Death`; the death task sets the
/// dead flag at the next frame boundary; and the update after that enters
/// `Aftermath` with no horizontal speed and asks for nothing.
pub proof fn lemma_kill_leads_to_aftermath(p: Player, dt: int, i: Input, c: Contacts, at: Vec2i, dt2: int)
    requires
        p.wf(),
        p.state == PlayerState::Normal || p.state == PlayerState::Shoot,
    ensures
        p.killed().state == PlayerState::Death,
        p.killed().resumed(dt).dead,
        p.killed().resumed(dt).stepped(i, c, at).state == PlayerState::Aftermath,
        p.killed().resumed(dt).stepped(i, c, at).speed.x == 0,
        p.killed().resumed(dt).action(i, c, dt2) == (PlayerAction { dx: 0, dy: 0, fire: false }),
{
}

/// Once in `Aftermath`, the player stays there with no horizontal speed after
/// any frames whatever.
pub proof fn lemma_aftermath_is_final(p: Player, fs: Seq<Frame>)
    requires
        p.wf(),
        p.state == PlayerState::Aftermath,
    ensures
        run(p, fs).state == PlayerState::Aftermath,
        run(p, fs).dead,
        fs.len() > 0 ==> run(p, fs).speed.x == 0,
    decreases fs.len(),
{
    if fs.len() > 0 {
        let f = fs[0];
        let q = p.stepped(f.input, f.contacts, f.at).resumed(f.dt as int);
        assert(q.wf());
        lemma_aftermath_is_final(q, fs.skip(1));
    }
}

/// The movement a frame asks for never points into a side on which the
/// collider touches solid ground.
pub proof fn lemma_no_push_into_contact(p: Player, i: Input, c: Contacts, dt: int)
    requires
        p.wf(),
        0 <= dt <= u32::MAX,
    ensures
        c.left ==> p.action(i, c, dt).dx >= 0,
        c.right ==> p.action(i, c, dt).dx <= 0,
        c.top ==> p.action(i, c, dt).dy >= 0,
        c.bottom ==> p.action(i, c, dt).dy <= 0,
{
    let v = moved_speed(p.speed, i, c);
    lemma_step_bounded(v.x as int, dt);
    lemma_step_bounded(v.y as int, dt);
}

} // verus!
