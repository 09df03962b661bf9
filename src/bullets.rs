//! The projectile manager: a compact collection of live projectiles that are
//! spawned by the player, advanced every frame and retired when they expire, hit
//! solid terrain or hit the player.
use vstd::prelude::*;
use crate::geom::{Vec2i, Rect, COORD_LIMIT};
use crate::handle::Handle;

verus! {

/// Horizontal offset from the player's position to the muzzle, in sub-pixels.
pub const MUZZLE_X: i64 = 16_000_000;

/// Vertical offset from the player's position to the muzzle, in sub-pixels.
pub const MUZZLE_Y: i64 = 30_000_000;

/// How far ahead of the muzzle, in the facing direction, a projectile appears.
pub const MUZZLE_DISTANCE: i64 = 32_000_000;

/// Speed of a projectile, in pixels per second.
pub const BULLET_SPEED: i64 = 100;

/// How long a projectile lives, in microseconds.
pub const BULLET_LIFETIME: u64 = 10_000_000;

/// Width of the player's hit box, in sub-pixels.
pub const HIT_WIDTH: i64 = 20_000_000;

/// Height of the player's hit box, in sub-pixels.
pub const HIT_HEIGHT: i64 = 64_000_000;

/// One projectile: where it is, how fast it goes, how long it has lived and how
/// long it may live.
#[derive(Clone, Copy, Debug, PartialEq, Eq, Structural)]
pub struct Bullet {
    pub pos: Vec2i,
    pub speed: Vec2i,
    pub lived: u64,
    pub lifetime: u64,
}

/// Farthest a projectile of the given age can be from the origin, per axis.
pub open spec fn reach(lived: int) -> int {
    COORD_LIMIT + MUZZLE_X + MUZZLE_DISTANCE + MUZZLE_Y + BULLET_SPEED * lived
}

impl Bullet {
    /// A projectile that is still alive: it flies horizontally at the fixed speed,
    /// has not reached its lifetime, and is no farther than its age allows.
    pub open spec fn wf(self) -> bool {
        &&& self.lifetime == BULLET_LIFETIME
        &&& self.lived < self.lifetime
        &&& self.speed.y == 0
        &&& (self.speed.x == BULLET_SPEED || self.speed.x == -BULLET_SPEED)
        &&& -reach(self.lived as int) <= self.pos.x <= reach(self.lived as int)
        &&& -reach(self.lived as int) <= self.pos.y <= reach(self.lived as int)
    }
}

/// The projectile that a shot from `origin` facing right (or left) creates.
pub open spec fn spawned(origin: Vec2i, facing: bool) -> Bullet {
    let dir: int = if facing { 1 } else { -1 };
    Bullet {
        pos: Vec2i {
            x: (origin.x + MUZZLE_X + dir * MUZZLE_DISTANCE) as i64,
            y: (origin.y + MUZZLE_Y) as i64,
        },
        speed: Vec2i { x: (dir * BULLET_SPEED) as i64, y: 0 },
        lived: 0,
        lifetime: BULLET_LIFETIME,
    }
}

/// A projectile moved by its speed over `dt` microseconds, and aged by `dt`.
pub open spec fn advanced(b: Bullet, dt: int) -> Bullet {
    Bullet {
        pos: Vec2i { x: (b.pos.x + b.speed.x * dt) as i64, y: (b.pos.y + b.speed.y * dt) as i64 },
        lived: (b.lived + dt) as u64,
        ..b
    }
}

/// A projectile whose age has reached its lifetime.
pub open spec fn expired(b: Bullet) -> bool {
    b.lived >= b.lifetime
}

/// The projectiles of `s` advanced by `dt`, without those that have expired, in order.
pub open spec fn survivors(s: Seq<Bullet>, dt: int) -> Seq<Bullet>
    decreases s.len(),
{
    if s.len() == 0 {
        Seq::empty()
    } else {
        let rest = survivors(s.drop_last(), dt);
        let b = advanced(s.last(), dt);
        if expired(b) {
            rest
        } else {
            rest.push(b)
        }
    }
}

/// The projectile lies in the player's hit box, where there is one.
pub open spec fn hits_player(b: Bullet, hitbox: Option<Rect>) -> bool {
    match hitbox {
        Some(r) => r.holds(b.pos),
        None => false,
    }
}

/// The projectile is to be removed: it lies in a solid cell or in the hit box.
pub open spec fn doomed(b: Bullet, solid: bool, hitbox: Option<Rect>) -> bool {
    solid || hits_player(b, hitbox)
}

/// Of the first `n` projectiles of `s`, those that are not doomed, in order;
/// `solid[i]` tells whether projectile `i` lies in a solid cell.
pub open spec fn kept(s: Seq<Bullet>, solid: Seq<bool>, hitbox: Option<Rect>, n: int) -> Seq<
    Bullet,
>
    decreases n,
{
    if n <= 0 {
        Seq::empty()
    } else {
        let rest = kept(s, solid, hitbox, n - 1);
        if doomed(s[n - 1], solid[n - 1], hitbox) {
            rest
        } else {
            rest.push(s[n - 1])
        }
    }
}

/// How many of the first `n` projectiles of `s` lie in the hit box.
pub open spec fn hit_count(s: Seq<Bullet>, hitbox: Option<Rect>, n: int) -> nat
    decreases n,
{
    if n <= 0 {
        0
    } else {
        hit_count(s, hitbox, n - 1) + if hits_player(s[n - 1], hitbox) {
            1nat
        } else {
            0nat
        }
    }
}

/// The hit box of a player standing at `pos`.
pub open spec fn hitbox_at(pos: Vec2i) -> Rect {
    Rect { x: pos.x, y: pos.y, w: HIT_WIDTH, h: HIT_HEIGHT }
}

/// The projectile manager: the live projectiles, oldest first, and the player
/// whose hit box they are tested against.
pub struct Bullets {
    player: Handle,
    bullets: Vec<Bullet>,
}

impl Bullets {
    /// The live projectiles, oldest first.
    pub closed spec fn view(&self) -> Seq<Bullet> {
        self.bullets@
    }

    /// The handle of the player whose hit box the projectiles are tested against.
    pub closed spec fn player_spec(&self) -> Handle {
        self.player
    }

    pub closed spec fn wf(&self) -> bool {
        forall|i: int| 0 <= i < self.bullets@.len() ==> (#[trigger] self.bullets@[i]).wf()
    }

    pub fn new(player: Handle) -> (r: Bullets)
        ensures
            r.wf(),
            r@ == Seq::<Bullet>::empty(),
            r.player_spec() == player,
    {
        Bullets { player, bullets: Vec::new() }
    }

    pub fn player(&self) -> (r: Handle)
        ensures
            r == self.player_spec(),
    {
        self.player
    }

    pub fn len(&self) -> (r: usize)
        ensures
            r == self@.len(),
    {
        self.bullets.len()
    }

    pub fn bullet_at(&self, i: usize) -> (r: Bullet)
        requires
            i < self@.len(),
        ensures
            r == self@[i as int],
    {
        self.bullets[i]
    }

    /// Where each live projectile is, oldest first.
    pub fn positions(&self) -> (r: Vec<Vec2i>)
        ensures
            r@.len() == self@.len(),
            forall|i: int| 0 <= i < r@.len() ==> r@[i] == (#[trigger] self@[i]).pos,
    {
        let mut r: Vec<Vec2i> = Vec::new();
        let mut i: usize = 0;
        while i < self.bullets.len()
            invariant
                i <= self.bullets@.len(),
                r@.len() == i,
                forall|j: int| 0 <= j < i ==> r@[j] == (#[trigger] self.bullets@[j]).pos,
            decreases self.bullets@.len() - i,
        {
            r.push(self.bullets[i].pos);
            i += 1;
        }
        r
    }

    /// Fires a projectile from a player at `pos` facing right (`true`) or left.
    pub fn spawn_bullet(&mut self, pos: Vec2i, facing: bool)
        requires
            old(self).wf(),
            pos.in_bounds(),
        ensures
            final(self).wf(),
            final(self)@ == old(self)@.push(spawned(pos, facing)),
            final(self).player_spec() == old(self).player_spec(),
    {
        let dir: i64 = if facing {
            1
        } else {
            -1
        };
        let b = Bullet {
            pos: Vec2i { x: pos.x + MUZZLE_X + dir * MUZZLE_DISTANCE, y: pos.y + MUZZLE_Y },
            speed: Vec2i { x: dir * BULLET_SPEED, y: 0 },
            lived: 0,
            lifetime: BULLET_LIFETIME,
        };
        self.bullets.push(b);
    }

    /// Moves every projectile by its speed over `dt` microseconds and ages it by
    /// `dt`; those whose age reaches their lifetime are removed.
    pub fn update(&mut self, dt: u32)
        requires
            old(self).wf(),
        ensures
            final(self).wf(),
            final(self)@ == survivors(old(self)@, dt as int),
            final(self).player_spec() == old(self).player_spec(),
    {
        let ghost s = self.bullets@;
        let mut out: Vec<Bullet> = Vec::new();
        let mut i: usize = 0;
        while i < self.bullets.len()
            invariant
                self.bullets@ == s,
                forall|j: int| 0 <= j < s.len() ==> (#[trigger] s[j]).wf(),
                i <= s.len(),
                out@ == survivors(s.subrange(0, i as int), dt as int),
                forall|j: int| 0 <= j < out@.len() ==> (#[trigger] out@[j]).wf(),
            decreases s.len() - i,
        {
            let b = self.bullets[i];
            assert(b.wf());
            let d = dt as i64;
            proof {
                assert(b.speed.x * d == BULLET_SPEED * d || b.speed.x * d == -BULLET_SPEED * d)
                    by (nonlinear_arith)
                    requires
                        b.speed.x == BULLET_SPEED || b.speed.x == -BULLET_SPEED,
                ;
                assert(b.speed.y * d == 0) by (nonlinear_arith)
                    requires
                        b.speed.y == 0,
                ;
            }
            let nb = Bullet {
                pos: Vec2i { x: b.pos.x + b.speed.x * d, y: b.pos.y + b.speed.y * d },
                speed: b.speed,
                lived: b.lived + dt as u64,
                lifetime: b.lifetime,
            };
            assert(s.subrange(0, i + 1).drop_last() == s.subrange(0, i as int));
            assert(nb == advanced(s[i as int], dt as int));
            if nb.lived < nb.lifetime {
                out.push(nb);
            }
            i += 1;
        }
        assert(s.subrange(0, s.len() as int) == s);
        self.bullets = out;
    }

    /// Removes the projectiles that lie in a solid cell (`solid[i]` for the `i`-th)
    /// or in the player's hit box, and returns how many lay in the hit box: each
    /// of those is one hit on the player.
    pub fn retire(&mut self, solid: &Vec<bool>, hitbox: Option<Rect>) -> (hits: usize)
        requires
            old(self).wf(),
            solid@.len() == old(self)@.len(),
            hitbox matches Some(r) ==> r.wf(),
        ensures
            final(self).wf(),
            final(self)@ == kept(old(self)@, solid@, hitbox, old(self)@.len() as int),
            hits == hit_count(old(self)@, hitbox, old(self)@.len() as int),
            final(self).player_spec() == old(self).player_spec(),
    {
        let ghost s = self.bullets@;
        let mut out: Vec<Bullet> = Vec::new();
        let mut hits: usize = 0;
        let mut i: usize = 0;
        while i < self.bullets.len()
            invariant
                self.bullets@ == s,
                solid@.len() == s.len(),
                hitbox matches Some(r) ==> r.wf(),
                forall|j: int| 0 <= j < s.len() ==> (#[trigger] s[j]).wf(),
                i <= s.len(),
                out@ == kept(s, solid@, hitbox, i as int),
                hits == hit_count(s, hitbox, i as int),
                hits <= i,
                forall|j: int| 0 <= j < out@.len() ==> (#[trigger] out@[j]).wf(),
            decreases s.len() - i,
        {
            let b = self.bullets[i];
            let hit = match hitbox {
                Some(r) => r.contains(b.pos),
                None => false,
            };
            if hit {
                hits += 1;
            }
            if !(solid[i] || hit) {
                out.push(b);
            }
            i += 1;
        }
        self.bullets = out;
        hits
    }
}

/// Over one frame of positive length, every projectile that is still there
/// afterwards is an earlier one advanced by the frame, strictly older than
/// before and not expired; none is added.
pub proof fn lemma_lifetime_increases(s: Seq<Bullet>, dt: int)
    requires
        0 < dt <= u32::MAX,
        forall|i: int| 0 <= i < s.len() ==> (#[trigger] s[i]).wf(),
    ensures
        survivors(s, dt).len() <= s.len(),
        forall|j: int|
            #![trigger survivors(s, dt)[j]]
            0 <= j < survivors(s, dt).len() ==> exists|i: int|
                0 <= i < s.len() && survivors(s, dt)[j] == advanced(#[trigger] s[i], dt)
                    && survivors(s, dt)[j].lived > s[i].lived && !expired(survivors(s, dt)[j]),
    decreases s.len(),
{
    if s.len() > 0 {
        let p = s.drop_last();
        assert forall|i: int| 0 <= i < p.len() implies (#[trigger] p[i]).wf() by {
            assert(p[i] == s[i]);
        }
        lemma_lifetime_increases(p, dt);
        let r = survivors(s, dt);
        let rp = survivors(p, dt);
        assert forall|j: int| #![trigger r[j]] 0 <= j < r.len() implies exists|i: int|
            0 <= i < s.len() && r[j] == advanced(#[trigger] s[i], dt) && r[j].lived > s[i].lived
                && !expired(r[j]) by {
            if j < rp.len() {
                assert(r[j] == rp[j]);
                let i = choose|i: int|
                    0 <= i < p.len() && rp[j] == advanced(#[trigger] p[i], dt) && rp[j].lived
                        > p[i].lived && !expired(rp[j]);
                assert(s[i] == p[i]);
            } else {
                let i = s.len() - 1;
                assert(r[j] == advanced(s[i], dt));
                assert(r[j].lived > s[i].lived);
            }
        }
    }
}

/// After the retiring pass, every projectile left is one that lay neither in a
/// solid cell nor in the player's hit box: one that entered a solid cell is gone
/// in the same pass. No projectile is added.
pub proof fn lemma_solid_removed(s: Seq<Bullet>, solid: Seq<bool>, hitbox: Option<Rect>, n: int)
    requires
        0 <= n <= s.len(),
        n <= solid.len(),
    ensures
        kept(s, solid, hitbox, n).len() <= n,
        forall|j: int|
            0 <= j < kept(s, solid, hitbox, n).len() ==> exists|i: int|
                0 <= i < n && #[trigger] kept(s, solid, hitbox, n)[j] == s[i] && !solid[i]
                    && !hits_player(s[i], hitbox),
    decreases n,
{
    if n > 0 {
        lemma_solid_removed(s, solid, hitbox, n - 1);
        let r = kept(s, solid, hitbox, n);
        let rp = kept(s, solid, hitbox, n - 1);
        assert forall|j: int| 0 <= j < r.len() implies exists|i: int|
            0 <= i < n && #[trigger] r[j] == s[i] && !solid[i] && !hits_player(s[i], hitbox) by {
            if j < rp.len() {
                assert(r[j] == rp[j]);
                let i = choose|i: int|
                    0 <= i < n - 1 && #[trigger] rp[j] == s[i] && !solid[i] && !hits_player(
                        s[i],
                        hitbox,
                    );
                assert(r[j] == s[i]);
            } else {
                assert(r[j] == s[n - 1]);
            }
        }
    }
}

} // verus!
