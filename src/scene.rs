//! The entity registry: a closed set of entity kinds stored in generation-checked
//! slots, updated once per frame in registration order.
use vstd::prelude::*;
use crate::bullets::{Bullet, Bullets, survivors, spawned, kept, hit_count, hitbox_at, HIT_WIDTH, HIT_HEIGHT};
use crate::camera::Camera;
use crate::geom::{Vec2i, Rect};
use crate::handle::Handle;
use crate::layers::{BackgroundLayer, Terrain};
use crate::player::{Player, PlayerAction, Frame, TaskKind};

verus! {

/// Every kind of entity the game has.
pub enum Entity {
    Background(BackgroundLayer),
    Terrain(Terrain),
    Player(Player),
    Bullets(Bullets),
    Camera(Camera),
}

#[derive(Clone, Copy, Debug, PartialEq, Eq, Structural)]
pub enum EntityKind {
    Background,
    Terrain,
    Player,
    Bullets,
    Camera,
}

/// Why a registry lookup failed.
#[derive(Clone, Copy, Debug, PartialEq, Eq, Structural)]
pub enum SceneError {
    /// The handle's entity was removed (its slot's generation moved on).
    StaleHandle,
    /// No live entity of the asked kind is there.
    NotFound,
}

/// What the registry knows of an entity: a projectile manager is seen through
/// the handle of its player and its live projectiles.
pub enum EntityModel {
    Background,
    Terrain,
    Player(Player),
    Bullets(Handle, Seq<Bullet>),
    Camera(Camera),
}

/// A slot as the contracts see it: its generation and its entity, if any.
pub struct SlotModel {
    pub generation: u64,
    pub entity: Option<EntityModel>,
}

pub open spec fn kind_of(e: EntityModel) -> EntityKind {
    match e {
        EntityModel::Background => EntityKind::Background,
        EntityModel::Terrain => EntityKind::Terrain,
        EntityModel::Player(_) => EntityKind::Player,
        EntityModel::Bullets(_, _) => EntityKind::Bullets,
        EntityModel::Camera(_) => EntityKind::Camera,
    }
}

pub open spec fn model_of(e: Entity) -> EntityModel {
    match e {
        Entity::Background(_) => EntityModel::Background,
        Entity::Terrain(_) => EntityModel::Terrain,
        Entity::Player(p) => EntityModel::Player(p),
        Entity::Bullets(b) => EntityModel::Bullets(b.player_spec(), b@),
        Entity::Camera(c) => EntityModel::Camera(c),
    }
}

/// An entity whose own invariant holds.
pub open spec fn entity_wf(e: Entity) -> bool {
    match e {
        Entity::Player(p) => p.wf(),
        Entity::Bullets(b) => b.wf(),
        _ => true,
    }
}

/// `h` refers to a live entity: its slot exists, holds an entity, and still has
/// the handle's generation.
pub open spec fn live(m: Seq<SlotModel>, h: Handle) -> bool {
    &&& h.index < m.len()
    &&& m[h.index as int].entity is Some
    &&& m[h.index as int].generation == h.generation
}

/// The slot index of the first entity of kind `k` among the first `n` entries
/// of the registration order.
pub open spec fn first_of(m: Seq<SlotModel>, order: Seq<usize>, k: EntityKind, n: int) -> Option<
    usize,
>
    decreases n,
{
    if n <= 0 {
        None
    } else {
        match first_of(m, order, k, n - 1) {
            Some(i) => Some(i),
            None => if m[order[n - 1] as int].entity matches Some(e) && kind_of(e) == k {
                Some(order[n - 1])
            } else {
                None
            },
        }
    }
}

/// The outside facts of one frame for the whole scene: the player's frame and
/// the screen's size in pixels.
#[derive(Clone, Copy, Debug, PartialEq, Eq, Structural)]
pub struct FrameEvents {
    pub frame: Frame,
    pub screen_w: u32,
    pub screen_h: u32,
}

/// `m` with the entity of slot `i` replaced by `e`.
pub open spec fn with_entity(m: Seq<SlotModel>, i: int, e: EntityModel) -> Seq<SlotModel> {
    m.update(i, SlotModel { generation: m[i].generation, entity: Some(e) })
}

/// Where the player behind `h` stands, if `h` is a live player.
pub open spec fn player_pos(m: Seq<SlotModel>, h: Handle) -> Option<Vec2i> {
    if live(m, h) {
        match m[h.index as int].entity {
            Some(EntityModel::Player(p)) => Some(p.pos),
            _ => None,
        }
    } else {
        None
    }
}

/// `m` after a projectile is fired from `pos` facing `facing` into the first
/// projectile manager in registration order, if there is one.
pub open spec fn fired_into(m: Seq<SlotModel>, order: Seq<usize>, pos: Vec2i, facing: bool) -> Seq<
    SlotModel,
> {
    match first_of(m, order, EntityKind::Bullets, order.len() as int) {
        Some(j) => match m[j as int].entity {
            Some(EntityModel::Bullets(h, v)) => with_entity(
                m,
                j as int,
                EntityModel::Bullets(h, v.push(spawned(pos, facing))),
            ),
            _ => m,
        },
        None => m,
    }
}

/// The update of the entity in slot `i`, and the action a player asked for.
/// A player takes the frame (and fires into the first projectile manager); a
/// projectile manager advances its projectiles; a camera follows its player.
pub open spec fn step(m: Seq<SlotModel>, order: Seq<usize>, i: int, ev: FrameEvents) -> (Seq<
    SlotModel,
>, Option<PlayerAction>) {
    let f = ev.frame;
    match m[i].entity {
        Some(EntityModel::Player(p)) => {
            let q = p.stepped(f.input, f.contacts, f.at);
            let act = p.action(f.input, f.contacts, f.dt as int);
            let m1 = with_entity(m, i, EntityModel::Player(q));
            (
                if act.fire {
                    fired_into(m1, order, q.pos, q.flip)
                } else {
                    m1
                },
                Some(act),
            )
        },
        Some(EntityModel::Bullets(h, v)) => (
            with_entity(m, i, EntityModel::Bullets(h, survivors(v, f.dt as int))),
            None,
        ),
        Some(EntityModel::Camera(c)) => (
            with_entity(
                m,
                i,
                EntityModel::Camera(c.followed(player_pos(m, c.player), ev.screen_w, ev.screen_h)),
            ),
            None,
        ),
        _ => (m, None),
    }
}

/// The slots after the first `n` entities in registration order have taken
/// their update, and the players' actions in that order.
pub open spec fn pass(m: Seq<SlotModel>, order: Seq<usize>, ev: FrameEvents, n: int) -> (Seq<
    SlotModel,
>, Seq<PlayerAction>)
    decreases n,
{
    if n <= 0 {
        (m, Seq::empty())
    } else {
        let (m1, acts) = pass(m, order, ev, n - 1);
        let (m2, a) = step(m1, order, order[n - 1] as int, ev);
        (
            m2,
            match a {
                Some(x) => acts.push(x),
                None => acts,
            },
        )
    }
}

/// `m` after the player behind `h`, if `h` is a live player, takes a kill request.
pub open spec fn killed_at(m: Seq<SlotModel>, h: Handle) -> Seq<SlotModel> {
    if live(m, h) {
        match m[h.index as int].entity {
            Some(EntityModel::Player(p)) => with_entity(m, h.index as int, EntityModel::Player(p.killed())),
            _ => m,
        }
    } else {
        m
    }
}

/// The hit box of the player behind `h`, if `h` is a live player.
pub open spec fn hitbox_of(m: Seq<SlotModel>, h: Handle) -> Option<Rect> {
    match player_pos(m, h) {
        Some(p) => Some(hitbox_at(p)),
        None => None,
    }
}

/// The slots after the tasks of the players among the first `n` entities in
/// registration order are resumed `dt` microseconds after the previous frame
/// boundary, and the kinds of the tasks that ran to completion, in that order.
pub open spec fn resumed_all(m: Seq<SlotModel>, order: Seq<usize>, dt: int, n: int) -> (Seq<
    SlotModel,
>, Seq<TaskKind>)
    decreases n,
{
    if n <= 0 {
        (m, Seq::empty())
    } else {
        let (m1, done) = resumed_all(m, order, dt, n - 1);
        let i = order[n - 1] as int;
        match m1[i].entity {
            Some(EntityModel::Player(p)) => (
                with_entity(m1, i, EntityModel::Player(p.resumed(dt))),
                match p.task {
                    Some(t) => if t.kind == TaskKind::Death || t.wait <= dt {
                        done.push(t.kind)
                    } else {
                        done
                    },
                    None => done,
                },
            ),
            _ => (m1, done),
        }
    }
}

spec fn wf_parts(slots: Seq<Slot>, order: Seq<usize>) -> bool {
    &&& forall|i: int|
        0 <= i < slots.len() && (#[trigger] slots[i]).entity is Some ==> {
            &&& entity_wf(slots[i].entity->Some_0)
            &&& slots[i].generation < u64::MAX
        }
    &&& forall|k: int|
        0 <= k < order.len() ==> {
            &&& (#[trigger] order[k]) < slots.len()
            &&& slots[order[k] as int].entity is Some
        }
    &&& forall|k1: int, k2: int|
        0 <= k1 < order.len() && 0 <= k2 < order.len() && k1 != k2 ==> #[trigger] order[k1]
            != #[trigger] order[k2]
    &&& forall|i: int|
        0 <= i < slots.len() && (#[trigger] slots[i]).entity is Some ==> exists|k: int|
            0 <= k < order.len() && #[trigger] order[k] == i
}

/// Replacing entities by well-formed ones, slot for slot, keeps the registry
/// well formed.
proof fn lemma_wf_same_shape(s0: Seq<Slot>, s1: Seq<Slot>, order: Seq<usize>)
    requires
        wf_parts(s0, order),
        s1.len() == s0.len(),
        forall|i: int|
            0 <= i < s0.len() ==> {
                &&& (#[trigger] s1[i]).entity is Some == s0[i].entity is Some
                &&& s1[i].generation == s0[i].generation
                &&& s1[i].entity is Some ==> entity_wf(s1[i].entity->Some_0)
            },
    ensures
        wf_parts(s1, order),
{
    assert forall|i: int| 0 <= i < s1.len() && (#[trigger] s1[i]).entity is Some implies exists|
        k: int,
    | 0 <= k < order.len() && #[trigger] order[k] == i by {
        assert(s0[i].entity is Some);
    }
    assert forall|k: int| 0 <= k < order.len() implies {
        &&& (#[trigger] order[k]) < s1.len()
        &&& s1[order[k] as int].entity is Some
    } by {
        assert(s0[order[k] as int].entity is Some);
    }
}

struct Slot {
    generation: u64,
    entity: Option<Entity>,
}

pub open spec fn slot_model(generation: u64, entity: Option<Entity>) -> SlotModel {
    SlotModel {
        generation,
        entity: match entity {
            Some(e) => Some(model_of(e)),
            None => None,
        },
    }
}

/// The registry: slots addressed by handles, and the registration order of the
/// live entities.
pub struct Scene {
    slots: Vec<Slot>,
    order: Vec<usize>,
}

impl Scene {
    /// The slots, by index.
    pub closed spec fn model(&self) -> Seq<SlotModel> {
        self.slots@.map_values(|s: Slot| slot_model(s.generation, s.entity))
    }

    /// The slot indices of the live entities, in the order they were registered.
    pub closed spec fn order(&self) -> Seq<usize> {
        self.order@
    }

    /// Every live entity keeps its own invariant and has a generation below the
    /// largest; the registration order lists each live slot exactly once.
    pub closed spec fn wf(&self) -> bool {
        wf_parts(self.slots@, self.order@)
    }

    pub fn new() -> (r: Scene)
        ensures
            r.wf(),
            r.model() == Seq::<SlotModel>::empty(),
            r.order() == Seq::<usize>::empty(),
    {
        let r = Scene { slots: Vec::new(), order: Vec::new() };
        assert(r.model() =~= Seq::<SlotModel>::empty());
        r
    }

    /// Stores `e` and returns its handle. The first empty slot whose generation
    /// can still move on is reused, keeping its generation; otherwise a new slot
    /// with generation zero is appended. The entity is registered last.
    pub fn insert(&mut self, e: Entity) -> (h: Handle)
        requires
            old(self).wf(),
            entity_wf(e),
            old(self).model().len() < usize::MAX,
            old(self).order().len() < usize::MAX,
        ensures
            final(self).wf(),
            live(final(self).model(), h),
            h.index <= old(self).model().len(),
            h.index < old(self).model().len() ==> {
                &&& old(self).model()[h.index as int].entity is None
                &&& h.generation == old(self).model()[h.index as int].generation
                &&& final(self).model() == old(self).model().update(
                    h.index as int,
                    SlotModel { generation: h.generation, entity: Some(model_of(e)) },
                )
            },
            h.index == old(self).model().len() ==> {
                &&& h.generation == 0
                &&& final(self).model() == old(self).model().push(
                    SlotModel { generation: 0, entity: Some(model_of(e)) },
                )
            },
            final(self).order() == old(self).order().push(h.index),
    {
        let ghost m = self.model();
        let mut i: usize = 0;
        while i < self.slots.len() && !(self.slots[i].entity.is_none() && self.slots[i].generation
            < u64::MAX)
            invariant
                self.wf(),
                m == self.model(),
                i <= self.slots@.len(),
            decreases self.slots@.len() - i,
        {
            i += 1;
        }
        let found = i < self.slots.len();
        let ghost old_slots = self.slots@;
        let g: u64 = if found {
            self.slots[i].generation
        } else {
            0
        };
        if found {
            self.slots[i] = Slot { generation: g, entity: Some(e) };
            assert(self.slots@ == old_slots.update(i as int, Slot { generation: g, entity: Some(e) }));
        } else {
            self.slots.push(Slot { generation: 0, entity: Some(e) });
            assert(self.slots@ == old_slots.push(Slot { generation: 0, entity: Some(e) }));
        }
        proof {
            assert(forall|k: int| 0 <= k < self.order@.len() ==> self.order@[k] != i) by {
                if exists|k: int| 0 <= k < self.order@.len() && self.order@[k] == i {
                    let k = choose|k: int| 0 <= k < self.order@.len() && self.order@[k] == i;
                    assert(old_slots[self.order@[k] as int].entity is Some);
                }
            }
        }
        self.order.push(i);
        let h = Handle { index: i, generation: g };
        proof {
            if found {
                assert(self.model() =~= m.update(
                    i as int,
                    SlotModel { generation: g, entity: Some(model_of(e)) },
                ));
            } else {
                assert(self.model() =~= m.push(SlotModel { generation: 0, entity: Some(model_of(e)) }));
            }
            assert forall|j: int|
                0 <= j < self.slots@.len() && (#[trigger] self.slots@[j]).entity is Some implies exists|
                k: int,
            | 0 <= k < self.order@.len() && #[trigger] self.order@[k] == j by {
                if j == i {
                    assert(self.order@[self.order@.len() - 1] == j);
                } else {
                    assert(self.slots@[j] == old_slots[j]);
                    assert(old_slots[j].entity is Some);
                    let k = choose|k: int| 0 <= k < old(self).order@.len() && #[trigger] old(self).order@[k] == j;
                    assert(self.order@[k] == j);
                }
            }
        }
        h
    }

    /// Removes the entity behind `h`: its slot is emptied, its generation moves on
    /// by one, and it leaves the registration order. A stale `h` gives
    /// `StaleHandle` and changes nothing.
    pub fn remove(&mut self, h: Handle) -> (r: Result<(), SceneError>)
        requires
            old(self).wf(),
        ensures
            final(self).wf(),
            r is Ok <==> live(old(self).model(), h),
            r matches Err(e) ==> e == SceneError::StaleHandle && final(self).model() == old(self).model()
                && final(self).order() == old(self).order(),
            r is Ok ==> {
                &&& final(self).model() == old(self).model().update(
                    h.index as int,
                    SlotModel { generation: (h.generation + 1) as u64, entity: None },
                )
                &&& exists|k: int|
                    0 <= k < old(self).order().len() && old(self).order()[k] == h.index
                        && final(self).order() == old(self).order().remove(k)
            },
    {
        if !(h.index < self.slots.len() && self.slots[h.index].generation == h.generation
            && self.slots[h.index].entity.is_some()) {
            return Err(SceneError::StaleHandle);
        }
        let ghost m = self.model();
        let ghost o = self.order@;
        let i = h.index;
        assert(exists|k: int| 0 <= k < o.len() && #[trigger] o[k] == i);
        let mut k: usize = 0;
        while k < self.order.len() && self.order[k] != i
            invariant
                self.order@ == o,
                k <= o.len(),
                forall|j: int| 0 <= j < k ==> o[j] != i,
                exists|j: int| 0 <= j < o.len() && #[trigger] o[j] == i,
            decreases o.len() - k,
        {
            k += 1;
        }
        assert(k < o.len());
        assert(o[k as int] == i);
        let ghost old_slots = self.slots@;
        self.order.remove(k);
        assert(self.order@ == o.remove(k as int));
        self.slots[i] = Slot { generation: h.generation + 1, entity: None };
        proof {
            assert(self.slots@ == old_slots.update(i as int, Slot { generation: (h.generation + 1) as u64, entity: None }));
            assert(self.model() =~= m.update(
                i as int,
                SlotModel { generation: (h.generation + 1) as u64, entity: None },
            ));
            assert forall|k1: int| 0 <= k1 < self.order@.len() implies {
                &&& (#[trigger] self.order@[k1]) < self.slots@.len()
                &&& self.slots@[self.order@[k1] as int].entity is Some
            } by {
                let a = if k1 < k { k1 } else { k1 + 1 };
                assert(self.order@[k1] == o[a]);
                assert(o[a] != o[k as int]);
                assert(old_slots[o[a] as int].entity is Some);
            }
            assert forall|k1: int, k2: int|
                0 <= k1 < self.order@.len() && 0 <= k2 < self.order@.len() && k1 != k2
                implies #[trigger] self.order@[k1] != #[trigger] self.order@[k2] by {
                let a = if k1 < k { k1 } else { k1 + 1 };
                let b = if k2 < k { k2 } else { k2 + 1 };
                assert(self.order@[k1] == o[a]);
                assert(self.order@[k2] == o[b]);
            }
            assert forall|j: int|
                0 <= j < self.slots@.len() && (#[trigger] self.slots@[j]).entity is Some implies exists|
                k1: int,
            | 0 <= k1 < self.order@.len() && #[trigger] self.order@[k1] == j by {
                assert(j != i);
                assert(old_slots[j] == self.slots@[j]);
                let k0 = choose|k0: int| 0 <= k0 < o.len() && #[trigger] o[k0] == j;
                assert(k0 != k);
                if k0 < k {
                    assert(self.order@[k0] == j);
                } else {
                    assert(self.order@[k0 - 1] == j);
                }
            }
            assert(0 <= k < old(self).order().len() && old(self).order()[k as int] == h.index
                && self.order() == old(self).order().remove(k as int));
        }
        Ok(())
    }

    /// Looks up the entity behind `h`; a removed one gives `StaleHandle`.
    pub fn get(&self, h: Handle) -> (r: Result<&Entity, SceneError>)
        ensures
            r is Ok <==> live(self.model(), h),
            r matches Ok(e) ==> self.model()[h.index as int].entity == Some(model_of(*e)),
            r matches Err(err) ==> err == SceneError::StaleHandle,
    {
        if h.index < self.slots.len() {
            let slot = &self.slots[h.index];
            if slot.generation == h.generation {
                match &slot.entity {
                    Some(e) => {
                        return Ok(e);
                    },
                    None => {},
                }
            }
        }
        Err(SceneError::StaleHandle)
    }

    /// The player behind `h`; `NotFound` if a live entity of another kind is there.
    pub fn get_player(&self, h: Handle) -> (r: Result<&Player, SceneError>)
        ensures
            !live(self.model(), h) ==> r == Err::<&Player, SceneError>(SceneError::StaleHandle),
            live(self.model(), h) ==> match self.model()[h.index as int].entity->Some_0 {
                EntityModel::Player(p) => r == Ok::<&Player, SceneError>(&p),
                _ => r == Err::<&Player, SceneError>(SceneError::NotFound),
            },
    {
        match self.get(h) {
            Ok(Entity::Player(p)) => Ok(p),
            Ok(_) => Err(SceneError::NotFound),
            Err(e) => Err(e),
        }
    }

    /// The projectile manager behind `h`; `NotFound` if a live entity of another
    /// kind is there.
    pub fn get_bullets(&self, h: Handle) -> (r: Result<&Bullets, SceneError>)
        ensures
            !live(self.model(), h) ==> (r matches Err(e) && e == SceneError::StaleHandle),
            live(self.model(), h) ==> match self.model()[h.index as int].entity->Some_0 {
                EntityModel::Bullets(ph, v) => (r matches Ok(b) && b@ == v && b.player_spec() == ph),
                _ => (r matches Err(e) && e == SceneError::NotFound),
            },
    {
        match self.get(h) {
            Ok(Entity::Bullets(b)) => Ok(b),
            Ok(_) => Err(SceneError::NotFound),
            Err(e) => Err(e),
        }
    }

    /// The camera behind `h`; `NotFound` if a live entity of another kind is there.
    pub fn get_camera(&self, h: Handle) -> (r: Result<&Camera, SceneError>)
        ensures
            !live(self.model(), h) ==> r == Err::<&Camera, SceneError>(SceneError::StaleHandle),
            live(self.model(), h) ==> match self.model()[h.index as int].entity->Some_0 {
                EntityModel::Camera(c) => r == Ok::<&Camera, SceneError>(&c),
                _ => r == Err::<&Camera, SceneError>(SceneError::NotFound),
            },
    {
        match self.get(h) {
            Ok(Entity::Camera(c)) => Ok(c),
            Ok(_) => Err(SceneError::NotFound),
            Err(e) => Err(e),
        }
    }

    /// The slot of the first live entity of kind `k` in registration order.
    fn first_index(&self, k: EntityKind) -> (r: Option<usize>)
        requires
            self.wf(),
        ensures
            r == first_of(self.model(), self.order(), k, self.order().len() as int),
            r matches Some(i) ==> i < self.model().len() && (self.model()[i as int].entity matches Some(
                e,
            ) && kind_of(e) == k),
    {
        let ghost m = self.model();
        let mut i: usize = 0;
        while i < self.order.len()
            invariant
                self.wf(),
                m == self.model(),
                i <= self.order@.len(),
                first_of(m, self.order@, k, i as int) is None,
            decreases self.order@.len() - i,
        {
            let idx = self.order[i];
            let found = match &self.slots[idx].entity {
                Some(Entity::Background(_)) => k == EntityKind::Background,
                Some(Entity::Terrain(_)) => k == EntityKind::Terrain,
                Some(Entity::Player(_)) => k == EntityKind::Player,
                Some(Entity::Bullets(_)) => k == EntityKind::Bullets,
                Some(Entity::Camera(_)) => k == EntityKind::Camera,
                None => false,
            };
            assert(m[idx as int] == slot_model(self.slots@[idx as int].generation, self.slots@[idx as int].entity));
            if found {
                proof {
                    lemma_first_of_stays(m, self.order@, k, i as int + 1, self.order@.len() as int);
                }
                return Some(idx);
            }
            i += 1;
        }
        None
    }

    /// The first live entity of kind `k` in registration order, or `NotFound`.
    pub fn find_by_kind(&self, k: EntityKind) -> (r: Result<Handle, SceneError>)
        requires
            self.wf(),
        ensures
            r matches Ok(h) ==> live(self.model(), h),
            match first_of(self.model(), self.order(), k, self.order().len() as int) {
                Some(i) => r == Ok::<Handle, SceneError>(
                    Handle { index: i, generation: self.model()[i as int].generation },
                ),
                None => r == Err::<Handle, SceneError>(SceneError::NotFound),
            },
    {
        match self.first_index(k) {
            Some(i) => Ok(Handle { index: i, generation: self.slots[i].generation }),
            None => Err(SceneError::NotFound),
        }
    }

    /// Moves the entity of slot `i` out, leaving the slot empty for the moment.
    fn take(&mut self, i: usize) -> (e: Option<Entity>)
        requires
            i < old(self).slots@.len(),
        ensures
            e == old(self).slots@[i as int].entity,
            final(self).slots@ == old(self).slots@.update(
                i as int,
                Slot { generation: old(self).slots@[i as int].generation, entity: None },
            ),
            final(self).order@ == old(self).order@,
    {
        let g = self.slots[i].generation;
        let e = self.slots[i].entity.take();
        assert(self.slots@ =~= old(self).slots@.update(i as int, Slot { generation: g, entity: None }));
        e
    }

    /// Puts `e` into slot `i`, keeping the slot's generation.
    fn put(&mut self, i: usize, e: Entity)
        requires
            i < old(self).slots@.len(),
        ensures
            final(self).slots@ == old(self).slots@.update(
                i as int,
                Slot { generation: old(self).slots@[i as int].generation, entity: Some(e) },
            ),
            final(self).order@ == old(self).order@,
    {
        let g = self.slots[i].generation;
        self.slots[i] = Slot { generation: g, entity: Some(e) };
    }

    /// Where the player behind `h` stands, if `h` is a live player.
    fn player_pos_of(&self, h: Handle) -> (r: Option<Vec2i>)
        ensures
            r == player_pos(self.model(), h),
    {
        match self.get_player(h) {
            Ok(p) => Some(p.pos),
            Err(_) => None,
        }
    }

    /// Fires a projectile from `pos` facing `facing` into the first projectile
    /// manager in registration order, if there is one.
    fn spawn_first(&mut self, pos: Vec2i, facing: bool)
        requires
            old(self).wf(),
            pos.in_bounds(),
        ensures
            final(self).wf(),
            final(self).model() == fired_into(old(self).model(), old(self).order(), pos, facing),
            final(self).order() == old(self).order(),
    {
        let ghost m = self.model();
        let ghost s0 = self.slots@;
        match self.first_index(EntityKind::Bullets) {
            Some(j) => {
                assert(m[j as int] == slot_model(s0[j as int].generation, s0[j as int].entity));
                let e = self.take(j);
                match e {
                    Some(Entity::Bullets(mut b)) => {
                        b.spawn_bullet(pos, facing);
                        self.put(j, Entity::Bullets(b));
                        proof {
                            assert(self.model() =~= with_entity(
                                m,
                                j as int,
                                EntityModel::Bullets(b.player_spec(), b@),
                            ));
                        }
                    },
                    Some(other) => {
                        self.put(j, other);
                        assert(self.slots@ =~= s0);
                    },
                    None => {},
                }
                proof {
                    lemma_wf_same_shape(s0, self.slots@, self.order@);
                }
            },
            None => {},
        }
    }

    /// Runs one frame's update over every live entity in registration order and
    /// returns the players' actions in that order. Nothing is inserted or removed,
    /// so every handle stays as live or as stale as it was.
    pub fn update(&mut self, ev: &FrameEvents) -> (acts: Vec<PlayerAction>)
        requires
            old(self).wf(),
            ev.frame.at.in_bounds(),
        ensures
            final(self).wf(),
            final(self).order() == old(self).order(),
            final(self).model() == pass(old(self).model(), old(self).order(), *ev, old(self).order().len() as int).0,
            acts@ == pass(old(self).model(), old(self).order(), *ev, old(self).order().len() as int).1,
    {
        let ghost m0 = self.model();
        let ghost o = self.order@;
        let f = ev.frame;
        let mut acts: Vec<PlayerAction> = Vec::new();
        let mut k: usize = 0;
        while k < self.order.len()
            invariant
                self.wf(),
                self.order@ == o,
                k <= o.len(),
                f == ev.frame,
                ev.frame.at.in_bounds(),
                self.model() == pass(m0, o, *ev, k as int).0,
                acts@ == pass(m0, o, *ev, k as int).1,
            decreases o.len() - k,
        {
            let i = self.order[k];
            let ghost mk = self.model();
            let ghost s0 = self.slots@;
            assert(mk[i as int] == slot_model(s0[i as int].generation, s0[i as int].entity));
            let (kind, watched) = match &self.slots[i].entity {
                Some(Entity::Player(_)) => (1u8, Handle { index: 0, generation: 0 }),
                Some(Entity::Bullets(_)) => (2u8, Handle { index: 0, generation: 0 }),
                Some(Entity::Camera(c)) => (3u8, c.player),
                _ => (0u8, Handle { index: 0, generation: 0 }),
            };
            if kind == 1 {
                let e = self.take(i);
                if let Some(Entity::Player(mut p)) = e {
                    let act = p.update(f.input, f.contacts, f.at, f.dt);
                    let pos = p.pos;
                    let flip = p.flip;
                    self.put(i, Entity::Player(p));
                    proof {
                        assert(self.model() =~= with_entity(mk, i as int, EntityModel::Player(p)));
                        lemma_wf_same_shape(s0, self.slots@, self.order@);
                    }
                    if act.fire {
                        self.spawn_first(pos, flip);
                    }
                    acts.push(act);
                }
            } else if kind == 2 {
                let e = self.take(i);
                if let Some(Entity::Bullets(mut b)) = e {
                    b.update(f.dt);
                    self.put(i, Entity::Bullets(b));
                    proof {
                        assert(self.model() =~= with_entity(
                            mk,
                            i as int,
                            EntityModel::Bullets(b.player_spec(), b@),
                        ));
                        lemma_wf_same_shape(s0, self.slots@, self.order@);
                    }
                }
            } else if kind == 3 {
                let pp = self.player_pos_of(watched);
                let e = self.take(i);
                if let Some(Entity::Camera(mut c)) = e {
                    c.update(pp, ev.screen_w, ev.screen_h);
                    self.put(i, Entity::Camera(c));
                    proof {
                        assert(self.model() =~= with_entity(mk, i as int, EntityModel::Camera(c)));
                        lemma_wf_same_shape(s0, self.slots@, self.order@);
                    }
                }
            }
            k += 1;
        }
        acts
    }

    /// A live player behind `h` is well formed.
    proof fn lemma_player_wf(&self, h: Handle)
        requires
            self.wf(),
            live(self.model(), h),
            self.model()[h.index as int].entity matches Some(EntityModel::Player(_)),
        ensures
            self.model()[h.index as int].entity matches Some(EntityModel::Player(p)) && p.wf(),
    {
        let i = h.index as int;
        assert(self.model()[i] == slot_model(self.slots@[i].generation, self.slots@[i].entity));
    }

    /// Sends a kill request to the player behind `h`; `StaleHandle` if `h` is
    /// stale, `NotFound` if a live entity of another kind is there.
    pub fn kill_player(&mut self, h: Handle) -> (r: Result<(), SceneError>)
        requires
            old(self).wf(),
        ensures
            final(self).wf(),
            final(self).order() == old(self).order(),
            final(self).model() == killed_at(old(self).model(), h),
            !live(old(self).model(), h) ==> r == Err::<(), SceneError>(SceneError::StaleHandle),
            live(old(self).model(), h) ==> match old(self).model()[h.index as int].entity->Some_0 {
                EntityModel::Player(_) => r == Ok::<(), SceneError>(()),
                _ => r == Err::<(), SceneError>(SceneError::NotFound),
            },
    {
        let ghost m = self.model();
        let ghost s0 = self.slots@;
        match self.get_player(h) {
            Err(e) => Err(e),
            Ok(_) => {
                let i = h.index;
                assert(m[i as int] == slot_model(s0[i as int].generation, s0[i as int].entity));
                let e = self.take(i);
                if let Some(Entity::Player(mut p)) = e {
                    p.kill(false);
                    self.put(i, Entity::Player(p));
                    proof {
                        assert(self.model() =~= with_entity(m, i as int, EntityModel::Player(p)));
                        lemma_wf_same_shape(s0, self.slots@, self.order@);
                    }
                }
                Ok(())
            },
        }
    }

    /// Ends the frame of the projectile manager behind `h`: removes its projectiles
    /// that lie in a solid cell (`solid[i]` for the `i`-th) or in its player's hit
    /// box, and sends that player a kill request if any lay in the hit box.
    /// Returns how many lay in the hit box. `StaleHandle` if `h` is stale,
    /// `NotFound` if a live entity of another kind is there; then nothing changes.
    pub fn retire_projectiles(&mut self, h: Handle, solid: &Vec<bool>) -> (r: Result<usize, SceneError>)
        requires
            old(self).wf(),
            live(old(self).model(), h) ==> (old(self).model()[h.index as int].entity matches Some(
                EntityModel::Bullets(_, v),
            ) ==> solid@.len() == v.len()),
        ensures
            final(self).wf(),
            final(self).order() == old(self).order(),
            !live(old(self).model(), h) ==> r == Err::<usize, SceneError>(SceneError::StaleHandle)
                && final(self).model() == old(self).model(),
            live(old(self).model(), h) ==> match old(self).model()[h.index as int].entity->Some_0 {
                EntityModel::Bullets(ph, v) => {
                    let hb = hitbox_of(old(self).model(), ph);
                    let hits = hit_count(v, hb, v.len() as int);
                    let m1 = with_entity(
                        old(self).model(),
                        h.index as int,
                        EntityModel::Bullets(ph, kept(v, solid@, hb, v.len() as int)),
                    );
                    &&& r == Ok::<usize, SceneError>(hits as usize)
                    &&& final(self).model() == if hits > 0 {
                        killed_at(m1, ph)
                    } else {
                        m1
                    }
                },
                _ => r == Err::<usize, SceneError>(SceneError::NotFound) && final(self).model()
                    == old(self).model(),
            },
    {
        let ghost m = self.model();
        let ghost s0 = self.slots@;
        let ph = match self.get_bullets(h) {
            Err(e) => {
                return Err(e);
            },
            Ok(b) => b.player(),
        };
        let hitbox = match self.get_player(ph) {
            Ok(p) => {
                proof {
                    self.lemma_player_wf(ph);
                }
                Some(Rect::new(p.pos.x, p.pos.y, HIT_WIDTH, HIT_HEIGHT))
            },
            Err(_) => None,
        };
        assert(hitbox == hitbox_of(m, ph));
        let i = h.index;
        assert(m[i as int] == slot_model(s0[i as int].generation, s0[i as int].entity));
        let e = self.take(i);
        let mut hits: usize = 0;
        if let Some(Entity::Bullets(mut b)) = e {
            hits = b.retire(solid, hitbox);
            self.put(i, Entity::Bullets(b));
            proof {
                assert(self.model() =~= with_entity(m, i as int, EntityModel::Bullets(b.player_spec(), b@)));
                lemma_wf_same_shape(s0, self.slots@, self.order@);
            }
        }
        if hits > 0 {
            let _ = self.kill_player(ph);
        }
        Ok(hits)
    }

    /// Resumes the task of every player at the frame boundary, `dt` microseconds
    /// after the previous one, in registration order; returns the kinds of the
    /// tasks that ran to completion.
    pub fn resume_tasks(&mut self, dt: u32) -> (done: Vec<TaskKind>)
        requires
            old(self).wf(),
        ensures
            final(self).wf(),
            final(self).order() == old(self).order(),
            final(self).model() == resumed_all(old(self).model(), old(self).order(), dt as int, old(self).order().len() as int).0,
            done@ == resumed_all(old(self).model(), old(self).order(), dt as int, old(self).order().len() as int).1,
    {
        let ghost m0 = self.model();
        let ghost o = self.order@;
        let mut done: Vec<TaskKind> = Vec::new();
        let mut k: usize = 0;
        while k < self.order.len()
            invariant
                self.wf(),
                self.order@ == o,
                k <= o.len(),
                self.model() == resumed_all(m0, o, dt as int, k as int).0,
                done@ == resumed_all(m0, o, dt as int, k as int).1,
            decreases o.len() - k,
        {
            let i = self.order[k];
            let ghost mk = self.model();
            let ghost s0 = self.slots@;
            assert(mk[i as int] == slot_model(s0[i as int].generation, s0[i as int].entity));
            let is_player = match &self.slots[i].entity {
                Some(Entity::Player(_)) => true,
                _ => false,
            };
            if is_player {
                let e = self.take(i);
                if let Some(Entity::Player(mut p)) = e {
                    let r = p.resume_task(dt);
                    self.put(i, Entity::Player(p));
                    proof {
                        assert(self.model() =~= with_entity(mk, i as int, EntityModel::Player(p)));
                        lemma_wf_same_shape(s0, self.slots@, self.order@);
                    }
                    match r {
                        Some(kd) => done.push(kd),
                        None => {},
                    }
                }
            }
            k += 1;
        }
        done
    }
}

/// Once the first entity of a kind is found in a prefix of the order, longer
/// prefixes find the same.
proof fn lemma_first_of_stays(m: Seq<SlotModel>, order: Seq<usize>, k: EntityKind, n1: int, n2: int)
    requires
        0 <= n1 <= n2,
        first_of(m, order, k, n1) is Some,
    ensures
        first_of(m, order, k, n2) == first_of(m, order, k, n1),
    decreases n2 - n1,
{
    if n2 > n1 {
        lemma_first_of_stays(m, order, k, n1, n2 - 1);
    }
}

/// Once `h`'s entity is removed, `h` is stale, and it stays stale in every later
/// registry whose slot generation has not gone back: inserting keeps a slot's
/// generation and removing moves it on, so no later entity is reached through
/// `h`.
pub proof fn lemma_removed_handle_stays_stale(
    before: Seq<SlotModel>,
    after: Seq<SlotModel>,
    later: Seq<SlotModel>,
    h: Handle,
)
    requires
        live(before, h),
        h.generation < u64::MAX,
        after == before.update(
            h.index as int,
            SlotModel { generation: (h.generation + 1) as u64, entity: None },
        ),
        h.index < later.len(),
        later[h.index as int].generation >= after[h.index as int].generation,
    ensures
        !live(after, h),
        !live(later, h),
{
}

} // verus!
