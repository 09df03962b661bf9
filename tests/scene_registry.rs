use quadcopter::bullets::Bullets;
use quadcopter::camera::{Camera, View};
use quadcopter::geom::{Rect, Vec2i};
use quadcopter::handle::Handle;
use quadcopter::layers::{is_solid_tile, BackgroundLayer, Terrain};
use quadcopter::player::{Contacts, Frame, Input, Player, PlayerState, TaskKind};
use quadcopter::scene::{Entity, EntityKind, FrameEvents, Scene, SceneError};

const DT: u32 = 16_667;

fn player() -> Player {
    Player::new()
}

fn events(fire: bool, right: bool, at: Vec2i) -> FrameEvents {
    FrameEvents {
        frame: Frame {
            input: Input { up: false, down: false, left: false, right, fire },
            contacts: Contacts { top: false, bottom: false, left: false, right: false },
            at,
            dt: DT,
        },
        screen_w: 800,
        screen_h: 600,
    }
}

fn game() -> (Scene, Handle, Handle, Handle) {
    let mut scene = Scene::new();
    scene.insert(Entity::Background(BackgroundLayer::new()));
    scene.insert(Entity::Terrain(Terrain::new()));
    let p = scene.insert(Entity::Player(player()));
    let b = scene.insert(Entity::Bullets(Bullets::new(p)));
    let c = scene.insert(Entity::Camera(Camera::new(Rect::new(0, 0, 400, 400), 700, p)));
    (scene, p, b, c)
}

#[test]
fn removed_handle_is_stale() {
    let (mut scene, p, _b, _c) = game();
    assert!(scene.get_player(p).is_ok());
    assert_eq!(scene.remove(p), Ok(()));
    assert!(matches!(scene.get(p), Err(SceneError::StaleHandle)));
    assert!(matches!(scene.get_player(p), Err(SceneError::StaleHandle)));
    assert_eq!(scene.remove(p), Err(SceneError::StaleHandle));
}

#[test]
fn reused_slot_does_not_alias_the_old_handle() {
    let mut scene = Scene::new();
    let t = scene.insert(Entity::Terrain(Terrain::new()));
    scene.remove(t).unwrap();
    let q = scene.insert(Entity::Player(player()));
    assert_eq!(q.index, t.index);
    assert_ne!(q.generation, t.generation);
    assert!(matches!(scene.get(t), Err(SceneError::StaleHandle)));
    assert!(scene.get_player(q).is_ok());
}

#[test]
fn typed_lookups() {
    let (scene, p, b, c) = game();
    assert!(matches!(scene.get_player(b), Err(SceneError::NotFound)));
    assert!(matches!(scene.get_camera(c), Ok(_)));
    assert_eq!(scene.get_bullets(b).unwrap().player(), p);
    assert_eq!(scene.find_by_kind(EntityKind::Player), Ok(p));
    assert_eq!(scene.find_by_kind(EntityKind::Camera), Ok(c));
    assert_eq!(Scene::new().find_by_kind(EntityKind::Bullets), Err(SceneError::NotFound));
}

#[test]
fn frame_fires_advances_and_follows() {
    let (mut scene, p, b, c) = game();
    let at = Vec2i::new(100_000_000, 100_000_000);
    let acts = scene.update(&events(true, true, at));
    assert_eq!(acts.len(), 1);
    assert!(acts[0].fire);
    assert_eq!(acts[0].dx, 10 * DT as i64);
    assert_eq!(scene.get_player(p).unwrap().state, PlayerState::Shoot);
    let bullets = scene.get_bullets(b).unwrap();
    assert_eq!(bullets.len(), 1);
    // Spawned at (148, 130) px this frame and already advanced by it.
    assert_eq!(bullets.bullet_at(0).pos, Vec2i::new(148_000_000 + 100 * DT as i64, 130_000_000));
    let cam = scene.get_camera(c).unwrap();
    assert_eq!(cam.pos(), at);
    assert_eq!(
        cam.macroquad_camera(),
        Some(View { target: at, viewport_height: 700, screen_w: 800, screen_h: 600 })
    );
    assert_eq!(cam.macroquad_camera().unwrap().viewport_width(), 933);
}

#[test]
fn camera_keeps_its_view_without_a_player() {
    let (mut scene, p, _b, c) = game();
    let at = Vec2i::new(5, 6);
    scene.update(&events(false, false, at));
    scene.remove(p).unwrap();
    scene.update(&events(false, false, Vec2i::new(9, 9)));
    assert_eq!(scene.get_camera(c).unwrap().pos(), at);
}

#[test]
fn camera_before_any_frame_looks_at_origin() {
    let cam = Camera::new(Rect::new(0, 0, 400, 400), 700, Handle { index: 0, generation: 0 });
    assert_eq!(cam.pos(), Vec2i::new(0, 0));
    assert_eq!(cam.macroquad_camera(), None);
}

#[test]
fn retiring_removes_solid_projectiles() {
    let (mut scene, _p, b, _c) = game();
    scene.update(&events(true, false, Vec2i::new(0, 0)));
    assert_eq!(scene.get_bullets(b).unwrap().len(), 1);
    assert_eq!(scene.retire_projectiles(b, &vec![true]), Ok(0));
    assert_eq!(scene.get_bullets(b).unwrap().len(), 0);
}

#[test]
fn projectile_hitting_the_player_kills_it() {
    let (mut scene, p, b, _c) = game();
    scene.update(&events(true, false, Vec2i::new(0, 0)));
    // The player is now reported where the projectile is.
    let shot = scene.get_bullets(b).unwrap().bullet_at(0).pos;
    let at = Vec2i::new(shot.x - 1_000_000, shot.y - 1_000_000);
    scene.update(&events(false, false, at));
    let near = scene.get_bullets(b).unwrap().bullet_at(0).pos;
    assert!(near.x >= at.x && near.x < at.x + 20_000_000);
    assert_eq!(scene.retire_projectiles(b, &vec![false]), Ok(1));
    assert_eq!(scene.get_player(p).unwrap().state, PlayerState::Death);
    assert_eq!(scene.resume_tasks(DT), vec![TaskKind::Death]);
    scene.update(&events(false, true, at));
    assert_eq!(scene.get_player(p).unwrap().state, PlayerState::Aftermath);
}

#[test]
fn retiring_through_a_wrong_handle_fails() {
    let (mut scene, p, b, _c) = game();
    assert_eq!(scene.retire_projectiles(p, &vec![]), Err(SceneError::NotFound));
    scene.remove(b).unwrap();
    assert_eq!(scene.retire_projectiles(b, &vec![]), Err(SceneError::StaleHandle));
}

#[test]
fn kill_through_the_scene() {
    let (mut scene, p, b, _c) = game();
    assert_eq!(scene.kill_player(b), Err(SceneError::NotFound));
    assert_eq!(scene.kill_player(p), Ok(()));
    assert_eq!(scene.get_player(p).unwrap().state, PlayerState::Death);
}

#[test]
fn shoot_task_completes_through_the_scene() {
    let (mut scene, p, _b, _c) = game();
    scene.update(&events(true, false, Vec2i::new(0, 0)));
    let mut done = Vec::new();
    for _ in 0..15 {
        done.extend(scene.resume_tasks(DT));
    }
    assert_eq!(done, vec![TaskKind::Shoot]);
    assert_eq!(scene.get_player(p).unwrap().state, PlayerState::Normal);
}

#[test]
fn terrain_cells_with_a_nonzero_tile_are_solid() {
    assert!(is_solid_tile(Some(3)));
    assert!(!is_solid_tile(Some(0)));
    assert!(!is_solid_tile(None));
}
