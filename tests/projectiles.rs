use quadcopter::bullets::{Bullet, Bullets, BULLET_LIFETIME, BULLET_SPEED};
use quadcopter::geom::{Rect, Vec2i};
use quadcopter::handle::Handle;

fn manager() -> Bullets {
    Bullets::new(Handle { index: 0, generation: 0 })
}

#[test]
fn spawn_facing_right_lands_ahead_of_muzzle() {
    let mut b = manager();
    b.spawn_bullet(Vec2i::new(100_000_000, 100_000_000), true);
    assert_eq!(b.len(), 1);
    let p = b.bullet_at(0);
    assert_eq!(p.pos, Vec2i::new(148_000_000, 130_000_000));
    assert_eq!(p.speed, Vec2i::new(100, 0));
    assert_eq!(p.lived, 0);
    assert_eq!(p.lifetime, 10_000_000);
}

#[test]
fn spawn_facing_left_lands_behind_muzzle() {
    let mut b = manager();
    b.spawn_bullet(Vec2i::new(100_000_000, 100_000_000), false);
    let p = b.bullet_at(0);
    assert_eq!(p.pos, Vec2i::new(84_000_000, 130_000_000));
    assert_eq!(p.speed, Vec2i::new(-100, 0));
}

#[test]
fn update_moves_by_speed_times_frame() {
    let mut b = manager();
    b.spawn_bullet(Vec2i::new(0, 0), true);
    b.update(16_667);
    let p = b.bullet_at(0);
    assert_eq!(p.pos.x, 48_000_000 + BULLET_SPEED * 16_667);
    assert_eq!(p.pos.y, 30_000_000);
    assert_eq!(p.lived, 16_667);
}

#[test]
fn lifetime_strictly_increases_until_expiry() {
    let mut b = manager();
    b.spawn_bullet(Vec2i::new(0, 0), false);
    let mut last = b.bullet_at(0).lived;
    let mut frames = 0;
    while b.len() > 0 {
        b.update(1_000_000);
        frames += 1;
        if b.len() > 0 {
            let now = b.bullet_at(0).lived;
            assert!(now > last);
            assert!(now < BULLET_LIFETIME);
            last = now;
        }
    }
    assert_eq!(frames, 10);
}

#[test]
fn expired_projectile_is_removed_on_the_frame_it_expires() {
    let mut b = manager();
    b.spawn_bullet(Vec2i::new(0, 0), true);
    b.update(9_999_999);
    assert_eq!(b.len(), 1);
    b.update(1);
    assert_eq!(b.len(), 0);
}

#[test]
fn solid_projectile_is_removed_in_the_same_pass() {
    let mut b = manager();
    b.spawn_bullet(Vec2i::new(0, 0), true);
    b.spawn_bullet(Vec2i::new(0, 0), false);
    b.spawn_bullet(Vec2i::new(1_000_000, 0), true);
    let hits = b.retire(&vec![false, true, false], None);
    assert_eq!(hits, 0);
    assert_eq!(b.len(), 2);
    assert_eq!(b.bullet_at(0).speed.x, 100);
    assert_eq!(b.bullet_at(1).pos.x, 49_000_000);
}

#[test]
fn projectile_in_hit_box_is_removed_and_counted() {
    let mut b = manager();
    b.spawn_bullet(Vec2i::new(0, 0), true);
    b.spawn_bullet(Vec2i::new(0, 0), false);
    // The first lies at (48, 30) px, inside a box from (40, 0) px of 20 by 64 px.
    let hit_box = Rect::new(40_000_000, 0, 20_000_000, 64_000_000);
    let hits = b.retire(&vec![false, false], Some(hit_box));
    assert_eq!(hits, 1);
    assert_eq!(b.len(), 1);
    assert_eq!(b.bullet_at(0).speed.x, -100);
}

#[test]
fn positions_follow_the_projectiles() {
    let mut b = manager();
    b.spawn_bullet(Vec2i::new(0, 0), true);
    b.spawn_bullet(Vec2i::new(0, 10_000_000), false);
    assert_eq!(
        b.positions(),
        vec![Vec2i::new(48_000_000, 30_000_000), Vec2i::new(-16_000_000, 40_000_000)]
    );
}

#[test]
fn rect_contains_left_top_edges_only() {
    let r = Rect::new(0, 0, 10, 10);
    assert!(r.contains(Vec2i::new(0, 0)));
    assert!(r.contains(Vec2i::new(9, 9)));
    assert!(!r.contains(Vec2i::new(10, 5)));
    assert!(!r.contains(Vec2i::new(5, 10)));
    assert!(!r.contains(Vec2i::new(-1, 5)));
}

#[test]
fn bare_bullet_steps_in_its_direction() {
    let mut b = quadcopter::bullet::Bullet::new(0, 5, true);
    b.update();
    assert_eq!(b.pos, Vec2i::new(10_000_000, 5));
    let mut c = quadcopter::bullet::Bullet::new(0, 5, false);
    c.update();
    assert_eq!(c.pos, Vec2i::new(-10_000_000, 5));
}

#[test]
fn bullet_record_is_plain_data() {
    let b = Bullet { pos: Vec2i::new(1, 2), speed: Vec2i::new(3, 0), lived: 4, lifetime: 5 };
    assert_eq!(b.clone(), b);
}
