use quadcopter::geom::Vec2i;
use quadcopter::player::{
    Contacts, Input, Player, PlayerAction, PlayerState, TaskKind, MAX_SPEED, MOVE_SPEED,
    SHOOT_COOLDOWN,
};

const DT: u32 = 16_667;


fn keys(left: bool, right: bool, fire: bool) -> Input {
    Input { up: false, down: false, left, right, fire }
}

fn free() -> Contacts {
    Contacts { top: false, bottom: false, left: false, right: false }
}

fn start() -> Vec2i {
    Vec2i::new(100_000_000, 100_000_000)
}

#[test]
fn new_player_starts_normal_facing_right() {
    let p = Player::new();
    assert_eq!(p.state, PlayerState::Normal);
    assert_eq!(p.get_pos(), start());
    assert!(p.flip);
    assert!(!p.dead);
    assert!(p.task.is_none());
}

#[test]
fn fire_in_normal_enters_shoot_and_fires() {
    let mut p = Player::new();
    let act = p.update(keys(false, false, true), free(), start(), DT);
    assert!(act.fire);
    assert_eq!(p.state, PlayerState::Shoot);
    assert_eq!(p.task.unwrap().kind, TaskKind::Shoot);
    // A second fire while shooting asks for nothing.
    let act2 = p.update(keys(false, false, true), free(), start(), DT);
    assert!(!act2.fire);
}

#[test]
fn shoot_task_returns_to_normal_after_its_wait() {
    let mut p = Player::new();
    p.update(keys(false, false, true), free(), start(), DT);
    let frames = (SHOOT_COOLDOWN as u32 + DT - 1) / DT;
    for n in 0..frames {
        assert_eq!(p.state, PlayerState::Shoot);
        let done = p.resume_task(DT);
        if n + 1 < frames {
            assert_eq!(done, None);
        } else {
            assert_eq!(done, Some(TaskKind::Shoot));
        }
        p.update(keys(false, true, false), free(), start(), DT);
    }
    assert_eq!(p.state, PlayerState::Normal);
    assert!(p.task.is_none());
}

#[test]
fn kill_leads_to_death_then_aftermath_forever() {
    let mut p = Player::new();
    p.update(keys(false, true, false), free(), start(), DT);
    assert_eq!(p.speed.x, MOVE_SPEED);
    p.kill(true);
    assert_eq!(p.state, PlayerState::Death);
    assert!(!p.dead);
    assert_eq!(p.resume_task(DT), Some(TaskKind::Death));
    assert!(p.dead);
    for _ in 0..20 {
        let act = p.update(keys(true, true, true), free(), start(), DT);
        assert_eq!(act, PlayerAction { dx: 0, dy: 0, fire: false });
        assert_eq!(p.state, PlayerState::Aftermath);
        assert_eq!(p.speed.x, 0);
        p.kill(false);
        assert_eq!(p.resume_task(DT), None);
    }
}

#[test]
fn kill_while_shooting_enters_death() {
    let mut p = Player::new();
    p.update(keys(false, false, true), free(), start(), DT);
    p.kill(false);
    assert_eq!(p.state, PlayerState::Death);
    assert_eq!(p.task.unwrap().kind, TaskKind::Death);
}

#[test]
fn holding_right_ramps_speed_and_moves_right() {
    // The collider is moved by what the player asks, in open space.
    let mut p = Player::new();
    let mut at = start();
    for n in 1..=5i64 {
        let act = p.update(keys(false, true, false), free(), at, DT);
        assert_eq!(p.speed.x, n * MOVE_SPEED);
        assert_eq!(act.dx, n * MOVE_SPEED * DT as i64);
        assert_eq!(act.dy, 0);
        let next = Vec2i::new(at.x + act.dx, at.y + act.dy);
        assert!(next.x > at.x);
        at = next;
    }
    assert_eq!(at.x, 100_000_000 + 15 * MOVE_SPEED * DT as i64);
    assert_eq!(p.get_pos().x, 100_000_000 + 10 * MOVE_SPEED * DT as i64);
    assert!(p.flip);
}

#[test]
fn speed_stops_at_the_cap() {
    let mut p = Player::new();
    for _ in 0..100 {
        p.update(keys(true, false, false), free(), start(), DT);
    }
    assert_eq!(p.speed.x, -MAX_SPEED);
    assert!(!p.flip);
}

#[test]
fn contact_zeroes_speed_and_blocks_that_side() {
    let mut p = Player::new();
    for _ in 0..3 {
        p.update(keys(false, true, false), free(), start(), DT);
    }
    assert_eq!(p.speed.x, 30);
    let blocked = Contacts { top: false, bottom: false, left: false, right: true };
    let act = p.update(keys(false, true, false), blocked, start(), DT);
    assert_eq!(p.speed.x, 0);
    assert_eq!(act.dx, 0);
    let act = p.update(keys(true, false, false), blocked, start(), DT);
    assert_eq!(p.speed.x, -10);
    assert!(act.dx < 0);
    let ground = Contacts { top: false, bottom: true, left: false, right: false };
    let down = Input { up: false, down: true, left: false, right: false, fire: false };
    let act = p.update(down, ground, start(), DT);
    assert_eq!(p.speed.y, 0);
    assert_eq!(act.dy, 0);
    let up = Input { up: true, down: false, left: false, right: false, fire: false };
    let act = p.update(up, ground, start(), DT);
    assert_eq!(p.speed.y, -10);
    assert_eq!(act.dy, -10 * DT as i64);
}

#[test]
fn position_comes_from_the_collider() {
    let mut p = Player::new();
    let at = Vec2i::new(5, 7);
    p.update(keys(false, false, false), free(), at, DT);
    assert_eq!(p.get_pos(), at);
    p.set_pos(&Vec2i::new(1, 2));
    assert_eq!(p.pos, Vec2i::new(1, 2));
}

#[test]
fn state_update_functions() {
    let mut p = Player::new();
    p.speed = Vec2i::new(30, 20);
    p.update_normal(DT);
    p.update_shoot(DT);
    assert_eq!(p.speed, Vec2i::new(30, 20));
    p.update_aftermatch(DT);
    assert_eq!(p.speed, Vec2i::new(0, 20));
    assert_eq!(p.shoot_coroutine().wait, SHOOT_COOLDOWN);
    assert_eq!(p.death_coroutine().kind, TaskKind::Death);
}
