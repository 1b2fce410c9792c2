use oneko::pet::{
    dir_from_signs, dir_step, next_action, select_sprite, CatState, DeltaSigns, Dir, Pet,
    PetAction, Sprite, ARRIVAL_REST_TICKS, LEDGE_SCAN_TICKS,
};

fn signs(dx: f32, dy: f32) -> DeltaSigns {
    let adx = dx.abs();
    let ady = dy.abs();
    DeltaSigns {
        mostly_horizontal: adx > ady * 2.0,
        mostly_vertical: ady > adx * 2.0,
        right: dx > 0.0,
        down: dy > 0.0,
        not_left: dx >= 0.0,
        not_down: dy <= 0.0,
    }
}

#[test]
fn sitting_and_washing_sprites() {
    assert_eq!(select_sprite(CatState::Sitting, Dir::N, true, 7), Sprite::Sitting);
    assert_eq!(select_sprite(CatState::Washing, Dir::N, true, 0), Sprite::Washing1);
    assert_eq!(select_sprite(CatState::Washing, Dir::SW, false, 0), Sprite::Washing2);
}

#[test]
fn sleeping_sprite_flips_every_four_ticks() {
    let at = |t: u32| select_sprite(CatState::Sleeping, Dir::E, true, t);
    assert_eq!(at(0), Sprite::Sleeping1);
    assert_eq!(at(3), Sprite::Sleeping1);
    assert_eq!(at(4), Sprite::Sleeping2);
    assert_eq!(at(7), Sprite::Sleeping2);
    assert_eq!(at(8), Sprite::Sleeping1);
    assert_eq!(at(40), Sprite::Sleeping1);
    assert_eq!(select_sprite(CatState::Sleeping, Dir::W, false, 5), Sprite::Sleeping2);
}

#[test]
fn walking_sprites_follow_direction_and_frame() {
    let table = [
        (Dir::E, Sprite::Right1, Sprite::Right2),
        (Dir::W, Sprite::Left1, Sprite::Left2),
        (Dir::N, Sprite::Up1, Sprite::Up2),
        (Dir::S, Sprite::Down1, Sprite::Down2),
        (Dir::NE, Sprite::Ne1, Sprite::Ne2),
        (Dir::NW, Sprite::Nw1, Sprite::Nw2),
        (Dir::SE, Sprite::Se1, Sprite::Se2),
        (Dir::SW, Sprite::Sw1, Sprite::Sw2),
    ];
    for (d, one, two) in table {
        assert_eq!(select_sprite(CatState::Chasing, d, true, 0), one);
        assert_eq!(select_sprite(CatState::Chasing, d, false, 99), two);
    }
}

#[test]
fn facing_straight_and_diagonal() {
    assert_eq!(dir_from_signs(signs(10.0, 1.0)), Dir::E);
    assert_eq!(dir_from_signs(signs(-10.0, 4.9)), Dir::W);
    assert_eq!(dir_from_signs(signs(1.0, 10.0)), Dir::S);
    assert_eq!(dir_from_signs(signs(-2.0, -10.0)), Dir::N);
    assert_eq!(dir_from_signs(signs(5.0, -5.0)), Dir::NE);
    assert_eq!(dir_from_signs(signs(-5.0, -5.0)), Dir::NW);
    assert_eq!(dir_from_signs(signs(5.0, 5.0)), Dir::SE);
    assert_eq!(dir_from_signs(signs(-5.0, 5.0)), Dir::SW);
    // exactly twice as far horizontally is still a diagonal
    assert_eq!(dir_from_signs(signs(10.0, 5.0)), Dir::SE);
    // no offset at all faces north-east
    assert_eq!(dir_from_signs(signs(0.0, 0.0)), Dir::NE);
}

#[test]
fn facing_never_points_away() {
    for dx in -20i32..=20 {
        for dy in -20i32..=20 {
            let d = dir_from_signs(signs(dx as f32, dy as f32));
            let (sx, sy) = dir_step(d);
            assert!(sx as i32 * dx >= 0 && sy as i32 * dy >= 0);
            if dx != 0 || dy != 0 {
                assert!(sx as i32 * dx + sy as i32 * dy > 0);
            }
        }
    }
}

#[test]
fn direction_steps() {
    assert_eq!(dir_step(Dir::N), (0, -1));
    assert_eq!(dir_step(Dir::NE), (1, -1));
    assert_eq!(dir_step(Dir::E), (1, 0));
    assert_eq!(dir_step(Dir::SE), (1, 1));
    assert_eq!(dir_step(Dir::S), (0, 1));
    assert_eq!(dir_step(Dir::SW), (-1, 1));
    assert_eq!(dir_step(Dir::W), (-1, 0));
    assert_eq!(dir_step(Dir::NW), (-1, -1));
}

#[test]
fn next_action_table() {
    // wandering
    assert_eq!(next_action(PetAction::Wandering(Dir::N), 29), (PetAction::Sitting, 20));
    // 130: r = 30, dir 130 % 8 = 2 (E), ticks 15 + 130 % 15 = 15 + 10
    assert_eq!(next_action(PetAction::Wandering(Dir::N), 130), (PetAction::Wandering(Dir::E), 25));
    // sitting
    assert_eq!(next_action(PetAction::Sitting, 5), (PetAction::Washing, 20));
    // 47: r = 47, dir 47 % 8 = 7 (NW), ticks 15 + 47 % 15 = 17
    assert_eq!(next_action(PetAction::Sitting, 47), (PetAction::Wandering(Dir::NW), 17));
    assert_eq!(next_action(PetAction::Sitting, 60), (PetAction::Sitting, 20));
    // washing
    assert_eq!(next_action(PetAction::Washing, 149), (PetAction::Sleeping, 40));
    assert_eq!(next_action(PetAction::Washing, 50), (PetAction::Sitting, 20));
    // 70: dir 70 % 8 = 6 (W), ticks 15 + 70 % 15 = 25
    assert_eq!(next_action(PetAction::Washing, 70), (PetAction::Wandering(Dir::W), 25));
    // sleeping
    assert_eq!(next_action(PetAction::Sleeping, 19), (PetAction::Sitting, 20));
    assert_eq!(next_action(PetAction::Sleeping, 20), (PetAction::Sleeping, 40));
    assert_eq!(next_action(PetAction::Sleeping, u32::MAX), (PetAction::Sleeping, 40));
}

#[test]
fn habits_hold_for_many_times() {
    let actions = [
        PetAction::Wandering(Dir::S),
        PetAction::Sitting,
        PetAction::Washing,
        PetAction::Sleeping,
    ];
    for a in actions {
        for t in 0..1000u32 {
            let (n, ticks) = next_action(a, t);
            assert!((15..=40).contains(&ticks));
            if n == PetAction::Washing {
                assert_eq!(a, PetAction::Sitting);
            }
            if n == PetAction::Sleeping {
                assert!(a == PetAction::Washing || a == PetAction::Sleeping);
            }
        }
    }
}

#[test]
fn new_pet() {
    let p = Pet::new();
    assert_eq!(p.dir, Dir::E);
    assert!(!p.frame);
    assert_eq!(p.action, PetAction::Sitting);
    assert_eq!(p.action_ticks, 0);
    assert!(!p.mouse_down);
    assert_eq!(p.ledge_timer, LEDGE_SCAN_TICKS);
}

#[test]
fn idle_step_picks_action_and_faces_walk() {
    let mut p = Pet::new();
    p.idle_step(47);
    assert_eq!(p.action, PetAction::Wandering(Dir::NW));
    assert_eq!(p.action_ticks, 17);
    assert_eq!(p.dir, Dir::NW);
    p.idle_step(0);
    assert_eq!(p.action, PetAction::Wandering(Dir::NW));
    assert_eq!(p.action_ticks, 16);
    p.hit_edge();
    assert_eq!(p.action_ticks, 0);
    p.idle_step(10);
    assert_eq!(p.action, PetAction::Sitting);
    assert_eq!(p.action_ticks, 20);
    assert_eq!(p.dir, Dir::NW);
}

#[test]
fn rests_after_arrival() {
    let mut p = Pet::new();
    p.idle_step(47);
    assert!(!p.arrive_if_close(false));
    assert!(p.arrive_if_close(true));
    assert_eq!(p.action, PetAction::Sitting);
    assert_eq!(p.action_ticks, ARRIVAL_REST_TICKS);
    for k in 0..160u32 {
        p.idle_step(k * 7 + 3);
        assert_eq!(p.action, PetAction::Sitting);
        assert_eq!(p.action_ticks, 159 - k);
    }
    p.idle_step(5);
    assert_eq!(p.action, PetAction::Washing);
}

#[test]
fn no_arrival_while_button_held() {
    let mut p = Pet::new();
    p.press();
    assert!(p.mouse_down);
    assert!(!p.arrive_if_close(true));
    p.release();
    assert!(!p.mouse_down);
    assert!(p.arrive_if_close(true));
}

#[test]
fn press_makes_the_cat_sit() {
    let mut p = Pet::new();
    p.idle_step(130);
    p.press();
    assert_eq!(p.action, PetAction::Sitting);
    assert_eq!(p.action_ticks, 0);
    assert_eq!(p.state(false), CatState::Sitting);
    assert_eq!(p.state(true), CatState::Chasing);
}

#[test]
fn ledge_timer_counts_down_with_button_up() {
    let mut p = Pet::new();
    for _ in 0..LEDGE_SCAN_TICKS {
        assert!(!p.ledge_scan_due());
    }
    assert_eq!(p.ledge_timer, 0);
    p.press();
    assert!(!p.ledge_scan_due());
    assert_eq!(p.ledge_timer, 0);
    p.release();
    assert!(p.ledge_scan_due());
    assert_eq!(p.ledge_timer, LEDGE_SCAN_TICKS);
}

#[test]
fn shown_state() {
    let mut p = Pet::new();
    assert_eq!(p.state(false), CatState::Sitting);
    p.action = PetAction::Washing;
    assert_eq!(p.state(false), CatState::Washing);
    p.action = PetAction::Sleeping;
    assert_eq!(p.state(false), CatState::Sleeping);
    p.action = PetAction::Wandering(Dir::S);
    assert_eq!(p.state(false), CatState::Chasing);
    p.next_frame();
    assert!(p.frame);
    p.next_frame();
    assert!(!p.frame);
}
