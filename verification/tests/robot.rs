use image_browser::robot::{
    animation_frames, sprite_cell, Animation, Drawable, Robot, RobotState, ROBOT_ANIMATIONS,
    ROBOT_SPRITES, SOME_STATES,
};

const ALL_STATES: [RobotState; 31] = [
    RobotState::Idle,
    RobotState::Jump,
    RobotState::Fall,
    RobotState::Duck,
    RobotState::Hit,
    RobotState::Climb,
    RobotState::Cheer,
    RobotState::Back,
    RobotState::Slide,
    RobotState::Interact,
    RobotState::Switch,
    RobotState::Kick,
    RobotState::Side,
    RobotState::Shove,
    RobotState::ShoveBack,
    RobotState::Talk,
    RobotState::AttackKick,
    RobotState::Hang,
    RobotState::Hold,
    RobotState::Show,
    RobotState::BehindBack,
    RobotState::Run,
    RobotState::Attack,
    RobotState::Think,
    RobotState::Down,
    RobotState::Drag,
    RobotState::Hurt,
    RobotState::Wide,
    RobotState::Rope,
    RobotState::Walk,
    RobotState::FallDown,
];

fn animated(frames: usize) -> Option<Drawable> {
    Some(Drawable::Animation(Animation { current_frame: 0, length: frames }))
}

#[test]
fn state_names_start_small_and_keep_inner_capitals() {
    assert_eq!(RobotState::Idle.name(), "idle");
    assert_eq!(RobotState::Walk.name(), "walk");
    assert_eq!(RobotState::ShoveBack.name(), "shoveBack");
    assert_eq!(RobotState::AttackKick.name(), "attackKick");
    assert_eq!(RobotState::BehindBack.name(), "behindBack");
    assert_eq!(RobotState::FallDown.name(), "fallDown");
}

#[test]
fn a_state_converts_into_its_name() {
    let name: &'static str = RobotState::ShoveBack.into();
    assert_eq!(name, "shoveBack");
    for state in ALL_STATES {
        let converted: &'static str = state.into();
        assert_eq!(converted, state.name());
    }
}

#[test]
fn state_names_follow_the_variant_names() {
    for state in ALL_STATES {
        let variant = format!("{state:?}");
        let mut expected = variant.clone();
        let first = expected.remove(0).to_ascii_lowercase();
        expected.insert(0, first);
        assert_eq!(state.name(), expected);
    }
}

#[test]
fn animation_frames_reads_the_table() {
    assert_eq!(animation_frames("walk"), Some(8));
    assert_eq!(animation_frames("run"), Some(3));
    assert_eq!(animation_frames("attack"), Some(3));
    assert_eq!(animation_frames("switch"), Some(2));
    assert_eq!(animation_frames("cheer"), Some(2));
    assert_eq!(animation_frames("climb"), Some(2));
    assert_eq!(animation_frames("idle"), None);
    assert_eq!(animation_frames("walk0"), None);
    assert_eq!(animation_frames(""), None);
    assert_eq!(ROBOT_ANIMATIONS.len(), 6);
}

#[test]
fn sprite_cell_reads_the_sheet() {
    assert_eq!(sprite_cell("idle"), Some((0, 0)));
    assert_eq!(sprite_cell("cheer1"), Some((8, 0)));
    assert_eq!(sprite_cell("shoveBack"), Some((8, 1)));
    assert_eq!(sprite_cell("attack0"), Some((0, 3)));
    assert_eq!(sprite_cell("walk7"), Some((7, 4)));
    assert_eq!(sprite_cell("fallDown"), Some((8, 4)));
    assert_eq!(sprite_cell("walk"), None);
    assert_eq!(sprite_cell("walk8"), None);
    assert_eq!(sprite_cell("Idle"), None);
    assert_eq!(ROBOT_SPRITES.len(), 45);
}

#[test]
fn new_robot_is_idle_and_shows_nothing() {
    let robot = Robot::new("sheet");
    assert_eq!(robot.current_state(), RobotState::Idle);
    assert_eq!(robot.shown(), None);
    assert_eq!(robot.sprite(), None);
    assert_eq!(*robot.spritesheet(), "sheet");
}

#[test]
fn animated_states_start_at_their_first_frame() {
    let mut robot = Robot::new(());
    for (state, frames) in [
        (RobotState::Walk, 8),
        (RobotState::Run, 3),
        (RobotState::Attack, 3),
        (RobotState::Switch, 2),
        (RobotState::Cheer, 2),
        (RobotState::Climb, 2),
    ] {
        robot.set_state(state);
        assert_eq!(robot.current_state(), state);
        assert_eq!(robot.shown(), animated(frames));
    }
}

#[test]
fn other_states_show_a_still_picture() {
    let mut robot = Robot::new(());
    robot.set_state(RobotState::Walk);
    robot.set_state(RobotState::Idle);
    assert_eq!(robot.shown(), Some(Drawable::Sprite));
    assert_eq!(robot.sprite(), Some((0, 0)));
    robot.set_state(RobotState::FallDown);
    assert_eq!(robot.shown(), Some(Drawable::Sprite));
    assert_eq!(robot.sprite(), Some((8, 4)));
}

#[test]
fn every_state_has_a_picture_on_every_frame() {
    let mut robot = Robot::new(());
    for state in ALL_STATES {
        robot.set_state(state);
        for _ in 0..10 {
            assert!(robot.sprite().is_some());
            robot.advance_animation();
        }
    }
}

#[test]
fn walk_steps_through_its_eight_pictures_and_starts_again() {
    let mut robot = Robot::new(());
    robot.set_state(RobotState::Walk);
    for round in 0..2 {
        for frame in 0..8u8 {
            assert_eq!(robot.sprite(), Some((frame, 4)), "round {round}");
            robot.advance_animation();
        }
    }
    assert_eq!(robot.shown(), animated(8));
}

#[test]
fn run_uses_the_numbered_pictures() {
    let mut robot = Robot::new(());
    robot.set_state(RobotState::Run);
    assert_eq!(robot.sprite(), Some((6, 2)));
    robot.advance_animation();
    assert_eq!(robot.sprite(), Some((7, 2)));
    robot.advance_animation();
    assert_eq!(robot.sprite(), Some((8, 2)));
    robot.advance_animation();
    assert_eq!(robot.sprite(), Some((6, 2)));
}

#[test]
fn update_steps_on_every_fourth_frame() {
    let mut robot = Robot::new(());
    robot.set_state(RobotState::Attack);
    let mut seen = Vec::new();
    for frame in 0..9u64 {
        robot.update(frame);
        match robot.shown() {
            Some(Drawable::Animation(animation)) => seen.push(animation.current_frame),
            other => panic!("attack is animated, not {other:?}"),
        }
    }
    assert_eq!(seen, vec![1, 1, 1, 1, 2, 2, 2, 2, 0]);
}

#[test]
fn advance_leaves_a_still_picture_and_an_unset_robot_alone() {
    let mut robot = Robot::new(());
    robot.advance_animation();
    robot.update(0);
    assert_eq!(robot.shown(), None);
    robot.set_state(RobotState::Duck);
    robot.advance_animation();
    assert_eq!(robot.shown(), Some(Drawable::Sprite));
    assert_eq!(robot.sprite(), Some((3, 0)));
}

#[test]
fn dbg_next_state_goes_round_eight_states() {
    let expected = [
        RobotState::Idle,
        RobotState::Walk,
        RobotState::Run,
        RobotState::Attack,
        RobotState::Switch,
        RobotState::Cheer,
        RobotState::Climb,
        RobotState::Hit,
    ];
    assert_eq!(SOME_STATES, expected);
    let mut robot = Robot::new(());
    for nth in 0..20 {
        robot.dbg_next_state(nth);
        assert_eq!(robot.current_state(), expected[nth % 8]);
    }
    robot.dbg_next_state(usize::MAX);
    assert_eq!(robot.current_state(), expected[usize::MAX % 8]);
}

#[test]
fn set_drawable_starts_the_animation_again() {
    let mut robot = Robot::new(());
    robot.set_state(RobotState::Cheer);
    robot.advance_animation();
    assert_eq!(
        robot.shown(),
        Some(Drawable::Animation(Animation { current_frame: 1, length: 2 }))
    );
    robot.set_drawable();
    assert_eq!(robot.shown(), animated(2));
}

#[test]
fn animation_next_wraps_at_its_length() {
    let mut animation = Animation::new(0, 3);
    animation.next();
    assert_eq!(animation, Animation { current_frame: 1, length: 3 });
    animation.next();
    animation.next();
    assert_eq!(animation, Animation { current_frame: 0, length: 3 });
    let mut single = Animation::new(0, 1);
    single.next();
    assert_eq!(single.current_frame, 0);
    let mut beyond = Animation::new(7, 3);
    beyond.next();
    assert_eq!(beyond.current_frame, 2);
}

#[test]
fn drawable_next_steps_only_animations() {
    let mut still = Drawable::Sprite;
    still.next();
    assert_eq!(still, Drawable::Sprite);
    let mut moving = Drawable::Animation(Animation::new(1, 2));
    moving.next();
    assert_eq!(moving, Drawable::Animation(Animation { current_frame: 0, length: 2 }));
}
