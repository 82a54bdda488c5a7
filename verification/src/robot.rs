//! A sprite-sheet robot: which animation or still picture shows each of its
//! states, and how an animation steps through its frames.

pub mod laws;

use crate::robot::laws::{lemma_every_frame_has_a_picture, lemma_every_state_is_shown};
use crate::text::{decimal, numbered};
use vstd::prelude::*;

verus! {

/// What the robot can be doing.
#[derive(Clone, Copy, Debug, PartialEq, Eq)]
pub enum RobotState {
    Idle,
    Jump,
    Fall,
    Duck,
    Hit,
    Climb,
    Cheer,
    Back,
    Slide,
    Interact,
    Switch,
    Kick,
    Side,
    Shove,
    ShoveBack,
    Talk,
    AttackKick,
    Hang,
    Hold,
    Show,
    BehindBack,
    Run,
    Attack,
    Think,
    Down,
    Drag,
    Hurt,
    Wide,
    Rope,
    Walk,
    FallDown,
}

/// The animated states by name, each with the number of its frames.
pub const ROBOT_ANIMATIONS: [(&'static str, usize); 6] = [
    ("walk", 8),
    ("run", 3),
    ("attack", 3),
    ("switch", 2),
    ("cheer", 2),
    ("climb", 2),
];

/// The pictures on the sheet by name, each with its column and row.
pub const ROBOT_SPRITES: [(&'static str, [u8; 2]); 45] = [
    ("idle", [0, 0]),
    ("jump", [1, 0]),
    ("fall", [2, 0]),
    ("duck", [3, 0]),
    ("hit", [4, 0]),
    ("climb0", [5, 0]),
    ("climb1", [6, 0]),
    ("cheer0", [7, 0]),
    ("cheer1", [8, 0]),
    ("back", [0, 1]),
    ("slide", [1, 1]),
    ("interact", [2, 1]),
    ("switch0", [3, 1]),
    ("switch1", [4, 1]),
    ("kick", [5, 1]),
    ("side", [6, 1]),
    ("shove", [7, 1]),
    ("shoveBack", [8, 1]),
    ("talk", [0, 2]),
    ("attackKick", [1, 2]),
    ("hang", [2, 2]),
    ("hold", [3, 2]),
    ("show", [4, 2]),
    ("behindBack", [5, 2]),
    ("run0", [6, 2]),
    ("run1", [7, 2]),
    ("run2", [8, 2]),
    ("attack0", [0, 3]),
    ("attack1", [1, 3]),
    ("attack2", [2, 3]),
    ("think", [3, 3]),
    ("down", [4, 3]),
    ("drag", [5, 3]),
    ("hurt", [6, 3]),
    ("wide", [7, 3]),
    ("rope", [8, 3]),
    ("walk0", [0, 4]),
    ("walk1", [1, 4]),
    ("walk2", [2, 4]),
    ("walk3", [3, 4]),
    ("walk4", [4, 4]),
    ("walk5", [5, 4]),
    ("walk6", [6, 4]),
    ("walk7", [7, 4]),
    ("fallDown", [8, 4]),
];

/// The states that [`Robot::dbg_next_state`] steps through.
pub const SOME_STATES: [RobotState; 8] = [
    RobotState::Idle,
    RobotState::Walk,
    RobotState::Run,
    RobotState::Attack,
    RobotState::Switch,
    RobotState::Cheer,
    RobotState::Climb,
    RobotState::Hit,
];

/// The name of `state` on the sheet: the state's own name with a small first
/// letter.
pub open spec fn state_text(state: RobotState) -> &'static str {
    match state {
        RobotState::Idle => "idle",
        RobotState::Jump => "jump",
        RobotState::Fall => "fall",
        RobotState::Duck => "duck",
        RobotState::Hit => "hit",
        RobotState::Climb => "climb",
        RobotState::Cheer => "cheer",
        RobotState::Back => "back",
        RobotState::Slide => "slide",
        RobotState::Interact => "interact",
        RobotState::Switch => "switch",
        RobotState::Kick => "kick",
        RobotState::Side => "side",
        RobotState::Shove => "shove",
        RobotState::ShoveBack => "shoveBack",
        RobotState::Talk => "talk",
        RobotState::AttackKick => "attackKick",
        RobotState::Hang => "hang",
        RobotState::Hold => "hold",
        RobotState::Show => "show",
        RobotState::BehindBack => "behindBack",
        RobotState::Run => "run",
        RobotState::Attack => "attack",
        RobotState::Think => "think",
        RobotState::Down => "down",
        RobotState::Drag => "drag",
        RobotState::Hurt => "hurt",
        RobotState::Wide => "wide",
        RobotState::Rope => "rope",
        RobotState::Walk => "walk",
        RobotState::FallDown => "fallDown",
    }
}

/// The name of `state` on the sheet, letter by letter.
pub open spec fn state_name(state: RobotState) -> Seq<char> {
    state_text(state)@
}

impl RobotState {
    /// The name of the state on the sheet.
    pub fn name(self) -> (name: &'static str)
        ensures
            name == state_text(self),
    {
        match self {
            RobotState::Idle => "idle",
            RobotState::Jump => "jump",
            RobotState::Fall => "fall",
            RobotState::Duck => "duck",
            RobotState::Hit => "hit",
            RobotState::Climb => "climb",
            RobotState::Cheer => "cheer",
            RobotState::Back => "back",
            RobotState::Slide => "slide",
            RobotState::Interact => "interact",
            RobotState::Switch => "switch",
            RobotState::Kick => "kick",
            RobotState::Side => "side",
            RobotState::Shove => "shove",
            RobotState::ShoveBack => "shoveBack",
            RobotState::Talk => "talk",
            RobotState::AttackKick => "attackKick",
            RobotState::Hang => "hang",
            RobotState::Hold => "hold",
            RobotState::Show => "show",
            RobotState::BehindBack => "behindBack",
            RobotState::Run => "run",
            RobotState::Attack => "attack",
            RobotState::Think => "think",
            RobotState::Down => "down",
            RobotState::Drag => "drag",
            RobotState::Hurt => "hurt",
            RobotState::Wide => "wide",
            RobotState::Rope => "rope",
            RobotState::Walk => "walk",
            RobotState::FallDown => "fallDown",
        }
    }
}

impl From<RobotState> for &'static str {
    /// The name of `state` on the sheet.
    fn from(state: RobotState) -> (name: &'static str) {
        state.name()
    }
}

impl vstd::std_specs::convert::FromSpecImpl<RobotState> for &'static str {
    open spec fn obeys_from_spec() -> bool {
        true
    }

    open spec fn from_spec(state: RobotState) -> &'static str {
        state_text(state)
    }
}

/// What stands beside the first name in `table` that is `name`.
pub open spec fn first_named<T>(table: Seq<(&'static str, T)>, name: Seq<char>) -> Option<T>
    decreases table.len(),
{
    if table.len() == 0 {
        None
    } else if table.first().0@ == name {
        Some(table.first().1)
    } else {
        first_named(table.drop_first(), name)
    }
}

/// The number of frames of the animation called `name`.
pub open spec fn frames_of(name: Seq<char>) -> Option<usize> {
    first_named(ROBOT_ANIMATIONS@, name)
}

/// The column and row of the picture called `name`.
pub open spec fn cell_of(name: Seq<char>) -> Option<(u8, u8)> {
    match first_named(ROBOT_SPRITES@, name) {
        Some(cell) => Some((cell[0], cell[1])),
        None => None,
    }
}

/// The number of frames of the animation called `name`.
pub fn animation_frames(name: &str) -> (frames: Option<usize>)
    ensures
        frames == frames_of(name@),
{
    let mut k: usize = 0;
    assert(ROBOT_ANIMATIONS@.skip(0) =~= ROBOT_ANIMATIONS@);
    while k < 6
        invariant
            k <= 6,
            frames_of(name@) == first_named(ROBOT_ANIMATIONS@.skip(k as int), name@),
        decreases 6 - k,
    {
        assert(ROBOT_ANIMATIONS@.skip(k as int).drop_first() =~= ROBOT_ANIMATIONS@.skip(k + 1));
        if *ROBOT_ANIMATIONS[k].0 == *name {
            return Some(ROBOT_ANIMATIONS[k].1);
        }
        k += 1;
    }
    None
}

/// The column and row of the picture called `name`.
pub fn sprite_cell(name: &str) -> (cell: Option<(u8, u8)>)
    ensures
        cell == cell_of(name@),
{
    let mut k: usize = 0;
    assert(ROBOT_SPRITES@.skip(0) =~= ROBOT_SPRITES@);
    while k < 45
        invariant
            k <= 45,
            first_named(ROBOT_SPRITES@, name@) == first_named(
                ROBOT_SPRITES@.skip(k as int),
                name@,
            ),
        decreases 45 - k,
    {
        assert(ROBOT_SPRITES@.skip(k as int).drop_first() =~= ROBOT_SPRITES@.skip(k + 1));
        if *ROBOT_SPRITES[k].0 == *name {
            let cell = ROBOT_SPRITES[k].1;
            return Some((cell[0], cell[1]));
        }
        k += 1;
    }
    None
}

/// A run of frames, shown one after the other and then again from the
/// first.
#[derive(Clone, Copy, Debug, PartialEq, Eq)]
pub struct Animation {
    /// The frame on show, counted from zero.
    pub current_frame: usize,
    /// How many frames there are.
    pub length: usize,
}

impl Animation {
    /// An animation of `length` frames that shows frame `current_frame`.
    pub fn new(current_frame: usize, length: usize) -> (animation: Self)
        ensures
            animation.current_frame == current_frame,
            animation.length == length,
    {
        Self { current_frame, length }
    }

    /// Whether the frame on show is one of the frames.
    pub open spec fn wf(&self) -> bool {
        self.current_frame < self.length
    }

    /// Shows the next frame, and after the last one the first.
    pub fn next(&mut self)
        requires
            old(self).length > 0,
            old(self).current_frame < usize::MAX,
        ensures
            final(self).length == old(self).length,
            final(self).current_frame == (old(self).current_frame + 1) % (old(self).length as int),
    {
        self.current_frame += 1;
        self.current_frame %= self.length;
    }
}

/// How a state is shown.
#[derive(Clone, Copy, Debug, PartialEq, Eq)]
pub enum Drawable {
    /// By an animation.
    Animation(Animation),
    /// By a still picture.
    Sprite,
}

impl Drawable {
    /// Whether this is how `state` is shown: its animation on one of its
    /// frames, or the still picture of a state without animation.
    pub open spec fn fits(self, state: RobotState) -> bool {
        match self {
            Drawable::Animation(animation) => frames_of(state_name(state)) == Some(
                animation.length,
            ) && animation.wf(),
            Drawable::Sprite => frames_of(state_name(state)) is None && cell_of(
                state_name(state),
            ) is Some,
        }
    }

    /// Whether a step can be taken: an animation has a frame to go to, and
    /// the number of the frame on show can still be counted up.
    pub open spec fn can_step(&self) -> bool {
        self matches Drawable::Animation(animation) ==> animation.length > 0
            && animation.current_frame < usize::MAX
    }

    /// What is shown one step later: an animation on its next frame, a still
    /// picture as it is.
    pub open spec fn advanced(self) -> Drawable {
        match self {
            Drawable::Animation(animation) => Drawable::Animation(
                Animation {
                    current_frame: ((animation.current_frame + 1) % (
                    animation.length as int)) as usize,
                    length: animation.length,
                },
            ),
            Drawable::Sprite => Drawable::Sprite,
        }
    }

    /// Steps an animation to its next frame; a still picture stays.
    pub fn next(&mut self)
        requires
            old(self).can_step(),
        ensures
            *final(self) == old(self).advanced(),
    {
        match self {
            Drawable::Animation(animation) => animation.next(),
            Drawable::Sprite => (),
        }
    }
}

/// How each state is shown: six by an animation, the others by a still
/// picture.
pub open spec fn shown_as(state: RobotState) -> Drawable {
    match state {
        RobotState::Walk => Drawable::Animation(Animation { current_frame: 0, length: 8 }),
        RobotState::Run => Drawable::Animation(Animation { current_frame: 0, length: 3 }),
        RobotState::Attack => Drawable::Animation(Animation { current_frame: 0, length: 3 }),
        RobotState::Switch => Drawable::Animation(Animation { current_frame: 0, length: 2 }),
        RobotState::Cheer => Drawable::Animation(Animation { current_frame: 0, length: 2 }),
        RobotState::Climb => Drawable::Animation(Animation { current_frame: 0, length: 2 }),
        _ => Drawable::Sprite,
    }
}

/// How the tables show `state`: by its animation from the first frame where
/// it has one, else by its still picture; a state with neither would keep
/// `current`.
pub open spec fn drawable_for(state: RobotState, current: Option<Drawable>) -> Option<Drawable> {
    match frames_of(state_name(state)) {
        Some(frames) => Some(Drawable::Animation(Animation { current_frame: 0, length: frames })),
        None => match cell_of(state_name(state)) {
            Some(_) => Some(Drawable::Sprite),
            None => current,
        },
    }
}

/// What is shown one step later.
pub open spec fn advanced(drawable: Option<Drawable>) -> Option<Drawable> {
    match drawable {
        Some(shown) => Some(shown.advanced()),
        None => None,
    }
}

/// The picture to draw for `state` shown by `drawable`: for an animation the
/// one named by the state and the number of the frame, for a still picture
/// the one named by the state. `None` where nothing is shown or the sheet has
/// no picture of that name.
pub open spec fn sprite_of(state: RobotState, drawable: Option<Drawable>) -> Option<(u8, u8)> {
    match drawable {
        Some(Drawable::Animation(animation)) => cell_of(
            state_name(state) + decimal(animation.current_frame as nat),
        ),
        Some(Drawable::Sprite) => cell_of(state_name(state)),
        None => None,
    }
}

/// The state that [`Robot::dbg_next_state`] picks for `nth`.
pub open spec fn some_state(nth: usize) -> RobotState {
    SOME_STATES[(nth % 8) as int]
}

/// Every animation in the table has a frame to show.
pub proof fn lemma_animations_have_frames(name: Seq<char>)
    ensures
        frames_of(name) matches Some(frames) ==> frames > 0,
{
    reveal_with_fuel(first_named, 7);
}

/// A robot drawn from a sprite sheet of type `S`.
pub struct Robot<S> {
    spritesheet: S,
    state: RobotState,
    drawable: Option<Drawable>,
}

impl<S> Robot<S> {
    /// What the robot is doing.
    pub closed spec fn state(&self) -> RobotState {
        self.state
    }

    /// How the robot is shown; nothing before its first change of state.
    pub closed spec fn drawable(&self) -> Option<Drawable> {
        self.drawable
    }

    /// The sheet that the robot is drawn from.
    pub closed spec fn sheet(&self) -> S {
        self.spritesheet
    }

    /// What is on show is how the robot's state is shown.
    pub open spec fn wf(&self) -> bool {
        self.drawable() matches Some(shown) ==> shown.fits(self.state())
    }

    /// An idle robot that shows nothing yet.
    pub fn new(spritesheet: S) -> (robot: Self)
        ensures
            robot.wf(),
            robot.sheet() == spritesheet,
            robot.state() is Idle,
            robot.drawable() is None,
    {
        Self { spritesheet, state: RobotState::Idle, drawable: None }
    }

    /// What the robot is doing.
    pub fn current_state(&self) -> (state: RobotState)
        ensures
            state == self.state(),
    {
        self.state
    }

    /// How the robot is shown.
    pub fn shown(&self) -> (drawable: Option<Drawable>)
        ensures
            drawable == self.drawable(),
    {
        self.drawable
    }

    /// The sheet that the robot is drawn from.
    pub fn spritesheet(&self) -> (sheet: &S)
        ensures
            *sheet == self.sheet(),
    {
        &self.spritesheet
    }

    /// One tick of the frame counter: the animation steps on every fourth.
    pub fn update(&mut self, current_frame: u64)
        requires
            old(self).wf(),
        ensures
            final(self).wf(),
            final(self).sheet() == old(self).sheet(),
            final(self).state() == old(self).state(),
            final(self).drawable() == if current_frame % 4 == 0 {
                advanced(old(self).drawable())
            } else {
                old(self).drawable()
            },
    {
        if current_frame % 4 == 0 {
            self.advance_animation();
        }
    }

    /// Puts the robot into one of eight states, picked by `nth` round and
    /// round.
    pub fn dbg_next_state(&mut self, nth: usize)
        ensures
            final(self).wf(),
            final(self).sheet() == old(self).sheet(),
            final(self).state() == some_state(nth),
            final(self).drawable() == Some(shown_as(some_state(nth))),
            final(self).drawable() == drawable_for(some_state(nth), old(self).drawable()),
    {
        self.set_state(SOME_STATES[nth % 8]);
    }

    /// Puts the robot into `state` and shows it accordingly.
    pub fn set_state(&mut self, state: RobotState)
        ensures
            final(self).wf(),
            final(self).sheet() == old(self).sheet(),
            final(self).state() == state,
            final(self).drawable() == Some(shown_as(state)),
            final(self).drawable() == drawable_for(state, old(self).drawable()),
    {
        self.state = state;
        self.set_drawable();
    }

    /// Shows the robot as its state asks.
    pub fn set_drawable(&mut self)
        ensures
            final(self).wf(),
            final(self).sheet() == old(self).sheet(),
            final(self).state() == old(self).state(),
            final(self).drawable() == Some(shown_as(old(self).state())),
            final(self).drawable() == drawable_for(old(self).state(), old(self).drawable()),
    {
        let state_name: &'static str = self.state.into();
        proof {
            lemma_animations_have_frames(state_name@);
            lemma_every_state_is_shown(self.state, None);
        }
        match animation_frames(state_name) {
            Some(frames) => {
                self.drawable = Some(Drawable::Animation(Animation::new(0, frames)));
            },
            None => {
                if sprite_cell(state_name).is_some() {
                    self.drawable = Some(Drawable::Sprite);
                }
            },
        }
    }

    /// Steps the animation on show to its next frame.
    pub fn advance_animation(&mut self)
        requires
            old(self).wf(),
        ensures
            final(self).wf(),
            final(self).sheet() == old(self).sheet(),
            final(self).state() == old(self).state(),
            final(self).drawable() == advanced(old(self).drawable()),
    {
        match &mut self.drawable {
            Some(drawable) => {
                drawable.next();
            },
            None => {},
        }
    }

    /// The column and row of the picture to draw now. Once a state was set
    /// there always is one.
    pub fn sprite(&self) -> (cell: Option<(u8, u8)>)
        ensures
            cell == sprite_of(self.state(), self.drawable()),
            self.wf() && self.drawable() is Some ==> cell is Some,
    {
        match &self.drawable {
            Some(Drawable::Animation(animation)) => {
                proof {
                    if self.wf() {
                        lemma_every_frame_has_a_picture(self.state, animation.current_frame);
                    }
                }
                let sprite_name = numbered(self.state.name(), animation.current_frame);
                sprite_cell(sprite_name.as_str())
            },
            Some(Drawable::Sprite) => sprite_cell(self.state.name()),
            None => None,
        }
    }
}

} // verus!
