//! What holds of the robot's tables: every state has a way to be shown, and
//! every frame of every animation has its picture on the sheet.

use crate::robot::{
    cell_of, drawable_for, first_named, frames_of, shown_as, state_name, Drawable, RobotState,
    ROBOT_SPRITES,
};
use crate::text::decimal;
use vstd::prelude::*;

verus! {

/// The table of animations, read entry by entry.
pub proof fn lemma_frames_of(name: Seq<char>)
    ensures
        frames_of(name) == if name == "walk"@ {
            Some(8usize)
        } else if name == "run"@ {
            Some(3usize)
        } else if name == "attack"@ {
            Some(3usize)
        } else if name == "switch"@ {
            Some(2usize)
        } else if name == "cheer"@ {
            Some(2usize)
        } else if name == "climb"@ {
            Some(2usize)
        } else {
            None
        },
{
    reveal_with_fuel(first_named, 7);
}

/// A name has a picture on the sheet as soon as one entry of the sheet is
/// called so.
pub proof fn lemma_cell_of(name: Seq<char>, k: int)
    requires
        0 <= k < 45,
        ROBOT_SPRITES[k].0@ == name,
    ensures
        cell_of(name) is Some,
{
    lemma_first_named_finds(ROBOT_SPRITES@, name, k);
}

/// A table has something beside `name` as soon as one of its entries is
/// called so.
pub proof fn lemma_first_named_finds<T>(table: Seq<(&'static str, T)>, name: Seq<char>, k: int)
    requires
        0 <= k < table.len(),
        table[k].0@ == name,
    ensures
        first_named(table, name) is Some,
    decreases table.len(),
{
    if table.first().0@ != name {
        lemma_first_named_finds(table.drop_first(), name, k - 1);
    }
}

/// The names of the six animations, letter by letter.
proof fn lemma_animation_names()
    ensures
        "walk"@ == seq!['w', 'a', 'l', 'k'],
        "run"@ == seq!['r', 'u', 'n'],
        "attack"@ == seq!['a', 't', 't', 'a', 'c', 'k'],
        "switch"@ == seq!['s', 'w', 'i', 't', 'c', 'h'],
        "cheer"@ == seq!['c', 'h', 'e', 'e', 'r'],
        "climb"@ == seq!['c', 'l', 'i', 'm', 'b'],
{
    reveal_strlit("walk");
    reveal_strlit("run");
    reveal_strlit("attack");
    reveal_strlit("switch");
    reveal_strlit("cheer");
    reveal_strlit("climb");
    assert("walk"@ =~= seq!['w', 'a', 'l', 'k']);
    assert("run"@ =~= seq!['r', 'u', 'n']);
    assert("attack"@ =~= seq!['a', 't', 't', 'a', 'c', 'k']);
    assert("switch"@ =~= seq!['s', 'w', 'i', 't', 'c', 'h']);
    assert("cheer"@ =~= seq!['c', 'h', 'e', 'e', 'r']);
    assert("climb"@ =~= seq!['c', 'l', 'i', 'm', 'b']);
}

/// A text that differs from each animation's name in its length or in one
/// of its first two letters is the name of no animation.
proof fn lemma_no_animation(name: Seq<char>)
    requires
        name.len() >= 2,
        !(name.len() == 4 && name[0] == 'w' && name[1] == 'a'),
        !(name.len() == 3 && name[0] == 'r'),
        !(name.len() == 6 && name[0] == 'a'),
        !(name.len() == 6 && name[0] == 's' && name[1] == 'w'),
        !(name.len() == 5 && name[0] == 'c'),
    ensures
        frames_of(name) is None,
{
    lemma_animation_names();
    lemma_frames_of(name);
}

/// Every state has a way to be shown: the six animated ones their animation,
/// from its first frame, and every other its still picture.
pub proof fn lemma_every_state_is_shown(state: RobotState, current: Option<Drawable>)
    ensures
        drawable_for(state, current) == Some(shown_as(state)),
{
    let name = state_name(state);
    match state {
        RobotState::Walk | RobotState::Run | RobotState::Attack | RobotState::Switch
        | RobotState::Cheer | RobotState::Climb => {
            lemma_animation_names();
            lemma_frames_of(name);
        },
        RobotState::Idle => {
            reveal_strlit("idle");
            lemma_no_animation(name);
            lemma_cell_of(name, 0);
        },
        RobotState::Jump => {
            reveal_strlit("jump");
            lemma_no_animation(name);
            lemma_cell_of(name, 1);
        },
        RobotState::Fall => {
            reveal_strlit("fall");
            lemma_no_animation(name);
            lemma_cell_of(name, 2);
        },
        RobotState::Duck => {
            reveal_strlit("duck");
            lemma_no_animation(name);
            lemma_cell_of(name, 3);
        },
        RobotState::Hit => {
            reveal_strlit("hit");
            lemma_no_animation(name);
            lemma_cell_of(name, 4);
        },
        RobotState::Back => {
            reveal_strlit("back");
            lemma_no_animation(name);
            lemma_cell_of(name, 9);
        },
        RobotState::Slide => {
            reveal_strlit("slide");
            lemma_no_animation(name);
            lemma_cell_of(name, 10);
        },
        RobotState::Interact => {
            reveal_strlit("interact");
            lemma_no_animation(name);
            lemma_cell_of(name, 11);
        },
        RobotState::Kick => {
            reveal_strlit("kick");
            lemma_no_animation(name);
            lemma_cell_of(name, 14);
        },
        RobotState::Side => {
            reveal_strlit("side");
            lemma_no_animation(name);
            lemma_cell_of(name, 15);
        },
        RobotState::Shove => {
            reveal_strlit("shove");
            lemma_no_animation(name);
            lemma_cell_of(name, 16);
        },
        RobotState::ShoveBack => {
            reveal_strlit("shoveBack");
            lemma_no_animation(name);
            lemma_cell_of(name, 17);
        },
        RobotState::Talk => {
            reveal_strlit("talk");
            lemma_no_animation(name);
            lemma_cell_of(name, 18);
        },
        RobotState::AttackKick => {
            reveal_strlit("attackKick");
            lemma_no_animation(name);
            lemma_cell_of(name, 19);
        },
        RobotState::Hang => {
            reveal_strlit("hang");
            lemma_no_animation(name);
            lemma_cell_of(name, 20);
        },
        RobotState::Hold => {
            reveal_strlit("hold");
            lemma_no_animation(name);
            lemma_cell_of(name, 21);
        },
        RobotState::Show => {
            reveal_strlit("show");
            lemma_no_animation(name);
            lemma_cell_of(name, 22);
        },
        RobotState::BehindBack => {
            reveal_strlit("behindBack");
            lemma_no_animation(name);
            lemma_cell_of(name, 23);
        },
        RobotState::Think => {
            reveal_strlit("think");
            lemma_no_animation(name);
            lemma_cell_of(name, 30);
        },
        RobotState::Down => {
            reveal_strlit("down");
            lemma_no_animation(name);
            lemma_cell_of(name, 31);
        },
        RobotState::Drag => {
            reveal_strlit("drag");
            lemma_no_animation(name);
            lemma_cell_of(name, 32);
        },
        RobotState::Hurt => {
            reveal_strlit("hurt");
            lemma_no_animation(name);
            lemma_cell_of(name, 33);
        },
        RobotState::Wide => {
            reveal_strlit("wide");
            lemma_no_animation(name);
            lemma_cell_of(name, 34);
        },
        RobotState::Rope => {
            reveal_strlit("rope");
            lemma_no_animation(name);
            lemma_cell_of(name, 35);
        },
        RobotState::FallDown => {
            reveal_strlit("fallDown");
            lemma_no_animation(name);
            lemma_cell_of(name, 44);
        },
    }
}

/// Every frame of every animation has its picture on the sheet, under the
/// animation's name followed by the number of the frame.
pub proof fn lemma_every_frame_has_a_picture(state: RobotState, frame: usize)
    requires
        frames_of(state_name(state)) matches Some(frames) && frame < frames,
    ensures
        cell_of(state_name(state) + decimal(frame as nat)) is Some,
{
    let name = state_name(state);
    let numbered = name + decimal(frame as nat);
    lemma_every_state_is_shown(state, None);
    lemma_animation_names();
    lemma_frames_of(name);
    match state {
        RobotState::Walk => {
            if frame == 0 {
                reveal_strlit("walk0");
                assert(numbered =~= "walk0"@);
                lemma_cell_of(numbered, 36);
            } else if frame == 1 {
                reveal_strlit("walk1");
                assert(numbered =~= "walk1"@);
                lemma_cell_of(numbered, 37);
            } else if frame == 2 {
                reveal_strlit("walk2");
                assert(numbered =~= "walk2"@);
                lemma_cell_of(numbered, 38);
            } else if frame == 3 {
                reveal_strlit("walk3");
                assert(numbered =~= "walk3"@);
                lemma_cell_of(numbered, 39);
            } else if frame == 4 {
                reveal_strlit("walk4");
                assert(numbered =~= "walk4"@);
                lemma_cell_of(numbered, 40);
            } else if frame == 5 {
                reveal_strlit("walk5");
                assert(numbered =~= "walk5"@);
                lemma_cell_of(numbered, 41);
            } else if frame == 6 {
                reveal_strlit("walk6");
                assert(numbered =~= "walk6"@);
                lemma_cell_of(numbered, 42);
            } else if frame == 7 {
                reveal_strlit("walk7");
                assert(numbered =~= "walk7"@);
                lemma_cell_of(numbered, 43);
            }
        },
        RobotState::Run => {
            if frame == 0 {
                reveal_strlit("run0");
                assert(numbered =~= "run0"@);
                lemma_cell_of(numbered, 24);
            } else if frame == 1 {
                reveal_strlit("run1");
                assert(numbered =~= "run1"@);
                lemma_cell_of(numbered, 25);
            } else if frame == 2 {
                reveal_strlit("run2");
                assert(numbered =~= "run2"@);
                lemma_cell_of(numbered, 26);
            }
        },
        RobotState::Attack => {
            if frame == 0 {
                reveal_strlit("attack0");
                assert(numbered =~= "attack0"@);
                lemma_cell_of(numbered, 27);
            } else if frame == 1 {
                reveal_strlit("attack1");
                assert(numbered =~= "attack1"@);
                lemma_cell_of(numbered, 28);
            } else if frame == 2 {
                reveal_strlit("attack2");
                assert(numbered =~= "attack2"@);
                lemma_cell_of(numbered, 29);
            }
        },
        RobotState::Switch => {
            if frame == 0 {
                reveal_strlit("switch0");
                assert(numbered =~= "switch0"@);
                lemma_cell_of(numbered, 12);
            } else if frame == 1 {
                reveal_strlit("switch1");
                assert(numbered =~= "switch1"@);
                lemma_cell_of(numbered, 13);
            }
        },
        RobotState::Cheer => {
            if frame == 0 {
                reveal_strlit("cheer0");
                assert(numbered =~= "cheer0"@);
                lemma_cell_of(numbered, 7);
            } else if frame == 1 {
                reveal_strlit("cheer1");
                assert(numbered =~= "cheer1"@);
                lemma_cell_of(numbered, 8);
            }
        },
        RobotState::Climb => {
            if frame == 0 {
                reveal_strlit("climb0");
                assert(numbered =~= "climb0"@);
                lemma_cell_of(numbered, 5);
            } else if frame == 1 {
                reveal_strlit("climb1");
                assert(numbered =~= "climb1"@);
                lemma_cell_of(numbered, 6);
            }
        },
        _ => {},
    }
}

} // verus!
