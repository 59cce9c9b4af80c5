use vstd::prelude::*;
use crate::player::PlayerState;

verus! {

/// Which way the player sprite faces.
#[derive(Clone, Copy, Debug, PartialEq, Eq, Structural)]
pub enum FacingDir {
    Left,
    Right,
}

/// Which animation the player sprite plays.
#[derive(Clone, Copy, Debug, PartialEq, Eq, Structural)]
pub enum AnimationState {
    Idle,
    Walk,
    Casting,
    Knockback,
}

/// Where an animation lies on the sprite sheet and how it plays.
#[derive(Clone, Copy, Debug, PartialEq, Eq, Structural)]
pub struct AnimationDescription {
    pub start_index: usize,
    pub length: usize,
    pub reversed: bool,
    /// An animation of higher priority interrupts one of lower at once.
    pub priority: i32,
}

/// The animation the player sprite is showing, and its frame.
#[derive(Clone, Copy, Debug, PartialEq, Eq, Structural)]
pub struct PlayerAnimationState {
    pub facing_dir: FacingDir,
    pub anim_state: AnimationState,
    pub index: usize,
}

pub open spec fn spec_animation_description(
    facing_dir: FacingDir,
    anim_state: AnimationState,
) -> AnimationDescription {
    AnimationDescription {
        start_index: match (facing_dir, anim_state) {
            (FacingDir::Left, AnimationState::Idle) => 2,
            (FacingDir::Left, AnimationState::Walk) => 16,
            (FacingDir::Left, AnimationState::Casting) => 29,
            (FacingDir::Left, AnimationState::Knockback) => 0,
            (FacingDir::Right, AnimationState::Idle) => 0,
            (FacingDir::Right, AnimationState::Walk) => 8,
            (FacingDir::Right, AnimationState::Casting) => 24,
            (FacingDir::Right, AnimationState::Knockback) => 2,
        },
        length: match anim_state {
            AnimationState::Idle | AnimationState::Knockback => 1,
            AnimationState::Walk => 8,
            AnimationState::Casting => 3,
        },
        reversed: facing_dir == FacingDir::Left,
        priority: match anim_state {
            AnimationState::Idle | AnimationState::Walk => 0,
            AnimationState::Casting => 5,
            AnimationState::Knockback => 10,
        },
    }
}

/// The sheet position of an animation: knockback over casting over walking
/// and idling; left-facing animations play reversed.
pub fn get_animation_description(facing_dir: FacingDir, anim_state: AnimationState) -> (r:
    AnimationDescription)
    ensures
        r == spec_animation_description(facing_dir, anim_state),
{
    let priority: i32 = match anim_state {
        AnimationState::Idle | AnimationState::Walk => 0,
        AnimationState::Casting => 5,
        AnimationState::Knockback => 10,
    };
    let reversed = match facing_dir {
        FacingDir::Left => true,
        FacingDir::Right => false,
    };
    let length: usize = match anim_state {
        AnimationState::Idle | AnimationState::Knockback => 1,
        AnimationState::Walk => 8,
        AnimationState::Casting => 3,
    };
    let start_index: usize = match (facing_dir, anim_state) {
        (FacingDir::Left, AnimationState::Idle) => 2,
        (FacingDir::Left, AnimationState::Walk) => 16,
        (FacingDir::Left, AnimationState::Casting) => 29,
        (FacingDir::Left, AnimationState::Knockback) => 0,
        (FacingDir::Right, AnimationState::Idle) => 0,
        (FacingDir::Right, AnimationState::Walk) => 8,
        (FacingDir::Right, AnimationState::Casting) => 24,
        (FacingDir::Right, AnimationState::Knockback) => 2,
    };
    AnimationDescription { start_index, length, reversed, priority }
}

/// The sheet index of frame `index` of an animation.
pub open spec fn spec_sprite_index(index: usize, desc: AnimationDescription) -> int {
    if desc.reversed {
        desc.start_index + (desc.length - index - 1)
    } else {
        desc.start_index + index
    }
}

/// The sheet index of frame `index` of an animation of the player sheet.
pub fn sprite_index(index: usize, desc: AnimationDescription) -> (r: usize)
    requires
        index < desc.length,
        desc.start_index + desc.length <= 64,
    ensures
        r == spec_sprite_index(index, desc),
{
    if desc.reversed {
        desc.start_index + (desc.length - index - 1)
    } else {
        desc.start_index + index
    }
}

/// Horizontal motion of the player, as the sprite reads it.
#[derive(Clone, Copy, Debug, PartialEq, Eq, Structural)]
pub enum Drift {
    Right,
    Left,
    Still,
}

/// The facing the player should take: the way it drifts, else unchanged.
pub open spec fn spec_next_facing(current: FacingDir, drift: Drift) -> FacingDir {
    match drift {
        Drift::Right => FacingDir::Right,
        Drift::Left => FacingDir::Left,
        Drift::Still => current,
    }
}

/// The animation the player state calls for.
pub open spec fn spec_next_anim(state: PlayerState, walking: bool) -> AnimationState {
    match state {
        PlayerState::Normal => if walking {
            AnimationState::Walk
        } else {
            AnimationState::Idle
        },
        PlayerState::Casting => AnimationState::Casting,
        PlayerState::Knockback => AnimationState::Knockback,
    }
}

/// The outcome of one animation tick.
#[derive(Clone, Copy, Debug, PartialEq, Eq, Structural)]
pub struct AnimationStep {
    pub state: PlayerAnimationState,
    /// The sheet index to show, when the frame changed.
    pub sprite: Option<usize>,
    /// The frame timer starts over.
    pub reset_timer: bool,
}

pub open spec fn animation_state_ok(a: PlayerAnimationState) -> bool {
    a.index < spec_animation_description(a.facing_dir, a.anim_state).length
}

/// One tick of the player animation.
///
/// A change of facing or animation waits for the frame timer, unless the
/// new animation has a higher priority: then it starts at once, with the
/// timer reset. Otherwise the frame advances, cyclically, when the timer
/// finishes.
pub fn step_animation(
    current: PlayerAnimationState,
    drift: Drift,
    state: PlayerState,
    walking: bool,
    timer_finished: bool,
) -> (r: AnimationStep)
    requires
        animation_state_ok(current),
    ensures
        animation_state_ok(r.state),
        ({
            let desc = spec_animation_description(current.facing_dir, current.anim_state);
            let facing = spec_next_facing(current.facing_dir, drift);
            let anim = spec_next_anim(state, walking);
            let next_desc = spec_animation_description(facing, anim);
            let change = facing != current.facing_dir || anim != current.anim_state;
            let interrupt = change && desc.priority < next_desc.priority;
            if change {
                if timer_finished || interrupt {
                    &&& r.state == (PlayerAnimationState { facing_dir: facing, anim_state: anim, index: 0 })
                    &&& r.sprite == Some(spec_sprite_index(0, next_desc) as usize)
                    &&& r.reset_timer == interrupt
                } else {
                    r == (AnimationStep { state: current, sprite: None, reset_timer: false })
                }
            } else if timer_finished {
                let index = ((current.index + 1) % (desc.length as int)) as usize;
                &&& r.state == (PlayerAnimationState { index, ..current })
                &&& r.sprite == Some(spec_sprite_index(index, desc) as usize)
                &&& !r.reset_timer
            } else {
                r == (AnimationStep { state: current, sprite: None, reset_timer: false })
            }
        }),
{
    let desc = get_animation_description(current.facing_dir, current.anim_state);
    let facing = match drift {
        Drift::Right => FacingDir::Right,
        Drift::Left => FacingDir::Left,
        Drift::Still => current.facing_dir,
    };
    let anim = match state {
        PlayerState::Normal => if walking {
            AnimationState::Walk
        } else {
            AnimationState::Idle
        },
        PlayerState::Casting => AnimationState::Casting,
        PlayerState::Knockback => AnimationState::Knockback,
    };
    let next_desc = get_animation_description(facing, anim);
    let change = facing != current.facing_dir || anim != current.anim_state;
    let interrupt = change && desc.priority < next_desc.priority;
    if change {
        if timer_finished || interrupt {
            let next = PlayerAnimationState { facing_dir: facing, anim_state: anim, index: 0 };
            AnimationStep { state: next, sprite: Some(sprite_index(0, next_desc)), reset_timer: interrupt }
        } else {
            AnimationStep { state: current, sprite: None, reset_timer: false }
        }
    } else if timer_finished {
        let index = (current.index + 1) % desc.length;
        let next = PlayerAnimationState { index, ..current };
        AnimationStep { state: next, sprite: Some(sprite_index(index, desc)), reset_timer: false }
    } else {
        AnimationStep { state: current, sprite: None, reset_timer: false }
    }
}

} // verus!
