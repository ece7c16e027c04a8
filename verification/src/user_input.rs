//! The decisions behind raw input: which command a key stands for, which
//! units a click or a drag box selects, and how a selection action changes
//! each unit.
//!
//! Device capture itself — key codes, mouse buttons, cursor projection —
//! is the windowing collaborator's business; it hands the core plain
//! characters, positions and times.

use vstd::prelude::*;

verus! {

use crate::EntityId;
use crate::POS_LIMIT;
use crate::UnitComponent;
use crate::UnitUiCommand;
use crate::UnitUiSpeedCommand;
use crate::XyPos;

/// Two clicks of the same button within this window, in milliseconds, are
/// a double click.
pub const DOUBLE_CLICK_WINDOW_MS: u64 = 500;

/// Minimum edge length of a drag box, in thousandths of a world unit; a
/// smaller drag is a plain click.
pub const DRAG_SELECT_MIN_BOX: i64 = 100_000;

/// What a mouse action asks for: picking one spot, sweeping a box, or an
/// attack/move action at a spot.
#[derive(Clone, Copy, Debug)]
pub enum MouseCommand {
    SingleSelect(XyPos),
    DragSelect { start: XyPos, end: XyPos },
    /// Attack or move, depending on what stands at the spot.
    Action(XyPos),
}

/// Selection-mode state fed by key and button transitions.
#[derive(Clone, Copy, Debug)]
pub struct InputState {
    /// Control held: clicking adds to the selection.
    pub is_multi_select_on: bool,
    /// Shift held: clicking toggles each hit unit.
    pub is_toggle_select_on: bool,
    /// When the last mouse action happened, for double-click detection.
    pub last_mouse_action_ms: Option<u64>,
    /// Where a left-button drag began, while one is underway.
    pub drag_select_start: Option<XyPos>,
}

impl Default for InputState {
    fn default() -> (r: InputState)
        ensures
            r == (InputState {
                is_multi_select_on: false,
                is_toggle_select_on: false,
                last_mouse_action_ms: None,
                drag_select_start: None,
            }),
    {
        InputState {
            is_multi_select_on: false,
            is_toggle_select_on: false,
            last_mouse_action_ms: None,
            drag_select_start: None,
        }
    }
}

/// The unit action a pressed key stands for, if any.
pub open spec fn spec_ui_command_for_key(key: char) -> Option<UnitUiCommand> {
    if key == 's' {
        Some(UnitUiCommand::Stop)
    } else if key == 'r' {
        Some(UnitUiCommand::ToggleSpeed)
    } else if key == 'g' {
        Some(UnitUiCommand::ToggleGuardMode)
    } else if key == 'f' {
        Some(UnitUiCommand::ToggleFireAtWill)
    } else {
        None
    }
}

pub fn ui_command_for_key(key: char) -> (r: Option<UnitUiCommand>)
    ensures
        r == spec_ui_command_for_key(key),
{
    if key == 's' {
        Some(UnitUiCommand::Stop)
    } else if key == 'r' {
        Some(UnitUiCommand::ToggleSpeed)
    } else if key == 'g' {
        Some(UnitUiCommand::ToggleGuardMode)
    } else if key == 'f' {
        Some(UnitUiCommand::ToggleFireAtWill)
    } else {
        None
    }
}

/// A second click of the same kind within the window is a double click.
pub fn is_double_click_interval(now_ms: u64, prev_ms: u64) -> (r: bool)
    requires
        prev_ms <= now_ms,
    ensures
        r == (now_ms - prev_ms < DOUBLE_CLICK_WINDOW_MS),
{
    now_ms - prev_ms < DOUBLE_CLICK_WINDOW_MS
}

/// Is the position inside the sprite's click box?  The box spans one full
/// sprite size in every direction from the sprite's centre.
pub open spec fn spec_position_within_sprite(
    position_to_check: XyPos,
    sprite_position: XyPos,
    sprite_size: XyPos,
) -> bool {
    &&& position_to_check.x < sprite_position.x + sprite_size.x
    &&& position_to_check.x > sprite_position.x - sprite_size.x
    &&& position_to_check.y < sprite_position.y + sprite_size.y
    &&& position_to_check.y > sprite_position.y - sprite_size.y
}

pub fn is_position_within_sprite(
    position_to_check: &XyPos,
    sprite_position: &XyPos,
    sprite_size: &XyPos,
) -> (r: bool)
    requires
        -POS_LIMIT <= position_to_check.x <= POS_LIMIT,
        -POS_LIMIT <= position_to_check.y <= POS_LIMIT,
        -POS_LIMIT <= sprite_position.x <= POS_LIMIT,
        -POS_LIMIT <= sprite_position.y <= POS_LIMIT,
        0 <= sprite_size.x <= POS_LIMIT,
        0 <= sprite_size.y <= POS_LIMIT,
    ensures
        r == spec_position_within_sprite(*position_to_check, *sprite_position, *sprite_size),
{
    position_to_check.x < sprite_position.x + sprite_size.x && position_to_check.x
        > sprite_position.x - sprite_size.x && position_to_check.y < sprite_position.y
        + sprite_size.y && position_to_check.y > sprite_position.y - sprite_size.y
}

/// Is the position inside the box swept from `corner` to `end`, whichever
/// way the sweep ran?
pub open spec fn spec_translation_within_box(
    position_to_check: XyPos,
    corner: XyPos,
    end: XyPos,
) -> bool {
    let in_x = if end.x - corner.x > 0 {
        corner.x < position_to_check.x && position_to_check.x < end.x
    } else {
        corner.x > position_to_check.x && position_to_check.x > end.x
    };
    let in_y = if end.y - corner.y > 0 {
        corner.y < position_to_check.y && position_to_check.y < end.y
    } else {
        corner.y > position_to_check.y && position_to_check.y > end.y
    };
    in_x && in_y
}

pub fn is_translation_within_box(position_to_check: &XyPos, corner: &XyPos, end: &XyPos) -> (r:
    bool)
    requires
        -POS_LIMIT <= corner.x <= POS_LIMIT,
        -POS_LIMIT <= corner.y <= POS_LIMIT,
        -POS_LIMIT <= end.x <= POS_LIMIT,
        -POS_LIMIT <= end.y <= POS_LIMIT,
    ensures
        r == spec_translation_within_box(*position_to_check, *corner, *end),
{
    let in_x = if end.x - corner.x > 0 {
        corner.x < position_to_check.x && position_to_check.x < end.x
    } else {
        corner.x > position_to_check.x && position_to_check.x > end.x
    };
    let in_y = if end.y - corner.y > 0 {
        corner.y < position_to_check.y && position_to_check.y < end.y
    } else {
        corner.y > position_to_check.y && position_to_check.y > end.y
    };
    in_x && in_y
}

/// What a released left button asks for: a drag that swept at least the
/// minimum box in both directions selects the box; anything else picks the
/// released spot.
pub open spec fn spec_resolve_left_release(
    drag_select_start: Option<XyPos>,
    mouse_position: XyPos,
) -> MouseCommand {
    match drag_select_start {
        Some(start) => {
            let dx = if start.x >= mouse_position.x {
                start.x - mouse_position.x
            } else {
                mouse_position.x - start.x
            };
            let dy = if start.y >= mouse_position.y {
                start.y - mouse_position.y
            } else {
                mouse_position.y - start.y
            };
            if dx > DRAG_SELECT_MIN_BOX && dy > DRAG_SELECT_MIN_BOX {
                MouseCommand::DragSelect { start, end: mouse_position }
            } else {
                MouseCommand::SingleSelect(mouse_position)
            }
        },
        None => MouseCommand::SingleSelect(mouse_position),
    }
}

pub fn resolve_left_release(drag_select_start: Option<XyPos>, mouse_position: XyPos) -> (r:
    MouseCommand)
    requires
        (match drag_select_start {
            Some(start) => -POS_LIMIT <= start.x <= POS_LIMIT && -POS_LIMIT <= start.y <= POS_LIMIT,
            None => true,
        }),
        -POS_LIMIT <= mouse_position.x <= POS_LIMIT,
        -POS_LIMIT <= mouse_position.y <= POS_LIMIT,
    ensures
        r == spec_resolve_left_release(drag_select_start, mouse_position),
{
    match drag_select_start {
        Some(start) => {
            let dx = if start.x >= mouse_position.x {
                start.x - mouse_position.x
            } else {
                mouse_position.x - start.x
            };
            let dy = if start.y >= mouse_position.y {
                start.y - mouse_position.y
            } else {
                mouse_position.y - start.y
            };
            if dx > DRAG_SELECT_MIN_BOX && dy > DRAG_SELECT_MIN_BOX {
                MouseCommand::DragSelect { start, end: mouse_position }
            } else {
                MouseCommand::SingleSelect(mouse_position)
            }
        }
        None => MouseCommand::SingleSelect(mouse_position),
    }
}

/// What an action click asks of the selected units: attack the unit under
/// the cursor if there is one, else move to the spot; a double click means
/// running.
pub open spec fn spec_action_for_click(
    target: Option<EntityId>,
    position: XyPos,
    is_double_click: bool,
) -> UnitUiCommand {
    let speed = if is_double_click {
        UnitUiSpeedCommand::Run
    } else {
        UnitUiSpeedCommand::Walk
    };
    match target {
        Some(t) => UnitUiCommand::Attack(t, speed),
        None => UnitUiCommand::Move(position, speed),
    }
}

pub fn action_for_click(target: Option<EntityId>, position: XyPos, is_double_click: bool) -> (r:
    UnitUiCommand)
    ensures
        r == spec_action_for_click(target, position, is_double_click),
{
    let speed = if is_double_click {
        UnitUiSpeedCommand::Run
    } else {
        UnitUiSpeedCommand::Walk
    };
    match target {
        Some(t) => UnitUiCommand::Attack(t, speed),
        None => UnitUiCommand::Move(position, speed),
    }
}

/// How a selection action lands on one unit: a hit unit is selected, or
/// toggled when toggle-select is held; a missed unit keeps its selection
/// while multi- or toggle-select is held and is deselected otherwise.
pub open spec fn spec_selection_outcome(
    unit: UnitComponent,
    was_hit: bool,
    toggle_on: bool,
    multi_on: bool,
) -> UnitComponent {
    if was_hit {
        if toggle_on {
            UnitComponent { is_selected: !unit.is_selected, ..unit }
        } else {
            UnitComponent { is_selected: true, ..unit }
        }
    } else {
        if !(multi_on || toggle_on) {
            UnitComponent { is_selected: false, ..unit }
        } else {
            unit
        }
    }
}

/// Applies one selection action to one unit.
pub fn apply_selection(unit: &mut UnitComponent, was_hit: bool, toggle_on: bool, multi_on: bool)
    ensures
        *final(unit) == spec_selection_outcome(*old(unit), was_hit, toggle_on, multi_on),
{
    if was_hit {
        if toggle_on {
            unit.invert_select();
        } else {
            unit.select();
        }
    } else {
        if !(multi_on || toggle_on) {
            unit.deselect();
        }
    }
}

} // verus!
