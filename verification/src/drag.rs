//! The pointer-drag state machine shared by the grid demos: starting and
//! ending a drag, resize drags while the modifier key is held, toggle
//! drags otherwise, and the border drag of the flexible UI grid.

use vstd::prelude::*;
use crate::Vec2Fx;
use crate::grid::CellGeom;
use crate::mouse::{
    CLICK_BOUND,
    GEOM_LIMIT,
    CellState,
    cells_bounded,
    click_hits,
    pos_bounded,
    toggle_at_cursor,
    within,
};

verus! {

/// Which border of the UI grid a drag is moving.
#[derive(Clone, Copy, PartialEq, Eq, Structural, Debug)]
pub enum DragType {
    ColumnBorder(usize),
    RowBorder(usize),
}

/// The transient state of an in-progress pointer drag.
#[derive(Clone, Copy, PartialEq, Eq, Structural, Debug)]
pub struct DragState {
    pub is_dragging: bool,
    pub drag_type: Option<DragType>,
    pub start_position: Vec2Fx,
    pub border_index: usize,
}

impl Default for DragState {
    /// No drag in progress.
    fn default() -> (r: Self)
        ensures
            r == (DragState {
                is_dragging: false,
                drag_type: None,
                start_position: Vec2Fx { x: 0, y: 0 },
                border_index: 0,
            }),
    {
        DragState {
            is_dragging: false,
            drag_type: None,
            start_position: Vec2Fx { x: 0, y: 0 },
            border_index: 0,
        }
    }
}

/// On a fresh button press, a drag begins at the cursor; otherwise nothing
/// changes. Returns whether a drag began.
pub fn handle_drag_start(just_pressed: bool, state: &mut DragState, cursor: Vec2Fx) -> (r: bool)
    ensures
        r == just_pressed,
        just_pressed ==> *final(state) == (DragState {
            is_dragging: true,
            start_position: cursor,
            ..*old(state)
        }),
        !just_pressed ==> *final(state) == *old(state),
{
    if just_pressed {
        state.is_dragging = true;
        state.start_position = cursor;
        true
    } else {
        false
    }
}

/// On a button release, the drag ends and its kind is cleared; otherwise
/// nothing changes. Returns whether a drag ended.
pub fn handle_drag_end(just_released: bool, state: &mut DragState) -> (r: bool)
    ensures
        r == just_released,
        just_released ==> *final(state) == (DragState {
            is_dragging: false,
            drag_type: None,
            ..*old(state)
        }),
        !just_released ==> *final(state) == *old(state),
{
    if just_released {
        state.is_dragging = false;
        state.drag_type = None;
        true
    } else {
        false
    }
}

/// A request to resize the cell at (row, col) by the drag displacement,
/// measured from the cursor back to the drag start.
#[derive(Clone, Copy, PartialEq, Eq, Structural, Debug)]
pub struct ResizeCell {
    pub row: usize,
    pub col: usize,
    pub delta_x: i64,
    pub delta_y: i64,
}

/// The test a resize drag uses to find the dragged cell: the drag start
/// within half the cell's width horizontally, and within the fixed click
/// bound vertically.
pub open spec fn resize_hit(start: Vec2Fx, cell: CellGeom) -> bool {
    within(
        start,
        cell.center_x - cell.width / 2,
        cell.center_x + cell.width / 2,
        cell.center_y - CLICK_BOUND,
        cell.center_y + CLICK_BOUND,
    )
}

/// A well-formed resize request: its displacement runs from the cursor
/// back to the drag start, and its indices name the first cell under the
/// drag start, which is not the top-left one.
pub open spec fn resize_request_ok(
    e: ResizeCell,
    start: Vec2Fx,
    cursor: Vec2Fx,
    cells: Seq<CellGeom>,
) -> bool {
    &&& e.delta_x == start.x - cursor.x
    &&& e.delta_y == start.y - cursor.y
    &&& exists|i: int|
        {
            &&& 0 <= i < cells.len()
            &&& resize_hit(start, #[trigger] cells[i])
            &&& e.row == cells[i].row
            &&& e.col == cells[i].col
            &&& !(cells[i].row == 0 && cells[i].col == 0)
            &&& forall|j: int| 0 <= j < i ==> !resize_hit(start, #[trigger] cells[j])
        }
}

/// No resize request is owed: either no cell lies under the drag start,
/// or the first one that does is the top-left cell.
pub open spec fn no_resize_target(start: Vec2Fx, cells: Seq<CellGeom>) -> bool {
    ||| forall|i: int| 0 <= i < cells.len() ==> !resize_hit(start, #[trigger] cells[i])
    ||| exists|i: int|
        {
            &&& 0 <= i < cells.len()
            &&& resize_hit(start, #[trigger] cells[i])
            &&& cells[i].row == 0 && cells[i].col == 0
            &&& forall|j: int| 0 <= j < i ==> !resize_hit(start, #[trigger] cells[j])
        }
}

/// Finds the cell under the drag start and asks for it to be resized by
/// the displacement from the drag start back to the cursor. The top-left
/// cell (0, 0) never resizes: it doubles as the "nothing found" marker.
pub fn handle_resize_drag(state: &DragState, cursor: Vec2Fx, cells: &Vec<CellGeom>) -> (r: Option<
    ResizeCell,
>)
    requires
        cells_bounded(cells@),
        pos_bounded(state.start_position),
        pos_bounded(cursor),
    ensures
        r matches Some(e) ==> resize_request_ok(e, state.start_position, cursor, cells@),
        r is None ==> no_resize_target(state.start_position, cells@),
{
    match first_resize_hit(state.start_position, cells) {
        Some((row, col)) => {
            if col != 0 || row != 0 {
                Some(
                    ResizeCell {
                        row,
                        col,
                        delta_x: state.start_position.x - cursor.x,
                        delta_y: state.start_position.y - cursor.y,
                    },
                )
            } else {
                None
            }
        },
        None => None,
    }
}

/// One track of the UI grid template: a fractional share or a fixed pixel
/// size, in thousandths.
#[derive(Clone, Copy, PartialEq, Eq, Structural, Debug)]
pub enum Track {
    Fr(u64),
    Px(u64),
}

/// The fractional share a column border drag asks for: two plus 0.01 of
/// the horizontal displacement, rounded toward zero, never below 0.1.
pub open spec fn fr_from_delta(dx: int) -> int {
    let raw = if dx >= 0 {
        2000 + dx * 10 / 1000
    } else {
        2000 - (-dx) * 10 / 1000
    };
    if raw < 100 {
        100
    } else {
        raw
    }
}

/// The pixel size a row border drag asks for: eighty pixels plus the
/// vertical displacement, never below thirty pixels.
pub open spec fn px_from_delta(dy: int) -> int {
    if 80_000 + dy < 30_000 {
        30_000
    } else {
        80_000 + dy
    }
}

/// Computes the fractional share for a column border drag.
pub fn fr_track_value(dx: i64) -> (r: u64)
    requires
        -2 * GEOM_LIMIT <= dx <= 2 * GEOM_LIMIT,
    ensures
        r == fr_from_delta(dx as int),
        r >= 100,
{
    if dx >= 0 {
        let grow = (dx as u64) * 10 / 1000;
        2000 + grow
    } else {
        let shrink = ((-(dx as i128)) as u128 * 10 / 1000) as u64;
        if shrink >= 1900 {
            100
        } else {
            2000 - shrink
        }
    }
}

/// Computes the pixel size for a row border drag.
pub fn px_track_value(dy: i64) -> (r: u64)
    requires
        -2 * GEOM_LIMIT <= dy <= 2 * GEOM_LIMIT,
    ensures
        r == px_from_delta(dy as int),
        r >= 30_000,
{
    if dy < 0 {
        let mag = (-dy) as u64;
        if mag >= 50_000 {
            30_000
        } else {
            80_000 - mag
        }
    } else {
        80_000 + dy as u64
    }
}

/// One frame of the UI grid's border drag: a fresh press starts dragging
/// the first column border, a release stops dragging, and while a drag is
/// live the dragged border's track follows the displacement — a column
/// border sets a fractional share, a row border a pixel size. Only the
/// first border of each kind is ever dragged.
pub fn handle_drag_border(
    just_pressed: bool,
    just_released: bool,
    grid_exists: bool,
    state: &mut DragState,
    cursor: Vec2Fx,
    cols: &mut Vec<Track>,
    rows: &mut Vec<Track>,
)
    requires
        pos_bounded(cursor),
        pos_bounded(old(state).start_position),
    ensures
        just_pressed && grid_exists ==> *final(state) == (DragState {
            is_dragging: true,
            start_position: cursor,
            drag_type: Some(DragType::ColumnBorder(0)),
            border_index: 0,
        }) && final(cols)@ == old(cols)@ && final(rows)@ == old(rows)@,
        just_pressed && !grid_exists ==> *final(state) == *old(state) && final(cols)@ == old(cols)@
            && final(rows)@ == old(rows)@,
        !just_pressed && just_released ==> final(cols)@ == old(cols)@ && final(rows)@ == old(rows)@
            && *final(state) == if old(state).is_dragging {
            DragState { is_dragging: false, drag_type: None, ..*old(state) }
        } else {
            *old(state)
        },
        !just_pressed && !just_released ==> *final(state) == *old(state),
        !just_pressed && !just_released && !old(state).is_dragging ==> final(cols)@ == old(cols)@
            && final(rows)@ == old(rows)@,
        !just_pressed && !just_released && old(state).is_dragging ==> {
            &&& final(cols)@ == if old(state).drag_type == Some(DragType::ColumnBorder(0))
                && old(cols)@.len() > 0 {
                old(cols)@.update(
                    0,
                    Track::Fr(
                        fr_from_delta(cursor.x - old(state).start_position.x) as u64,
                    ),
                )
            } else {
                old(cols)@
            }
            &&& final(rows)@ == if old(state).drag_type matches Some(DragType::RowBorder(ri))
                && ri == 0 && old(rows)@.len() > 0 {
                old(rows)@.update(
                    0,
                    Track::Px(
                        px_from_delta(cursor.y - old(state).start_position.y) as u64,
                    ),
                )
            } else {
                old(rows)@
            }
        },
{
    if just_pressed {
        if grid_exists {
            state.is_dragging = true;
            state.start_position = cursor;
            state.drag_type = Some(DragType::ColumnBorder(0));
            state.border_index = 0;
        }
    } else if just_released {
        if state.is_dragging {
            state.is_dragging = false;
            state.drag_type = None;
        }
    } else if state.is_dragging {
        let delta_x = cursor.x - state.start_position.x;
        let delta_y = cursor.y - state.start_position.y;
        match state.drag_type {
            Some(DragType::ColumnBorder(col_index)) => {
                if col_index < cols.len() && col_index == 0 {
                    let value = fr_track_value(delta_x);
                    let slot = vstd::std_specs::vec::vec_index_mut(cols, 0);
                    *slot = Track::Fr(value);
                }
            },
            Some(DragType::RowBorder(row_index)) => {
                if row_index < rows.len() && row_index == 0 {
                    let value = px_track_value(delta_y);
                    let slot = vstd::std_specs::vec::vec_index_mut(rows, 0);
                    *slot = Track::Px(value);
                }
            },
            None => {},
        }
    }
}

/// The (row, col) of the first cell whose resize rectangle contains the
/// drag start, if any.
fn first_resize_hit(start: Vec2Fx, cells: &Vec<CellGeom>) -> (r: Option<(usize, usize)>)
    requires
        cells_bounded(cells@),
        pos_bounded(start),
    ensures
        r is None ==> forall|i: int|
            0 <= i < cells@.len() ==> !resize_hit(start, #[trigger] cells@[i]),
        r matches Some(rc) ==> exists|i: int|
            {
                &&& 0 <= i < cells@.len()
                &&& resize_hit(start, #[trigger] cells@[i])
                &&& rc == (cells@[i].row, cells@[i].col)
                &&& forall|j: int| 0 <= j < i ==> !resize_hit(start, #[trigger] cells@[j])
            },
{
    let mut i: usize = 0;
    while i < cells.len()
        invariant
            i <= cells@.len(),
            cells_bounded(cells@),
            pos_bounded(start),
            forall|j: int| 0 <= j < i ==> !resize_hit(start, #[trigger] cells@[j]),
        decreases cells@.len() - i,
    {
        let cell = cells[i];
        let half_width = (cell.width / 2) as i64;
        if cell.center_x - half_width <= start.x && start.x <= cell.center_x + half_width
            && cell.center_y - CLICK_BOUND <= start.y && start.y <= cell.center_y + CLICK_BOUND {
            return Some((cell.row, cell.col));
        }
        i += 1;
    }
    None
}

/// What one frame of the drag handler did.
#[derive(Clone, Copy, PartialEq, Eq, Structural, Debug)]
pub enum DragOutcome {
    /// A drag just began.
    Started,
    /// A drag just ended.
    Ended,
    /// A resize drag asks for a cell to be resized.
    ResizeRequested(ResizeCell),
    /// A toggle drag flipped the cells under the cursor.
    ToggleDragged,
    /// Nothing to do this frame.
    Idle,
}

/// One frame of the mesh grid's drag handling: a fresh press starts a
/// drag, a release ends it; while a drag is live, holding the modifier
/// turns it into a resize request on the cell under the drag start, and
/// otherwise it toggles every cell under the cursor.
pub fn handle_mouse_drag(
    just_pressed: bool,
    just_released: bool,
    resize_modifier: bool,
    state: &mut DragState,
    cursor: Vec2Fx,
    geometry: &Vec<CellGeom>,
    cells: &mut Vec<CellState>,
) -> (r: DragOutcome)
    requires
        cells_bounded(geometry@),
        pos_bounded(old(state).start_position),
        pos_bounded(cursor),
        forall|i: int| 0 <= i < old(cells)@.len() ==> pos_bounded(#[trigger] old(cells)@[i].pos),
    ensures
        just_pressed ==> r == DragOutcome::Started && *final(state) == (DragState {
            is_dragging: true,
            start_position: cursor,
            ..*old(state)
        }) && final(cells)@ == old(cells)@,
        !just_pressed && just_released ==> r == DragOutcome::Ended && *final(state) == (DragState {
            is_dragging: false,
            drag_type: None,
            ..*old(state)
        }) && final(cells)@ == old(cells)@,
        !just_pressed && !just_released ==> *final(state) == *old(state),
        !just_pressed && !just_released && !old(state).is_dragging ==> r == DragOutcome::Idle
            && final(cells)@ == old(cells)@,
        !just_pressed && !just_released && old(state).is_dragging && resize_modifier ==> {
            &&& final(cells)@ == old(cells)@
            &&& (r matches DragOutcome::ResizeRequested(e) ==> resize_request_ok(
                e,
                old(state).start_position,
                cursor,
                geometry@,
            ))
            &&& (r == DragOutcome::Idle ==> no_resize_target(
                old(state).start_position,
                geometry@,
            ))
            &&& (r is ResizeRequested || r == DragOutcome::Idle)
        },
        !just_pressed && !just_released && old(state).is_dragging && !resize_modifier ==> {
            &&& r == DragOutcome::ToggleDragged
            &&& final(cells)@.len() == old(cells)@.len()
            &&& forall|i: int|
                0 <= i < old(cells)@.len() ==> #[trigger] final(cells)@[i] == if click_hits(
                    cursor,
                    old(cells)@[i],
                ) {
                    CellState { is_black: !old(cells)@[i].is_black, ..old(cells)@[i] }
                } else {
                    old(cells)@[i]
                }
        },
{
    if handle_drag_start(just_pressed, state, cursor) {
        return DragOutcome::Started;
    }
    if handle_drag_end(just_released, state) {
        return DragOutcome::Ended;
    }
    if state.is_dragging {
        if resize_modifier {
            match handle_resize_drag(state, cursor, geometry) {
                Some(event) => DragOutcome::ResizeRequested(event),
                None => DragOutcome::Idle,
            }
        } else {
            toggle_at_cursor(cursor, cells);
            DragOutcome::ToggleDragged
        }
    } else {
        DragOutcome::Idle
    }
}

} // verus!
