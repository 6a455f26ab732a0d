//! Mouse input of the terminal interface: what an event asks for, and which
//! row of a bordered list a click falls on.
use vstd::prelude::*;

verus! {

/// A rectangle of terminal cells: its top-left corner and its size.
#[derive(Debug, Clone, Copy, PartialEq, Eq, Structural)]
pub struct Rect {
    pub x: u16,
    pub y: u16,
    pub width: u16,
    pub height: u16,
}

/// The rectangle lies inside the terminal's coordinate range, as every
/// rectangle a layout hands out does.
pub open spec fn rect_fits(area: Rect) -> bool {
    area.x + area.width <= u16::MAX && area.y + area.height <= u16::MAX
}

/// A mouse button.
#[derive(Debug, Clone, Copy, PartialEq, Eq, Structural)]
pub enum MouseButton {
    Left,
    Right,
    Middle,
}

/// What the mouse did.
#[derive(Debug, Clone, Copy, PartialEq, Eq, Structural)]
pub enum MouseKind {
    Down(MouseButton),
    Up(MouseButton),
    Drag(MouseButton),
    Moved,
    ScrollDown,
    ScrollUp,
    ScrollLeft,
    ScrollRight,
}

/// A mouse event and the cell it happened at.
#[derive(Debug, Clone, Copy, PartialEq, Eq, Structural)]
pub struct MouseEvent {
    pub kind: MouseKind,
    pub column: u16,
    pub row: u16,
}

/// What a mouse event asks for.
#[derive(Debug, Clone, Copy, PartialEq, Eq, Structural)]
pub enum MouseResult {
    Nothing,
    Click(u16, u16),
    ScrollUp,
    ScrollDown,
    DoubleClick(u16, u16),
    RightClick(u16, u16),
}

/// The request of a mouse event: a left press is a click and a right press
/// a right click at the event's cell; the wheel scrolls; the rest asks for
/// nothing.
pub open spec fn mouse_result(event: MouseEvent) -> MouseResult {
    match event.kind {
        MouseKind::Down(MouseButton::Left) => MouseResult::Click(event.column, event.row),
        MouseKind::Down(MouseButton::Right) => MouseResult::RightClick(event.column, event.row),
        MouseKind::ScrollUp => MouseResult::ScrollUp,
        MouseKind::ScrollDown => MouseResult::ScrollDown,
        _ => MouseResult::Nothing,
    }
}

/// Tells what a mouse event asks for.
pub fn process_mouse_event(event: MouseEvent) -> (r: MouseResult)
    ensures
        r == mouse_result(event),
{
    match event.kind {
        MouseKind::Down(MouseButton::Left) => MouseResult::Click(event.column, event.row),
        MouseKind::Down(MouseButton::Right) => MouseResult::RightClick(event.column, event.row),
        MouseKind::ScrollUp => MouseResult::ScrollUp,
        MouseKind::ScrollDown => MouseResult::ScrollDown,
        _ => MouseResult::Nothing,
    }
}

/// Whether the cell `(x, y)` lies in `area`.
pub fn click_in_area(x: u16, y: u16, area: Rect) -> (b: bool)
    requires
        rect_fits(area),
    ensures
        b == (area.x <= x < area.x + area.width && area.y <= y < area.y + area.height),
{
    x >= area.x && x < area.x + area.width && y >= area.y && y < area.y + area.height
}

/// Row `click_y` lies inside the borders of `area`: below its top line and
/// above its bottom line.
pub open spec fn inside_borders(click_y: u16, area: Rect) -> bool {
    area.y + 1 <= click_y < area.y + area.height - 1
}

/// The position, counted from the first row inside the top border, of the
/// item of height `item_height` that row `click_y` falls on.
pub open spec fn row_item(click_y: u16, area: Rect, item_height: usize) -> int {
    (click_y - area.y - 1) / (item_height as int)
}

/// The rows of `area` can be told apart: the row under the top border and
/// the bottom border's row both exist where a click can be inside.
pub open spec fn rows_computable(click_y: u16, area: Rect) -> bool {
    &&& area.y < u16::MAX
    &&& area.y + area.height <= u16::MAX
    &&& area.y + 1 <= click_y ==> area.y + area.height >= 1
}

/// The index of the list item a click at row `click_y` falls on, in a
/// bordered list that starts at `scroll_offset` and gives each item
/// `item_height` rows; `None` for a click on a border.
pub fn calculate_list_item_clicked(
    click_y: u16,
    list_area: Rect,
    scroll_offset: usize,
    item_height: usize,
) -> (r: Option<usize>)
    requires
        rows_computable(click_y, list_area),
        inside_borders(click_y, list_area) ==> item_height > 0 && scroll_offset + row_item(
            click_y,
            list_area,
            item_height,
        ) <= usize::MAX,
    ensures
        r == if inside_borders(click_y, list_area) {
            Some((scroll_offset + row_item(click_y, list_area, item_height)) as usize)
        } else {
            None
        },
{
    if click_y < list_area.y + 1 || click_y >= list_area.y + list_area.height - 1 {
        return None;
    }
    let relative_y = (click_y - list_area.y - 1) as usize;
    let item_index = scroll_offset + relative_y / item_height;
    Some(item_index)
}

/// The index of the home option a click at row `click_y` falls on, in a
/// bordered list whose options are `item_height` rows high; `None` for a
/// click on a border.
pub fn calculate_home_option_clicked(click_y: u16, options_area: Rect, item_height: usize) -> (r:
    Option<usize>)
    requires
        rows_computable(click_y, options_area),
        inside_borders(click_y, options_area) ==> item_height > 0,
    ensures
        r == if inside_borders(click_y, options_area) {
            Some(row_item(click_y, options_area, item_height) as usize)
        } else {
            None
        },
{
    if click_y < options_area.y + 1 || click_y >= options_area.y + options_area.height - 1 {
        return None;
    }
    let relative_y = (click_y - options_area.y - 1) as usize;
    Some(relative_y / item_height)
}

} // verus!
