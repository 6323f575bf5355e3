//! Editor vocabulary: key bindings, interaction modes and screen layout.
use vstd::prelude::*;

verus! {

/// Width in columns of the property panel on the right.
pub const RIGHT_PANEL_WIDTH: u16 = 24;

/// The editor's key bindings, each as a key name such as `Right` or `Ctrl-s`.
#[derive(Debug, Clone)]
pub struct KeyBindings {
    pub next_frame: String,
    pub prev_frame: String,
    pub add_object: String,
    pub select_object: String,
    pub edit_object: String,
    pub delete_object: String,
    pub save: String,
    pub quit: String,
    pub confirm: String,
    pub cancel: String,
    pub move_up: String,
    pub move_down: String,
    pub add_frame: String,
    pub remove_frame: String,
    pub fullscreen: String,
    pub animate: String,
    pub insert_newline: String,
    pub table_add_col_after: String,
    pub table_add_col_before: String,
    pub table_remove_col: String,
    pub table_edit_cells: String,
    pub table_add_list: String,
    pub table_edit_cell_style: String,
}

/// The editor's configuration.
#[derive(Debug, Clone)]
pub struct EditorConfig {
    pub key_bindings: KeyBindings,
}

impl Default for EditorConfig {
    /// The built-in key bindings.
    fn default() -> (r: EditorConfig)
        ensures
            r.key_bindings.next_frame@ == "Right"@,
            r.key_bindings.prev_frame@ == "Left"@,
            r.key_bindings.add_object@ == "a"@,
            r.key_bindings.select_object@ == "s"@,
            r.key_bindings.edit_object@ == "e"@,
            r.key_bindings.delete_object@ == "d"@,
            r.key_bindings.save@ == "Ctrl-s"@,
            r.key_bindings.quit@ == "q"@,
            r.key_bindings.confirm@ == "Enter"@,
            r.key_bindings.cancel@ == "Esc"@,
            r.key_bindings.move_up@ == "Up"@,
            r.key_bindings.move_down@ == "Down"@,
            r.key_bindings.add_frame@ == "+"@,
            r.key_bindings.remove_frame@ == "-"@,
            r.key_bindings.fullscreen@ == "F11"@,
            r.key_bindings.animate@ == "a"@,
            r.key_bindings.insert_newline@ == "Alt-Enter"@,
            r.key_bindings.table_add_col_after@ == "Alt-a"@,
            r.key_bindings.table_add_col_before@ == "Alt-b"@,
            r.key_bindings.table_remove_col@ == "Alt-r"@,
            r.key_bindings.table_edit_cells@ == "Alt-c"@,
            r.key_bindings.table_add_list@ == "l"@,
            r.key_bindings.table_edit_cell_style@ == "s"@,
    {
        EditorConfig {
            key_bindings: KeyBindings {
                next_frame: String::from_str("Right"),
                prev_frame: String::from_str("Left"),
                add_object: String::from_str("a"),
                select_object: String::from_str("s"),
                edit_object: String::from_str("e"),
                delete_object: String::from_str("d"),
                save: String::from_str("Ctrl-s"),
                quit: String::from_str("q"),
                confirm: String::from_str("Enter"),
                cancel: String::from_str("Esc"),
                move_up: String::from_str("Up"),
                move_down: String::from_str("Down"),
                add_frame: String::from_str("+"),
                remove_frame: String::from_str("-"),
                fullscreen: String::from_str("F11"),
                animate: String::from_str("a"),
                insert_newline: String::from_str("Alt-Enter"),
                table_add_col_after: String::from_str("Alt-a"),
                table_add_col_before: String::from_str("Alt-b"),
                table_remove_col: String::from_str("Alt-r"),
                table_edit_cells: String::from_str("Alt-c"),
                table_add_list: String::from_str("l"),
                table_edit_cell_style: String::from_str("s"),
            },
        }
    }
}

/// What the editor loop does after an input event.
#[derive(Debug, Clone, Copy, PartialEq, Eq, Structural)]
pub enum Action {
    Continue,
    Redraw,
    BlinkSelection,
    Quit,
    ToggleFullscreen,
}

/// An action waiting for the user's confirmation.
#[derive(Debug, Clone, Copy, PartialEq, Eq, Structural)]
pub enum ConfirmAction {
    DeleteFrame,
    DeleteObject { object_index: usize },
    /// Remove one member from a group (the object itself stays).
    RemoveGroupMember {
        group_index: usize,
        member_idx: usize,
        /// Property row to return to afterwards.
        return_selected_property: usize,
        return_panel_scroll: usize,
    },
    RemoveTableColumn { object_index: usize, col_index: usize },
}

/// Sub-state of editing table cell properties.
#[derive(Debug, Clone)]
pub enum TableCellSubState {
    /// Navigating cells; Space toggles selection.
    Selecting,
    /// Editing the style of the selected cells.
    EditingStyle { selected_prop: usize, editing_value: Option<String>, cursor: usize, dropdown: Option<usize> },
    /// Editing the text of one cell.
    EditingContent { row: usize, col: usize, buf: String, cursor: usize },
}

/// The editor's interaction mode.
#[derive(Debug)]
pub enum Mode {
    Normal,
    AddObject { selected: usize },
    SelectObject { selected: usize },
    SelectedObject { object_index: usize },
    EditProperties {
        object_index: usize,
        selected_property: usize,
        editing_value: Option<String>,
        /// Character index of the text cursor while editing.
        cursor: usize,
        /// Characters scrolled off the left edge of the panel.
        scroll: usize,
        /// Property rows scrolled off the top of the panel.
        panel_scroll: usize,
        /// The open colour dropdown entry, if any.
        dropdown: Option<usize>,
    },
    AnimateProperty {
        object_index: usize,
        return_property: usize,
        property_name: &'static str,
        /// 0 = from, 1 = to, 2 = start frame, 3 = end frame.
        selected_field: usize,
        editing: Option<String>,
        cursor: usize,
        from: u16,
        to: u16,
        start_frame: usize,
        end_frame: usize,
    },
    Confirm {
        message: String,
        /// 0 = yes, 1 = no.
        selected: usize,
        action: ConfirmAction,
        return_mode: Box<Mode>,
    },
    SelectGroupMembers { selected: usize, members: Vec<usize> },
    TableAddColumn { object_index: usize, after: bool, col_num: usize, buf: String, cursor: usize },
    TableRemoveColumn { object_index: usize, col_num: usize, buf: String, cursor: usize },
    TableEditCellProps {
        object_index: usize,
        cursor_row: usize,
        cursor_col: usize,
        selected_cells: Vec<(usize, usize)>,
        sub_state: TableCellSubState,
    },
}

/// Whether `m` shows the property panel on the right.
pub open spec fn has_panel(m: Mode) -> bool {
    m is EditProperties || m is AnimateProperty || m is AddObject || m is SelectObject || m is Confirm
        || m is SelectGroupMembers
}

/// `a - b`, but not below zero.
pub open spec fn sub_sat(a: int, b: int) -> int {
    if a > b {
        a - b
    } else {
        0
    }
}

/// Where the editor's parts go on a terminal.
#[derive(Debug, Clone, Copy, PartialEq, Eq, Structural)]
pub struct Layout {
    pub right_panel_width: u16,
    pub canvas_x: u16,
    pub canvas_y: u16,
    pub canvas_width: u16,
    pub canvas_height: u16,
    pub timeline_y: u16,
    pub term_width: u16,
    pub menu_h: u16,
}

impl Layout {
    /// The layout for a terminal of the given size in mode `mode`: a menu bar
    /// on top (two rows when an object is selected), a two-row timeline at the
    /// bottom, the property panel on the right in the modes that show it, and
    /// the canvas in what is left.
    pub fn compute(term_width: u16, term_height: u16, mode: &Mode) -> (r: Layout)
        ensures
            r.right_panel_width == (if has_panel(*mode) { RIGHT_PANEL_WIDTH } else { 0 }),
            r.menu_h == (if mode is SelectedObject { 2u16 } else { 1u16 }),
            r.canvas_x == 0,
            r.canvas_y == r.menu_h,
            r.canvas_width as int == sub_sat(term_width as int, r.right_panel_width as int),
            r.canvas_height as int == sub_sat(term_height as int, 2 + r.menu_h),
            r.timeline_y as int == sub_sat(term_height as int, 2),
            r.term_width == term_width,
    {
        let right: u16 = match mode {
            Mode::EditProperties { .. } | Mode::AnimateProperty { .. } | Mode::AddObject { .. }
            | Mode::SelectObject { .. } | Mode::Confirm { .. } | Mode::SelectGroupMembers { .. } => RIGHT_PANEL_WIDTH,
            _ => 0,
        };
        let timeline_h: u16 = 2;
        let menu_h: u16 = match mode {
            Mode::SelectedObject { .. } => 2,
            _ => 1,
        };
        Layout {
            right_panel_width: right,
            canvas_x: 0,
            canvas_y: menu_h,
            canvas_width: term_width.saturating_sub(right),
            canvas_height: term_height.saturating_sub(timeline_h + menu_h),
            timeline_y: term_height.saturating_sub(timeline_h),
            term_width,
            menu_h,
        }
    }
}

} // verus!
