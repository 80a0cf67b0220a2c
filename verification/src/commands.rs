//! What the viewer does in answer to the keyboard and to its context menu.
//!
//! The window toolkit reports the keys pressed in a frame, or the menu item
//! that was clicked; the functions here decide which commands follow, in
//! which order. Carrying them out (loading, deleting, drawing) is the
//! caller's part.

use vstd::prelude::*;
use crate::session::{RatingFilter, RatingFilterOp};

verus! {

/// The keys pressed during one frame, and the modifiers held.
#[derive(Debug, Clone, Copy)]
pub struct KeyPresses {
    pub escape: bool,
    pub arrow_right: bool,
    pub page_down: bool,
    pub arrow_left: bool,
    pub page_up: bool,
    pub arrow_up: bool,
    pub arrow_down: bool,
    pub key_i: bool,
    pub num0: bool,
    pub num1: bool,
    pub num2: bool,
    pub num3: bool,
    pub num4: bool,
    pub num5: bool,
    pub key_h: bool,
    pub open_bracket: bool,
    pub close_bracket: bool,
    pub key_f: bool,
    pub delete: bool,
    pub key_r: bool,
    pub shift: bool,
    pub ctrl: bool,
}

/// One thing for the viewer to do.
#[derive(Debug, Clone, Copy, PartialEq, Eq, Structural)]
pub enum Command {
    /// Drop the pending delete confirmation.
    CancelDelete,
    /// Close the window.
    Exit,
    NavigateNext { preserve_zoom: bool },
    NavigatePrev { preserve_zoom: bool },
    ZoomIn,
    ZoomOut,
    ToggleInfoPanel,
    /// Set (`Some`) or clear (`None`) the current image's rating.
    SetRating(Option<u8>),
    /// Hide the current image and move on.
    Hide,
    Rotate { clockwise: bool },
    ZoomActualSize,
    ToggleFit,
    /// Enter or leave fullscreen.
    ToggleFullscreen,
    /// Ask for the second Delete press.
    ConfirmDelete,
    /// Delete the current file.
    ExecuteDelete,
    /// Flush the session and rescan the directory.
    HardRefresh,
    /// Filter the current folder (`Some`) or drop the filter (`None`).
    ApplyLocalFilter(Option<RatingFilter>),
    /// List the rated images of the whole library.
    ApplyGlobalFilter(RatingFilter),
    CopyImage,
    /// Put the current file's path on the clipboard, with a toast or without.
    CopyFilePath { announce: bool },
    RevealInFileManager,
}

/// `seq![c]` when `b`, else nothing.
pub open spec fn cmd_if(b: bool, c: Command) -> Seq<Command> {
    if b { seq![c] } else { Seq::empty() }
}

/// What Escape does: cancel a pending delete, or else close the window.
pub open spec fn escape_part(k: KeyPresses, delete_pending: bool) -> Seq<Command> {
    if k.escape && delete_pending {
        seq![Command::CancelDelete]
    } else {
        cmd_if(k.escape, Command::Exit)
    }
}

/// Ctrl+0 shows the actual size; otherwise F toggles fullscreen.
pub open spec fn fit_part(k: KeyPresses) -> Seq<Command> {
    if k.ctrl && k.num0 {
        seq![Command::ZoomActualSize]
    } else {
        cmd_if(k.key_f, Command::ToggleFullscreen)
    }
}

/// Delete deletes only when the confirmation is armed and this frame's
/// Escape did not cancel it; otherwise it asks for confirmation.
pub open spec fn delete_part(k: KeyPresses, delete_pending: bool, delete_armed: bool) -> Seq<Command> {
    if delete_armed && !(k.escape && delete_pending) {
        cmd_if(k.delete, Command::ExecuteDelete)
    } else {
        cmd_if(k.delete, Command::ConfirmDelete)
    }
}

/// The arrow keys and I: navigation, zoom and the info panel.
pub open spec fn motion_part(k: KeyPresses) -> Seq<Command> {
    cmd_if(k.arrow_right || k.page_down, Command::NavigateNext { preserve_zoom: k.shift })
        + cmd_if(k.arrow_left || k.page_up, Command::NavigatePrev { preserve_zoom: k.shift })
        + cmd_if(k.arrow_up, Command::ZoomIn)
        + cmd_if(k.arrow_down, Command::ZoomOut)
        + cmd_if(k.key_i, Command::ToggleInfoPanel)
}

/// The digit keys: 0 clears the rating, 1 to 5 set that many stars.
pub open spec fn rating_part(k: KeyPresses) -> Seq<Command> {
    cmd_if(k.num0, Command::SetRating(None))
        + cmd_if(k.num1, Command::SetRating(Some(1)))
        + cmd_if(k.num2, Command::SetRating(Some(2)))
        + cmd_if(k.num3, Command::SetRating(Some(3)))
        + cmd_if(k.num4, Command::SetRating(Some(4)))
        + cmd_if(k.num5, Command::SetRating(Some(5)))
}

/// H hides the image; `[` and `]` rotate it counter-clockwise and clockwise.
pub open spec fn edit_part(k: KeyPresses) -> Seq<Command> {
    cmd_if(k.key_h, Command::Hide)
        + cmd_if(k.open_bracket, Command::Rotate { clockwise: false })
        + cmd_if(k.close_bracket, Command::Rotate { clockwise: true })
}

/// The commands for the keys of one frame, in the order they are carried
/// out. `delete_pending` says that a delete confirmation is showing,
/// `delete_armed` that it has not expired yet.
pub open spec fn key_commands(k: KeyPresses, delete_pending: bool, delete_armed: bool) -> Seq<Command> {
    escape_part(k, delete_pending)
        + motion_part(k)
        + rating_part(k)
        + edit_part(k)
        + fit_part(k)
        + delete_part(k, delete_pending, delete_armed)
        + cmd_if(k.ctrl && k.shift && k.key_r, Command::HardRefresh)
}

/// Append `c` to `out` when `b`.
fn push_when(out: &mut Vec<Command>, b: bool, c: Command)
    ensures
        final(out)@ == old(out)@ + cmd_if(b, c),
{
    if b {
        out.push(c);
    } else {
        assert(old(out)@ + cmd_if(b, c) =~= old(out)@);
    }
}

/// Append the single command `c`.
fn push_one(out: &mut Vec<Command>, c: Command)
    ensures
        final(out)@ == old(out)@ + seq![c],
{
    out.push(c);
    assert(out@ =~= old(out)@ + seq![c]);
}

/// Append the commands of the arrow keys and of I.
fn push_motion(out: &mut Vec<Command>, k: &KeyPresses)
    ensures
        final(out)@ == old(out)@ + motion_part(*k),
{
    let ghost start = out@;
    push_when(out, k.arrow_right || k.page_down, Command::NavigateNext { preserve_zoom: k.shift });
    push_when(out, k.arrow_left || k.page_up, Command::NavigatePrev { preserve_zoom: k.shift });
    push_when(out, k.arrow_up, Command::ZoomIn);
    push_when(out, k.arrow_down, Command::ZoomOut);
    push_when(out, k.key_i, Command::ToggleInfoPanel);
    assert(out@ =~= start + motion_part(*k));
}

/// Append the commands of the digit keys.
#[verifier::rlimit(40)]
fn push_ratings(out: &mut Vec<Command>, k: &KeyPresses)
    ensures
        final(out)@ == old(out)@ + rating_part(*k),
{
    let ghost start = out@;
    push_when(out, k.num0, Command::SetRating(None));
    push_when(out, k.num1, Command::SetRating(Some(1)));
    push_when(out, k.num2, Command::SetRating(Some(2)));
    push_when(out, k.num3, Command::SetRating(Some(3)));
    push_when(out, k.num4, Command::SetRating(Some(4)));
    push_when(out, k.num5, Command::SetRating(Some(5)));
    assert(out@ =~= start + rating_part(*k));
}

/// Append the commands of H and the bracket keys.
fn push_image_edits(out: &mut Vec<Command>, k: &KeyPresses)
    ensures
        final(out)@ == old(out)@ + edit_part(*k),
{
    let ghost start = out@;
    push_when(out, k.key_h, Command::Hide);
    push_when(out, k.open_bracket, Command::Rotate { clockwise: false });
    push_when(out, k.close_bracket, Command::Rotate { clockwise: true });
    assert(out@ =~= start + edit_part(*k));
}

/// Append the commands of Ctrl+0 and F, Delete and Ctrl+Shift+R.
fn push_view_and_file(out: &mut Vec<Command>, k: &KeyPresses, delete_pending: bool, delete_armed: bool)
    ensures
        final(out)@ == old(out)@
            + fit_part(*k)
            + delete_part(*k, delete_pending, delete_armed)
            + cmd_if(k.ctrl && k.shift && k.key_r, Command::HardRefresh),
{
    if k.ctrl && k.num0 {
        push_one(out, Command::ZoomActualSize);
    } else {
        push_when(out, k.key_f, Command::ToggleFullscreen);
    }
    if delete_armed && !(k.escape && delete_pending) {
        push_when(out, k.delete, Command::ExecuteDelete);
    } else {
        push_when(out, k.delete, Command::ConfirmDelete);
    }
    push_when(out, k.ctrl && k.shift && k.key_r, Command::HardRefresh);
}

/// The commands for the keys pressed in one frame.
pub fn key_commands_for(k: &KeyPresses, delete_pending: bool, delete_armed: bool) -> (r: Vec<Command>)
    ensures
        r@ == key_commands(*k, delete_pending, delete_armed),
{
    let mut out: Vec<Command> = Vec::new();
    if k.escape && delete_pending {
        out.push(Command::CancelDelete);
    } else if k.escape {
        out.push(Command::Exit);
    }
    assert(out@ =~= escape_part(*k, delete_pending));
    push_motion(&mut out, k);
    push_ratings(&mut out, k);
    push_image_edits(&mut out, k);
    push_view_and_file(&mut out, k, delete_pending, delete_armed);
    out
}

/// `cmd_if(b, c)` holds `x` exactly when `b` and `x` is `c`.
pub broadcast proof fn lemma_cmd_if_contains(b: bool, c: Command, x: Command)
    ensures
        #[trigger] cmd_if(b, c).contains(x) <==> (b && c == x),
{
    if b {
        assert(cmd_if(b, c)[0] == c);
    }
}

/// A file is deleted only by a Delete press while an earlier confirmation
/// is armed and this frame's Escape has not cancelled it; a Delete press
/// otherwise asks for that confirmation. Nothing but Delete does either.
pub proof fn lemma_delete_needs_confirmation(k: KeyPresses, delete_pending: bool, delete_armed: bool)
    ensures
        key_commands(k, delete_pending, delete_armed).contains(Command::ExecuteDelete)
            <==> (k.delete && delete_armed && !(k.escape && delete_pending)),
        key_commands(k, delete_pending, delete_armed).contains(Command::ConfirmDelete)
            <==> (k.delete && !(delete_armed && !(k.escape && delete_pending))),
{
    lemma_delete_commands_in(k, delete_pending, delete_armed, Command::ExecuteDelete);
    lemma_delete_commands_in(k, delete_pending, delete_armed, Command::ConfirmDelete);
    lemma_cmd_if_contains(k.delete, Command::ExecuteDelete, Command::ExecuteDelete);
    lemma_cmd_if_contains(k.delete, Command::ExecuteDelete, Command::ConfirmDelete);
    lemma_cmd_if_contains(k.delete, Command::ConfirmDelete, Command::ExecuteDelete);
    lemma_cmd_if_contains(k.delete, Command::ConfirmDelete, Command::ConfirmDelete);
}

/// Of the parts of a frame's commands, only the Delete part can hold `x`
/// when `x` is one of the delete commands.
proof fn lemma_delete_commands_in(k: KeyPresses, delete_pending: bool, delete_armed: bool, x: Command)
    requires
        x == Command::ExecuteDelete || x == Command::ConfirmDelete,
    ensures
        key_commands(k, delete_pending, delete_armed).contains(x)
            <==> delete_part(k, delete_pending, delete_armed).contains(x),
{
    let e = escape_part(k, delete_pending);
    let m = motion_part(k);
    let r = rating_part(k);
    let ed = edit_part(k);
    let f = fit_part(k);
    let d = delete_part(k, delete_pending, delete_armed);
    let h = cmd_if(k.ctrl && k.shift && k.key_r, Command::HardRefresh);
    assert(!e.contains(x)) by {
        lemma_cmd_if_contains(k.escape, Command::Exit, x);
    }
    assert(!m.contains(x)) by {
        broadcast use vstd::seq_lib::lemma_seq_concat_contains_all_elements, lemma_cmd_if_contains;
    }
    assert(!r.contains(x)) by {
        broadcast use vstd::seq_lib::lemma_seq_concat_contains_all_elements, lemma_cmd_if_contains;
    }
    assert(!ed.contains(x)) by {
        broadcast use vstd::seq_lib::lemma_seq_concat_contains_all_elements, lemma_cmd_if_contains;
    }
    assert(!f.contains(x)) by {
        lemma_cmd_if_contains(k.key_f, Command::ToggleFullscreen, x);
    }
    assert(!h.contains(x)) by {
        lemma_cmd_if_contains(k.ctrl && k.shift && k.key_r, Command::HardRefresh, x);
    }
    vstd::seq_lib::lemma_seq_concat_contains_all_elements(e, m, x);
    vstd::seq_lib::lemma_seq_concat_contains_all_elements(e + m, r, x);
    vstd::seq_lib::lemma_seq_concat_contains_all_elements(e + m + r, ed, x);
    vstd::seq_lib::lemma_seq_concat_contains_all_elements(e + m + r + ed, f, x);
    vstd::seq_lib::lemma_seq_concat_contains_all_elements(e + m + r + ed + f, d, x);
    vstd::seq_lib::lemma_seq_concat_contains_all_elements(e + m + r + ed + f + d, h, x);
}

/// A frame in which no key is pressed and no modifier held.
pub open spec fn no_keys() -> KeyPresses {
    KeyPresses {
        escape: false,
        arrow_right: false,
        page_down: false,
        arrow_left: false,
        page_up: false,
        arrow_up: false,
        arrow_down: false,
        key_i: false,
        num0: false,
        num1: false,
        num2: false,
        num3: false,
        num4: false,
        num5: false,
        key_h: false,
        open_bracket: false,
        close_bracket: false,
        key_f: false,
        delete: false,
        key_r: false,
        shift: false,
        ctrl: false,
    }
}

/// Of the parts of a frame's commands, only the arrow-key part can hold a
/// navigation command `x`.
proof fn lemma_navigation_commands_in(k: KeyPresses, delete_pending: bool, delete_armed: bool, x: Command)
    requires
        x is NavigatePrev || x is NavigateNext,
    ensures
        key_commands(k, delete_pending, delete_armed).contains(x) <==> motion_part(k).contains(x),
{
    let e = escape_part(k, delete_pending);
    let m = motion_part(k);
    let r = rating_part(k);
    let ed = edit_part(k);
    let f = fit_part(k);
    let d = delete_part(k, delete_pending, delete_armed);
    let h = cmd_if(k.ctrl && k.shift && k.key_r, Command::HardRefresh);
    assert(!e.contains(x)) by {
        lemma_cmd_if_contains(k.escape, Command::Exit, x);
    }
    assert(!r.contains(x)) by {
        broadcast use vstd::seq_lib::lemma_seq_concat_contains_all_elements, lemma_cmd_if_contains;
    }
    assert(!ed.contains(x)) by {
        broadcast use vstd::seq_lib::lemma_seq_concat_contains_all_elements, lemma_cmd_if_contains;
    }
    assert(!f.contains(x)) by {
        lemma_cmd_if_contains(k.key_f, Command::ToggleFullscreen, x);
    }
    assert(!d.contains(x)) by {
        lemma_cmd_if_contains(k.delete, Command::ExecuteDelete, x);
        lemma_cmd_if_contains(k.delete, Command::ConfirmDelete, x);
    }
    assert(!h.contains(x)) by {
        lemma_cmd_if_contains(k.ctrl && k.shift && k.key_r, Command::HardRefresh, x);
    }
    vstd::seq_lib::lemma_seq_concat_contains_all_elements(e, m, x);
    vstd::seq_lib::lemma_seq_concat_contains_all_elements(e + m, r, x);
    vstd::seq_lib::lemma_seq_concat_contains_all_elements(e + m + r, ed, x);
    vstd::seq_lib::lemma_seq_concat_contains_all_elements(e + m + r + ed, f, x);
    vstd::seq_lib::lemma_seq_concat_contains_all_elements(e + m + r + ed + f, d, x);
    vstd::seq_lib::lemma_seq_concat_contains_all_elements(e + m + r + ed + f + d, h, x);
}

/// The arrow-key part holds `x`, a navigation command, exactly when the
/// key for it was pressed.
proof fn lemma_motion_navigation(k: KeyPresses, x: Command)
    requires
        x is NavigatePrev || x is NavigateNext,
    ensures
        motion_part(k).contains(x) <==> (
            (k.arrow_right || k.page_down) && x == (Command::NavigateNext { preserve_zoom: k.shift })
            || (k.arrow_left || k.page_up) && x == (Command::NavigatePrev { preserve_zoom: k.shift })),
{
    let a = cmd_if(k.arrow_right || k.page_down, Command::NavigateNext { preserve_zoom: k.shift });
    let b = cmd_if(k.arrow_left || k.page_up, Command::NavigatePrev { preserve_zoom: k.shift });
    let c = cmd_if(k.arrow_up, Command::ZoomIn);
    let dd = cmd_if(k.arrow_down, Command::ZoomOut);
    let ee = cmd_if(k.key_i, Command::ToggleInfoPanel);
    lemma_cmd_if_contains(k.arrow_right || k.page_down, Command::NavigateNext { preserve_zoom: k.shift }, x);
    lemma_cmd_if_contains(k.arrow_left || k.page_up, Command::NavigatePrev { preserve_zoom: k.shift }, x);
    lemma_cmd_if_contains(k.arrow_up, Command::ZoomIn, x);
    lemma_cmd_if_contains(k.arrow_down, Command::ZoomOut, x);
    lemma_cmd_if_contains(k.key_i, Command::ToggleInfoPanel, x);
    vstd::seq_lib::lemma_seq_concat_contains_all_elements(a, b, x);
    vstd::seq_lib::lemma_seq_concat_contains_all_elements(a + b, c, x);
    vstd::seq_lib::lemma_seq_concat_contains_all_elements(a + b + c, dd, x);
    vstd::seq_lib::lemma_seq_concat_contains_all_elements(a + b + c + dd, ee, x);
}

/// Left arrow and Page Up go to the previous image, Right arrow and Page
/// Down to the next one, keeping the zoom exactly when Shift is held; no
/// other key navigates.
pub proof fn lemma_arrows_navigate(k: KeyPresses, delete_pending: bool, delete_armed: bool)
    ensures
        key_commands(k, delete_pending, delete_armed).contains((Command::NavigatePrev { preserve_zoom: k.shift }))
            <==> (k.arrow_left || k.page_up),
        key_commands(k, delete_pending, delete_armed).contains((Command::NavigateNext { preserve_zoom: k.shift }))
            <==> (k.arrow_right || k.page_down),
        !key_commands(k, delete_pending, delete_armed).contains((Command::NavigatePrev { preserve_zoom: !k.shift })),
        !key_commands(k, delete_pending, delete_armed).contains((Command::NavigateNext { preserve_zoom: !k.shift })),
{
    let prev = Command::NavigatePrev { preserve_zoom: k.shift };
    let next = Command::NavigateNext { preserve_zoom: k.shift };
    let prev_other = Command::NavigatePrev { preserve_zoom: !k.shift };
    let next_other = Command::NavigateNext { preserve_zoom: !k.shift };
    lemma_navigation_commands_in(k, delete_pending, delete_armed, prev);
    lemma_navigation_commands_in(k, delete_pending, delete_armed, next);
    lemma_navigation_commands_in(k, delete_pending, delete_armed, prev_other);
    lemma_navigation_commands_in(k, delete_pending, delete_armed, next_other);
    lemma_motion_navigation(k, prev);
    lemma_motion_navigation(k, next);
    lemma_motion_navigation(k, prev_other);
    lemma_motion_navigation(k, next_other);
}

/// A frame in which only `]` is pressed.
pub open spec fn only_close_bracket() -> KeyPresses {
    KeyPresses { close_bracket: true, ..no_keys() }
}

/// A frame in which only `[` is pressed.
pub open spec fn only_open_bracket() -> KeyPresses {
    KeyPresses { open_bracket: true, ..no_keys() }
}

/// A frame in which only Shift and the Right arrow are pressed.
pub open spec fn only_shift_right() -> KeyPresses {
    KeyPresses { arrow_right: true, shift: true, ..no_keys() }
}

/// A frame in which only Shift and the Left arrow are pressed.
pub open spec fn only_shift_left() -> KeyPresses {
    KeyPresses { arrow_left: true, shift: true, ..no_keys() }
}

/// A frame in which only H is pressed.
pub open spec fn only_h() -> KeyPresses {
    KeyPresses { key_h: true, ..no_keys() }
}

/// A frame in which only I is pressed.
pub open spec fn only_i() -> KeyPresses {
    KeyPresses { key_i: true, ..no_keys() }
}

/// A frame in which only the digit `n` (0 to 5) is pressed.
pub open spec fn only_digit(n: u8) -> KeyPresses {
    KeyPresses { num0: n == 0, num1: n == 1, num2: n == 2, num3: n == 3, num4: n == 4, num5: n == 5, ..no_keys() }
}

/// A frame in which only Ctrl, Shift and R are pressed.
pub open spec fn only_ctrl_shift_r() -> KeyPresses {
    KeyPresses { key_r: true, ctrl: true, shift: true, ..no_keys() }
}

/// Each context-menu entry that has a key does what its key does: Rotate
/// Clockwise is `]` and turns clockwise, Rotate Counter-Clockwise is `[`
/// and turns counter-clockwise, Next and Previous are Shift with the arrows
/// (keeping the zoom), Hide is H, the rating entries are the digits (0
/// clears), Show info is I and Reset session is Ctrl+Shift+R.
pub proof fn lemma_menu_items_match_their_keys(fit_to_window: bool, delete_pending: bool, delete_armed: bool, n: u8)
    requires
        1 <= n <= 5,
    ensures
        item_command(MenuItem::RotateClockwise, fit_to_window) == (Command::Rotate { clockwise: true }),
        item_command(MenuItem::RotateCounterClockwise, fit_to_window) == (Command::Rotate { clockwise: false }),
        key_commands(only_close_bracket(), delete_pending, delete_armed)
            == seq![item_command(MenuItem::RotateClockwise, fit_to_window)],
        key_commands(only_open_bracket(), delete_pending, delete_armed)
            == seq![item_command(MenuItem::RotateCounterClockwise, fit_to_window)],
        key_commands(only_shift_right(), delete_pending, delete_armed)
            == seq![item_command(MenuItem::NextImage, fit_to_window)],
        key_commands(only_shift_left(), delete_pending, delete_armed)
            == seq![item_command(MenuItem::PreviousImage, fit_to_window)],
        key_commands(only_h(), delete_pending, delete_armed) == seq![item_command(MenuItem::HideImage, fit_to_window)],
        key_commands(only_i(), delete_pending, delete_armed) == seq![item_command(MenuItem::ToggleInfo, fit_to_window)],
        key_commands(only_digit(0), delete_pending, delete_armed)
            == seq![item_command(MenuItem::SetRating(None), fit_to_window)],
        key_commands(only_digit(n), delete_pending, delete_armed)
            == seq![item_command(MenuItem::SetRating(Some(n)), fit_to_window)],
        key_commands(only_ctrl_shift_r(), delete_pending, delete_armed)
            == seq![item_command(MenuItem::ResetSession, fit_to_window)],
{
    assert(key_commands(only_close_bracket(), delete_pending, delete_armed) =~= seq![(Command::Rotate { clockwise: true })]);
    assert(key_commands(only_open_bracket(), delete_pending, delete_armed) =~= seq![(Command::Rotate { clockwise: false })]);
    assert(key_commands(only_shift_right(), delete_pending, delete_armed)
        =~= seq![(Command::NavigateNext { preserve_zoom: true })]);
    assert(key_commands(only_shift_left(), delete_pending, delete_armed)
        =~= seq![(Command::NavigatePrev { preserve_zoom: true })]);
    assert(key_commands(only_h(), delete_pending, delete_armed) =~= seq![Command::Hide]);
    assert(key_commands(only_i(), delete_pending, delete_armed) =~= seq![Command::ToggleInfoPanel]);
    assert(key_commands(only_digit(0), delete_pending, delete_armed) =~= seq![Command::SetRating(None)]);
    assert(key_commands(only_digit(n), delete_pending, delete_armed) =~= seq![Command::SetRating(Some(n))]);
    assert(key_commands(only_ctrl_shift_r(), delete_pending, delete_armed) =~= seq![Command::HardRefresh]);
}

/// The items of the viewer's context menu.
#[derive(Debug, Clone, Copy, PartialEq, Eq, Structural)]
pub enum MenuItem {
    NextImage,
    PreviousImage,
    /// One of the rating entries: a number of stars, or `None` to clear.
    SetRating(Option<u8>),
    /// "At least ★ n" for the current folder.
    FilterFolder(u8),
    /// "At least ★ n" over the whole library.
    FilterLibrary(u8),
    ClearFilter,
    HideImage,
    Delete,
    RotateClockwise,
    RotateCounterClockwise,
    CopyImage,
    CopyFile,
    CopyPath,
    OpenFolder,
    ToggleInfo,
    ToggleFit,
    ResetSession,
}

/// Whether a menu item can be clicked: the image entries need an open
/// image, the library filters need the database.
pub open spec fn item_enabled(item: MenuItem, has_image: bool, has_db: bool) -> bool {
    match item {
        MenuItem::FilterFolder(_) | MenuItem::ClearFilter | MenuItem::ToggleInfo
        | MenuItem::ToggleFit | MenuItem::ResetSession => true,
        MenuItem::FilterLibrary(_) => has_db,
        _ => has_image,
    }
}

/// Whether a menu item can be clicked.
pub fn menu_item_enabled(item: MenuItem, has_image: bool, has_db: bool) -> (r: bool)
    ensures
        r == item_enabled(item, has_image, has_db),
{
    match item {
        MenuItem::FilterFolder(_) | MenuItem::ClearFilter | MenuItem::ToggleInfo
        | MenuItem::ToggleFit | MenuItem::ResetSession => true,
        MenuItem::FilterLibrary(_) => has_db,
        _ => has_image,
    }
}

/// The filter that keeps ratings of at least `n`.
pub open spec fn at_least(n: u8) -> RatingFilter {
    RatingFilter { op: RatingFilterOp::AtLeast, value: n }
}

/// The command a menu item stands for. The fit entry switches to actual
/// size while the image is fitted to the window, and fits it otherwise.
pub open spec fn item_command(item: MenuItem, fit_to_window: bool) -> Command {
    match item {
        MenuItem::NextImage => Command::NavigateNext { preserve_zoom: true },
        MenuItem::PreviousImage => Command::NavigatePrev { preserve_zoom: true },
        MenuItem::SetRating(r) => Command::SetRating(r),
        MenuItem::FilterFolder(n) => Command::ApplyLocalFilter(Some(at_least(n))),
        MenuItem::FilterLibrary(n) => Command::ApplyGlobalFilter(at_least(n)),
        MenuItem::ClearFilter => Command::ApplyLocalFilter(None),
        MenuItem::HideImage => Command::Hide,
        MenuItem::Delete => Command::ConfirmDelete,
        MenuItem::RotateClockwise => Command::Rotate { clockwise: true },
        MenuItem::RotateCounterClockwise => Command::Rotate { clockwise: false },
        MenuItem::CopyImage => Command::CopyImage,
        MenuItem::CopyFile => Command::CopyFilePath { announce: true },
        MenuItem::CopyPath => Command::CopyFilePath { announce: false },
        MenuItem::OpenFolder => Command::RevealInFileManager,
        MenuItem::ToggleInfo => Command::ToggleInfoPanel,
        MenuItem::ToggleFit => if fit_to_window { Command::ZoomActualSize } else { Command::ToggleFit },
        MenuItem::ResetSession => Command::HardRefresh,
    }
}

/// The command for a clicked menu item; `None` when the item is disabled.
pub fn menu_command(item: MenuItem, has_image: bool, has_db: bool, fit_to_window: bool) -> (r: Option<Command>)
    ensures
        r == (if item_enabled(item, has_image, has_db) { Some(item_command(item, fit_to_window)) } else { None }),
{
    if !menu_item_enabled(item, has_image, has_db) {
        return None;
    }
    let c = match item {
        MenuItem::NextImage => Command::NavigateNext { preserve_zoom: true },
        MenuItem::PreviousImage => Command::NavigatePrev { preserve_zoom: true },
        MenuItem::SetRating(r) => Command::SetRating(r),
        MenuItem::FilterFolder(n) => Command::ApplyLocalFilter(Some(RatingFilter { op: RatingFilterOp::AtLeast, value: n })),
        MenuItem::FilterLibrary(n) => Command::ApplyGlobalFilter(RatingFilter { op: RatingFilterOp::AtLeast, value: n }),
        MenuItem::ClearFilter => Command::ApplyLocalFilter(None),
        MenuItem::HideImage => Command::Hide,
        MenuItem::Delete => Command::ConfirmDelete,
        MenuItem::RotateClockwise => Command::Rotate { clockwise: true },
        MenuItem::RotateCounterClockwise => Command::Rotate { clockwise: false },
        MenuItem::CopyImage => Command::CopyImage,
        MenuItem::CopyFile => Command::CopyFilePath { announce: true },
        MenuItem::CopyPath => Command::CopyFilePath { announce: false },
        MenuItem::OpenFolder => Command::RevealInFileManager,
        MenuItem::ToggleInfo => Command::ToggleInfoPanel,
        MenuItem::ToggleFit => if fit_to_window { Command::ZoomActualSize } else { Command::ToggleFit },
        MenuItem::ResetSession => Command::HardRefresh,
    };
    Some(c)
}

/// The info entry's label.
pub fn info_toggle_label(show_info_panel: bool) -> (r: &'static str)
    ensures
        r@ == (if show_info_panel { "Hide info"@ } else { "Show info"@ }),
{
    if show_info_panel { "Hide info" } else { "Show info" }
}

/// The fit entry's label and its shortcut text; fitting to the window has
/// no key of its own, since F toggles fullscreen.
pub fn fit_toggle_label(fit_to_window: bool) -> (r: (&'static str, &'static str))
    ensures
        r.0@ == (if fit_to_window { "Actual size"@ } else { "Fit to window"@ }),
        r.1@ == (if fit_to_window { "Ctrl+0"@ } else { ""@ }),
{
    if fit_to_window { ("Actual size", "Ctrl+0") } else { ("Fit to window", "") }
}

} // verus!
