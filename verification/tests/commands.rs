use rivett::commands::{
    fit_toggle_label, info_toggle_label, key_commands_for, menu_command, menu_item_enabled, Command, KeyPresses, MenuItem,
};
use rivett::session::{RatingFilter, RatingFilterOp};

fn no_keys() -> KeyPresses {
    KeyPresses {
        escape: false,
        arrow_right: false,
        page_down: false,
        arrow_left: false,
        page_up: false,
        arrow_up: false,
        arrow_down: false,
        key_i: false,
        num0: false,
        num1: false,
        num2: false,
        num3: false,
        num4: false,
        num5: false,
        key_h: false,
        open_bracket: false,
        close_bracket: false,
        key_f: false,
        delete: false,
        key_r: false,
        shift: false,
        ctrl: false,
    }
}

#[test]
fn no_keys_no_commands() {
    assert!(key_commands_for(&no_keys(), false, false).is_empty());
}

#[test]
fn delete_takes_two_presses() {
    let k = KeyPresses { delete: true, ..no_keys() };
    assert_eq!(key_commands_for(&k, false, false), vec![Command::ConfirmDelete]);
    assert_eq!(key_commands_for(&k, true, true), vec![Command::ExecuteDelete]);
    // An expired confirmation asks again.
    assert_eq!(key_commands_for(&k, true, false), vec![Command::ConfirmDelete]);
}

#[test]
fn escape_cancels_pending_delete_else_exits() {
    let k = KeyPresses { escape: true, ..no_keys() };
    assert_eq!(key_commands_for(&k, true, true), vec![Command::CancelDelete]);
    assert_eq!(key_commands_for(&k, false, false), vec![Command::Exit]);
    let both = KeyPresses { escape: true, delete: true, ..no_keys() };
    assert_eq!(key_commands_for(&both, true, true), vec![Command::CancelDelete, Command::ConfirmDelete]);
}

#[test]
fn arrows_and_pages_navigate_shift_keeps_zoom() {
    let k = KeyPresses { arrow_right: true, page_up: true, shift: true, ..no_keys() };
    assert_eq!(
        key_commands_for(&k, false, false),
        vec![Command::NavigateNext { preserve_zoom: true }, Command::NavigatePrev { preserve_zoom: true }]
    );
    let k = KeyPresses { page_down: true, ..no_keys() };
    assert_eq!(key_commands_for(&k, false, false), vec![Command::NavigateNext { preserve_zoom: false }]);
    let k = KeyPresses { arrow_up: true, arrow_down: true, ..no_keys() };
    assert_eq!(key_commands_for(&k, false, false), vec![Command::ZoomIn, Command::ZoomOut]);
}

#[test]
fn digits_rate_zero_clears() {
    let k = KeyPresses { num0: true, num3: true, num5: true, ..no_keys() };
    assert_eq!(
        key_commands_for(&k, false, false),
        vec![Command::SetRating(None), Command::SetRating(Some(3)), Command::SetRating(Some(5))]
    );
}

#[test]
fn ctrl_zero_is_actual_size_f_is_fullscreen() {
    let k = KeyPresses { num0: true, ctrl: true, key_f: true, ..no_keys() };
    assert_eq!(key_commands_for(&k, false, false), vec![Command::SetRating(None), Command::ZoomActualSize]);
    let k = KeyPresses { key_f: true, ..no_keys() };
    assert_eq!(key_commands_for(&k, false, false), vec![Command::ToggleFullscreen]);
}

#[test]
fn hide_rotate_info_and_refresh_in_order() {
    let k = KeyPresses {
        key_i: true,
        key_h: true,
        open_bracket: true,
        close_bracket: true,
        key_r: true,
        ctrl: true,
        shift: true,
        ..no_keys()
    };
    assert_eq!(
        key_commands_for(&k, false, false),
        vec![
            Command::ToggleInfoPanel,
            Command::Hide,
            Command::Rotate { clockwise: false },
            Command::Rotate { clockwise: true },
            Command::HardRefresh,
        ]
    );
    // R without both modifiers does nothing.
    let k = KeyPresses { key_r: true, ctrl: true, ..no_keys() };
    assert!(key_commands_for(&k, false, false).is_empty());
}

#[test]
fn menu_items_need_an_image_or_the_database() {
    assert!(!menu_item_enabled(MenuItem::NextImage, false, true));
    assert!(menu_item_enabled(MenuItem::NextImage, true, false));
    assert!(!menu_item_enabled(MenuItem::FilterLibrary(3), true, false));
    assert!(menu_item_enabled(MenuItem::FilterLibrary(3), false, true));
    assert!(menu_item_enabled(MenuItem::FilterFolder(2), false, false));
    assert!(menu_item_enabled(MenuItem::ResetSession, false, false));
    assert_eq!(menu_command(MenuItem::Delete, false, false, false), None);
}

#[test]
fn menu_commands() {
    assert_eq!(menu_command(MenuItem::Delete, true, false, false), Some(Command::ConfirmDelete));
    assert_eq!(
        menu_command(MenuItem::FilterFolder(4), false, false, false),
        Some(Command::ApplyLocalFilter(Some(RatingFilter { op: RatingFilterOp::AtLeast, value: 4 })))
    );
    assert_eq!(
        menu_command(MenuItem::FilterLibrary(2), false, true, false),
        Some(Command::ApplyGlobalFilter(RatingFilter { op: RatingFilterOp::AtLeast, value: 2 }))
    );
    assert_eq!(menu_command(MenuItem::ClearFilter, false, false, false), Some(Command::ApplyLocalFilter(None)));
    assert_eq!(menu_command(MenuItem::ToggleFit, false, false, true), Some(Command::ZoomActualSize));
    assert_eq!(menu_command(MenuItem::ToggleFit, false, false, false), Some(Command::ToggleFit));
    assert_eq!(menu_command(MenuItem::CopyFile, true, false, false), Some(Command::CopyFilePath { announce: true }));
    assert_eq!(menu_command(MenuItem::CopyPath, true, false, false), Some(Command::CopyFilePath { announce: false }));
    assert_eq!(
        menu_command(MenuItem::NextImage, true, false, false),
        Some(Command::NavigateNext { preserve_zoom: true })
    );
}

#[test]
fn menu_labels() {
    assert_eq!(info_toggle_label(true), "Hide info");
    assert_eq!(info_toggle_label(false), "Show info");
    assert_eq!(fit_toggle_label(true), ("Actual size", "Ctrl+0"));
    assert_eq!(fit_toggle_label(false), ("Fit to window", ""));
}
