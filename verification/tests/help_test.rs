use mahgit::ui::help::{help_panel_height, help_row, help_rows};
use mahgit::ui::input::InputHandler;
use mahgit::ui::styled::{colored, ThemeColor};

#[test]
fn help_headers_are_bold_in_the_key_color() {
    let row = help_row("Navigation:");
    assert_eq!(row.len(), 1);
    assert_eq!(row[0].text, "Navigation:");
    assert_eq!(row[0].style.fg, Some(ThemeColor::HelpKey));
    assert!(row[0].style.bold);
}

#[test]
fn help_bindings_split_at_the_first_wide_gap() {
    let row = help_row("  ↓/j     Move selection down");
    assert_eq!(row.len(), 2);
    assert_eq!(row[0].text, "  ↓/j");
    assert_eq!(row[0].style, colored(ThemeColor::HelpKey));
    assert_eq!(row[1].text, "     Move selection down");
    assert_eq!(row[1].style, colored(ThemeColor::HelpDesc));
    let plain = help_row("  no gap here");
    assert_eq!(plain.len(), 1);
    assert_eq!(plain[0].style, colored(ThemeColor::HelpDesc));
    assert!(help_row("").is_empty());
}

#[test]
fn help_rows_follow_the_help_text() {
    assert_eq!(help_rows().len(), InputHandler::get_help_text().len());
}

#[test]
fn help_panel_fits_the_area_but_keeps_five_rows() {
    assert_eq!(help_panel_height(40, 100), 40);
    assert_eq!(help_panel_height(40, 20), 18);
    assert_eq!(help_panel_height(40, 4), 5);
    assert_eq!(help_panel_height(3, 100), 5);
}
