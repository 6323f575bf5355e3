use ascii_presenter::properties::{
    dropdown_custom_sentinel, dropdown_options_for, format_named_color, format_opt_color, format_opt_color_pub,
    parse_bool, parse_char, parse_col_width_name, parse_opt_char, parse_opt_color, parse_opt_color_pub, PropertyError,
    PropertyKind,
};
use ascii_presenter::types::{Color, NamedColor};

#[test]
fn colours_format_as_names_or_hex() {
    assert_eq!(format_opt_color(&None), "none");
    assert_eq!(format_opt_color(&Some(Color::Named(NamedColor::Magenta))), "magenta");
    assert_eq!(format_opt_color(&Some(Color::Rgb { r: 255, g: 8, b: 171 })), "#ff08ab");
    assert_eq!(format_opt_color_pub(&Some(Color::Rgb { r: 0, g: 0, b: 0 })), "#000000");
    assert_eq!(format_named_color(&NamedColor::Cyan), "cyan");
}

#[test]
fn colours_parse_from_names_and_hex() {
    assert_eq!(parse_opt_color("  "), Ok(None));
    assert_eq!(parse_opt_color(" none "), Ok(None));
    assert_eq!(parse_opt_color("RED"), Ok(Some(Color::Named(NamedColor::Red))));
    assert_eq!(parse_opt_color("\tWhite\n"), Ok(Some(Color::Named(NamedColor::White))));
    assert_eq!(parse_opt_color("#Ff0010"), Ok(Some(Color::Rgb { r: 255, g: 0, b: 16 })));
    assert_eq!(parse_opt_color_pub("#+f0a0b"), Ok(Some(Color::Rgb { r: 15, g: 10, b: 11 })));
    assert_eq!(parse_opt_color("#fff"), Err(PropertyError::HexLength));
    assert_eq!(parse_opt_color("#ggg000"), Err(PropertyError::HexDigits));
    assert_eq!(parse_opt_color("purple"), Err(PropertyError::UnknownColor));
}

#[test]
fn colour_text_round_trips() {
    for c in [
        None,
        Some(Color::Named(NamedColor::Black)),
        Some(Color::Named(NamedColor::Yellow)),
        Some(Color::Rgb { r: 1, g: 128, b: 254 }),
    ] {
        assert_eq!(parse_opt_color(&format_opt_color(&c)), Ok(c));
    }
}

#[test]
fn flags_and_characters_parse() {
    assert_eq!(parse_bool(" yes "), Ok(true));
    assert_eq!(parse_bool("1"), Ok(true));
    assert_eq!(parse_bool("false"), Ok(false));
    assert_eq!(parse_bool("no"), Ok(false));
    assert_eq!(parse_bool("maybe"), Err(PropertyError::InvalidBoolean));
    assert_eq!(parse_char("x"), Ok('x'));
    assert_eq!(parse_char("─"), Ok('─'));
    assert_eq!(parse_char("xy"), Err(PropertyError::NotOneChar));
    assert_eq!(parse_char(""), Err(PropertyError::NotOneChar));
    assert_eq!(parse_opt_char(" auto "), Ok(None));
    assert_eq!(parse_opt_char(""), Ok(None));
    assert_eq!(parse_opt_char(" > "), Ok(Some('>')));
    assert_eq!(parse_opt_char("ab"), Err(PropertyError::NotOneCharOrAuto));
}

#[test]
fn column_width_names_parse() {
    assert_eq!(parse_col_width_name("col_0_width"), Some(0));
    assert_eq!(parse_col_width_name("col_15_width"), Some(15));
    assert_eq!(parse_col_width_name("col_+3_width"), Some(3));
    assert_eq!(parse_col_width_name("col__width"), None);
    assert_eq!(parse_col_width_name("col_x_width"), None);
    assert_eq!(parse_col_width_name("col_1_height"), None);
    assert_eq!(parse_col_width_name("col_99999999999999999999_width"), None);
}

#[test]
fn dropdowns_by_kind() {
    assert_eq!(dropdown_options_for(&PropertyKind::Color).unwrap()[0], "RGB");
    assert_eq!(dropdown_options_for(&PropertyKind::HeadChar).unwrap().len(), 7);
    assert_eq!(dropdown_options_for(&PropertyKind::BodyChar).unwrap()[5], "custom");
    assert!(dropdown_options_for(&PropertyKind::Text).is_none());
    assert_eq!(dropdown_custom_sentinel(&PropertyKind::Color), "RGB");
    assert_eq!(dropdown_custom_sentinel(&PropertyKind::HeadChar), "custom");
}

use ascii_presenter::editor::{EditorConfig, Layout, Mode, RIGHT_PANEL_WIDTH};

#[test]
fn default_key_bindings() {
    let c = EditorConfig::default();
    assert_eq!(c.key_bindings.next_frame, "Right");
    assert_eq!(c.key_bindings.save, "Ctrl-s");
    assert_eq!(c.key_bindings.table_add_col_after, "Alt-a");
    assert_eq!(c.key_bindings.table_edit_cell_style, "s");
}

#[test]
fn layout_reserves_menu_timeline_and_panel() {
    let l = Layout::compute(80, 24, &Mode::Normal);
    assert_eq!((l.right_panel_width, l.canvas_width, l.canvas_y, l.canvas_height, l.timeline_y), (0, 80, 1, 21, 22));
    let p = Layout::compute(80, 24, &Mode::AddObject { selected: 0 });
    assert_eq!((p.right_panel_width, p.canvas_width), (RIGHT_PANEL_WIDTH, 56));
    let s = Layout::compute(10, 2, &Mode::SelectedObject { object_index: 3 });
    assert_eq!((s.menu_h, s.canvas_y, s.canvas_height, s.timeline_y, s.term_width), (2, 2, 0, 0, 10));
}
