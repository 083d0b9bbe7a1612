use modal_editor::theme::translate_scope;
use modal_editor::theme::token_style;
use modal_editor::theme::{theme_from_colors, ThemeError};
use modal_editor::theme::{contains_text, same_text};
use modal_editor::draw::gutter_chars;
use modal_editor::keys::{key_name, KeyCode, KeyPress, Modifiers};
use modal_editor::style::{determine_style_for_position, Color, Style, StyleInfo};
use modal_editor::theme::{parse_rgb, ColorError};

#[test]
fn key_names_carry_modifier_prefixes() {
    let k = |code, modifiers| KeyPress { code, modifiers };
    assert_eq!(key_name(&k(KeyCode::Char('x'), Modifiers::Plain)), "x");
    assert_eq!(key_name(&k(KeyCode::Char('f'), Modifiers::Control)), "Ctrl-f");
    assert_eq!(key_name(&k(KeyCode::Named("Enter".to_string()), Modifiers::Alt)), "Alt-Enter");
    assert_eq!(key_name(&k(KeyCode::Named("Esc".to_string()), Modifiers::Plain)), "Esc");
}

#[test]
fn first_matching_range_wins() {
    let a = Style { fg: Some(Color::Green), ..Style::default() };
    let b = Style { bold: true, ..Style::default() };
    let infos = vec![StyleInfo { start: 2, end: 4, style: a }, StyleInfo { start: 0, end: 10, style: b }];
    assert_eq!(determine_style_for_position(&infos, 3), Some(a));
    assert_eq!(determine_style_for_position(&infos, 4), Some(b));
    assert_eq!(determine_style_for_position(&infos, 10), None);
    assert!(infos[0].contains(2));
    assert!(!infos[0].contains(4));
}

#[test]
fn test_parse_rgb() {
    let rgb = "#08afBB";
    let rgb = parse_rgb(rgb);
    println!("{rgb:#?}");
}

#[test]
fn parse_rgb_values_and_errors() {
    assert_eq!(parse_rgb("#08afBB"), Ok(Color::Rgb { r: 8, g: 175, b: 187 }));
    assert_eq!(parse_rgb("08afBB0"), Err(ColorError::MissingHash));
    assert_eq!(parse_rgb(""), Err(ColorError::MissingHash));
    assert_eq!(parse_rgb("#08afB"), Err(ColorError::WrongLength));
    assert_eq!(parse_rgb("#08afBG"), Err(ColorError::InvalidDigit));
}

#[test]
fn gutter_numbers_are_right_aligned() {
    let s: String = gutter_chars(7, 120).into_iter().collect();
    assert_eq!(s, "   7 ");
    let s: String = gutter_chars(121, 120).into_iter().collect();
    assert_eq!(s, "     ");
    let s: String = gutter_chars(120, 120).into_iter().collect();
    assert_eq!(s, " 120 ");
}

#[test]
fn scope_names_are_translated() {
    assert_eq!(translate_scope("entity.name.function.macro".to_string()), "function.macro");
    assert_eq!(translate_scope("support.type".to_string()), "type");
    assert_eq!(translate_scope("meta.attribute".to_string()), "attribute");
    assert_eq!(translate_scope("markup.heading".to_string()), "markup.heading");
}

#[test]
fn token_settings_give_styles() {
    let s = token_style(Some("#ff0000"), None, Some("italic bold")).unwrap();
    assert_eq!(s, Style { fg: Some(Color::Rgb { r: 255, g: 0, b: 0 }), bg: None, bold: true, italic: true });
    let s = token_style(None, Some("#000001"), Some("underline")).unwrap();
    assert_eq!(s, Style { fg: None, bg: Some(Color::Rgb { r: 0, g: 0, b: 1 }), bold: false, italic: false });
    assert_eq!(token_style(Some("red"), None, None), Err(ColorError::MissingHash));
    assert_eq!(token_style(None, Some("#12"), None), Err(ColorError::WrongLength));
}

#[test]
fn theme_from_colors_requires_base_colors() {
    assert_eq!(theme_from_colors(None, None, Some("#000000"), None, None, vec![]).unwrap_err(), ThemeError::MissingForeground);
    assert_eq!(theme_from_colors(None, Some("#000000"), None, None, None, vec![]).unwrap_err(), ThemeError::MissingBackground);
    assert_eq!(
        theme_from_colors(None, Some("#000000"), Some("#ffffff"), Some("#zz0000"), None, vec![]).unwrap_err(),
        ThemeError::BadColor(ColorError::InvalidDigit)
    );
    let t = theme_from_colors(Some("Frappe".to_string()), Some("#c6d0f5"), Some("#303446"), Some("#838ba7"), None, vec![]).unwrap();
    assert_eq!(t.name, "Frappe");
    assert_eq!(t.style.fg, Some(Color::Rgb { r: 0xc6, g: 0xd0, b: 0xf5 }));
    assert_eq!(t.style.bg, Some(Color::Rgb { r: 0x30, g: 0x34, b: 0x46 }));
    assert_eq!(t.gutter_style.fg, Some(Color::Rgb { r: 0x83, g: 0x8b, b: 0xa7 }));
    assert_eq!(t.gutter_style.bg, None);
    assert_eq!(t.statusline_style.outer_chars, [' ', '\u{e0b0}', '\u{e0b2}', ' ']);
}

#[test]
fn text_helpers() {
    assert!(same_text("abc", "abc"));
    assert!(!same_text("abc", "abd"));
    assert!(contains_text("bold italic", "italic"));
    assert!(!contains_text("ital", "italic"));
    assert!(contains_text("x", ""));
}
