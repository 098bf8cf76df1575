use lazygitrs::theme::{color_of_name, parse_color, parse_color_list, Theme, ThemeColor, ThemeConfig, ThemeStyle};

#[test]
fn named_colors_ignore_case() {
    assert_eq!(parse_color("Red"), Some(ThemeColor::Red));
    assert_eq!(parse_color("MAGENTA"), Some(ThemeColor::Magenta));
    assert_eq!(parse_color("white"), Some(ThemeColor::White));
    assert_eq!(parse_color("default"), None);
    assert_eq!(parse_color("purple"), None);
}

#[test]
fn hex_colors_read_three_bytes() {
    assert_eq!(parse_color("#FF8000"), Some(ThemeColor::Rgb(255, 128, 0)));
    assert_eq!(color_of_name("#00ff00"), Some(ThemeColor::Rgb(0, 255, 0)));
    assert_eq!(parse_color("#+f0000"), Some(ThemeColor::Rgb(15, 0, 0)));
    assert_eq!(parse_color("#12345"), None);
    assert_eq!(parse_color("#1234567"), None);
    assert_eq!(parse_color("#gg0000"), None);
    assert_eq!(parse_color("#\u{e9}0000"), None);
}

#[test]
fn first_color_of_a_list_counts() {
    assert_eq!(parse_color_list(&Vec::new()), None);
    assert_eq!(parse_color_list(&vec!["blue".to_string(), "red".to_string()]), Some(ThemeColor::Blue));
    assert_eq!(parse_color_list(&vec!["nope".to_string(), "red".to_string()]), None);
}

#[test]
fn configured_colors_replace_the_dark_ones() {
    let dark = Theme::dark();
    assert_eq!(dark.active_border, ThemeStyle { fg: Some(ThemeColor::Green), bg: None, bold: true });
    assert_eq!(dark.selected_line, ThemeStyle { fg: None, bg: Some(ThemeColor::DarkGray), bold: false });
    assert_eq!(dark.diff_add_bg, ThemeColor::Rgb(0, 60, 0));
    assert_eq!(Theme::default(), dark);
    let none = ThemeConfig {
        active_border_color: vec![],
        inactive_border_color: vec!["default".to_string()],
        selected_line_bg_color: vec!["nonsense".to_string()],
        options_text_color: vec![],
    };
    assert_eq!(Theme::from_config(&none), dark);
    let cfg = ThemeConfig {
        active_border_color: vec!["#ff0000".to_string(), "blue".to_string()],
        inactive_border_color: vec!["White".to_string()],
        selected_line_bg_color: vec!["blue".to_string()],
        options_text_color: vec!["magenta".to_string()],
    };
    let t = Theme::from_config(&cfg);
    assert_eq!(t.active_border, ThemeStyle { fg: Some(ThemeColor::Rgb(255, 0, 0)), bg: None, bold: true });
    assert_eq!(t.inactive_border, ThemeStyle { fg: Some(ThemeColor::White), bg: None, bold: false });
    assert_eq!(t.selected_line, ThemeStyle { fg: None, bg: Some(ThemeColor::Blue), bold: false });
    assert_eq!(t.options_text, ThemeStyle { fg: Some(ThemeColor::Magenta), bg: None, bold: false });
    assert_eq!(t.title, dark.title);
    assert_eq!(t.spinner, dark.spinner);
}
