use vstd::prelude::*;

use crate::model::strs;
use crate::text::{chars_eq, chars_of, lowercase_of, to_lowercase, utf8_len};

verus! {

/// A color of the theme configuration.
#[derive(Debug, Clone, Copy, PartialEq, Eq, Structural)]
pub enum ThemeColor {
    Black,
    Red,
    Green,
    Yellow,
    Blue,
    Magenta,
    Cyan,
    White,
    Gray,
    DarkGray,
    LightRed,
    Rgb(u8, u8, u8),
}

/// The value of a hexadecimal digit, either case.
pub open spec fn hex_digit(c: char) -> Option<nat> {
    if '0' <= c && c <= '9' {
        Some((c as nat - '0' as nat) as nat)
    } else if 'a' <= c && c <= 'f' {
        Some((c as nat - 'a' as nat + 10) as nat)
    } else if 'A' <= c && c <= 'F' {
        Some((c as nat - 'A' as nat + 10) as nat)
    } else {
        None
    }
}

/// The byte that the two-character text `a b` reads as in base 16 (std's
/// `u8::from_str_radix`): a `+` sign then one digit, or two digits.
pub open spec fn hex_byte(a: char, b: char) -> Option<u8> {
    if a == '+' {
        match hex_digit(b) {
            Some(y) => Some(y as u8),
            None => None,
        }
    } else {
        match (hex_digit(a), hex_digit(b)) {
            (Some(x), Some(y)) => Some((16 * x + y) as u8),
            _ => None,
        }
    }
}

/// How reading `#rrggbb` components goes on the text after the `#`.
pub enum HexRead {
    /// A component is cut inside a character (the reading would panic).
    Cut,
    /// A component is not a number.
    Bad,
    /// The components read.
    Read(Seq<u8>),
}

/// Reads two-byte components from `u` until `n` are read: a component of two one-byte
/// characters reads as `hex_byte`; one that is a single two-byte character is not a
/// number; a cut inside a character, that is a one-byte character followed by a longer
/// one or a character of three or more bytes, stops the reading.
pub open spec fn read_hex(u: Seq<char>, n: nat) -> HexRead
    decreases n,
{
    if n == 0 {
        HexRead::Read(seq![])
    } else if u.len() == 0 {
        HexRead::Cut
    } else if utf8_len(u[0]) == 2 {
        HexRead::Bad
    } else if utf8_len(u[0]) > 2 || u.len() < 2 || utf8_len(u[1]) > 1 {
        HexRead::Cut
    } else {
        match hex_byte(u[0], u[1]) {
            None => HexRead::Bad,
            Some(v) => match read_hex(u.skip(2), (n - 1) as nat) {
                HexRead::Read(rest) => HexRead::Read(seq![v] + rest),
                other => other,
            },
        }
    }
}

/// A `#rrggbb` text: `#` and six more bytes.
pub open spec fn is_hex_form(t: Seq<char>) -> bool {
    t.len() > 0 && t[0] == '#' && crate::text::byte_len(t) == 7
}

/// The color a lowercase color text names: `default` and anything unknown none, the
/// eight basic names, and `#rrggbb`.
pub open spec fn color_named(t: Seq<char>) -> Option<ThemeColor> {
    if t == "black"@ {
        Some(ThemeColor::Black)
    } else if t == "red"@ {
        Some(ThemeColor::Red)
    } else if t == "green"@ {
        Some(ThemeColor::Green)
    } else if t == "yellow"@ {
        Some(ThemeColor::Yellow)
    } else if t == "blue"@ {
        Some(ThemeColor::Blue)
    } else if t == "magenta"@ {
        Some(ThemeColor::Magenta)
    } else if t == "cyan"@ {
        Some(ThemeColor::Cyan)
    } else if t == "white"@ {
        Some(ThemeColor::White)
    } else if is_hex_form(t) {
        match read_hex(t.drop_first(), 3) {
            HexRead::Read(c) => Some(ThemeColor::Rgb(c[0], c[1], c[2])),
            _ => None,
        }
    } else {
        None
    }
}

/// Reading a `#rrggbb` text cuts no character.
pub open spec fn reads_cleanly(t: Seq<char>) -> bool {
    is_hex_form(t) ==> !(read_hex(t.drop_first(), 3) is Cut)
}

/// The byte that two characters read as (see `hex_byte`).
fn hex_byte_of(a: char, b: char) -> (r: Option<u8>)
    ensures
        r == hex_byte(a, b),
{
    if a == '+' {
        match hex_digit_of(b) {
            Some(y) => Some(y),
            None => None,
        }
    } else {
        match (hex_digit_of(a), hex_digit_of(b)) {
            (Some(x), Some(y)) => Some(16 * x + y),
            _ => None,
        }
    }
}

/// The value of a hexadecimal digit (see `hex_digit`).
fn hex_digit_of(c: char) -> (r: Option<u8>)
    ensures
        match hex_digit(c) {
            Some(v) => r == Some(v as u8) && v < 16,
            None => r is None,
        },
{
    let u = c as u32;
    if '0' <= c && c <= '9' {
        Some((u - 48) as u8)
    } else if 'a' <= c && c <= 'f' {
        Some((u - 87) as u8)
    } else if 'A' <= c && c <= 'F' {
        Some((u - 55) as u8)
    } else {
        None
    }
}

/// Reads `n` components from position `from` of `t` (see `read_hex`).
fn read_hex_exec(t: &Vec<char>, from: usize, n: usize) -> (r: Option<Vec<u8>>)
    requires
        from <= t@.len(),
        !(read_hex(t@.skip(from as int), n as nat) is Cut),
    ensures
        match read_hex(t@.skip(from as int), n as nat) {
            HexRead::Read(c) => r matches Some(v) && v@ == c,
            _ => r is None,
        },
        r matches Some(v) ==> v@.len() == n,
    decreases n,
{
    let ghost u = t@.skip(from as int);
    if n == 0 {
        return Some(Vec::new());
    }
    proof {
        assert(u.len() == t@.len() - from);
        if u.len() > 0 {
            assert(u[0] == t@[from as int]);
        }
        if u.len() > 1 {
            assert(u[1] == t@[from + 1]);
        }
    }
    let a = t[from];
    let la = crate::text::char_utf8_len(a);
    if la == 2 {
        return None;
    }
    proof {
        assert(!(read_hex(u, n as nat) is Cut));
        assert(u.len() >= 2);
        assert(from + 2 <= t@.len());
        assert(t@.len() == t.len());
    }
    let b = t[from + 1];
    match hex_byte_of(a, b) {
        None => None,
        Some(v) => {
            proof {
                assert(u.skip(2) =~= t@.skip(from + 2));
            }
            match read_hex_exec(t, from + 2, n - 1) {
                Some(rest) => {
                    let mut out = vec![v];
                    let mut rest = rest;
                    out.append(&mut rest);
                    proof {
                        assert(out@ =~= seq![v] + read_hex(u.skip(2), (n - 1) as nat)->Read_0);
                    }
                    Some(out)
                },
                None => None,
            }
        },
    }
}

/// The color the lowercase text `t` names (see `color_named`).
pub fn color_of_name(t: &str) -> (r: Option<ThemeColor>)
    requires
        reads_cleanly(t@),
    ensures
        r == color_named(t@),
{
    let c = chars_of(t);
    if chars_eq(&c, &chars_of("black")) {
        return Some(ThemeColor::Black);
    }
    if chars_eq(&c, &chars_of("red")) {
        return Some(ThemeColor::Red);
    }
    if chars_eq(&c, &chars_of("green")) {
        return Some(ThemeColor::Green);
    }
    if chars_eq(&c, &chars_of("yellow")) {
        return Some(ThemeColor::Yellow);
    }
    if chars_eq(&c, &chars_of("blue")) {
        return Some(ThemeColor::Blue);
    }
    if chars_eq(&c, &chars_of("magenta")) {
        return Some(ThemeColor::Magenta);
    }
    if chars_eq(&c, &chars_of("cyan")) {
        return Some(ThemeColor::Cyan);
    }
    if chars_eq(&c, &chars_of("white")) {
        return Some(ThemeColor::White);
    }
    if c.len() == 0 || c[0] != '#' || crate::text::bytes_len(&c) != 7 {
        return None;
    }
    proof {
        assert(is_hex_form(t@));
        assert(c@.skip(1) =~= t@.drop_first());
    }
    match read_hex_exec(&c, 1, 3) {
        Some(v) => Some(ThemeColor::Rgb(v[0], v[1], v[2])),
        None => None,
    }
}

/// The color a theme setting names: its lowercase form read by `color_of_name`; none
/// also where reading the lowercase form would cut a character.
pub fn parse_color(s: &str) -> (r: Option<ThemeColor>)
    ensures
        reads_cleanly(lowercase_of(s@)) ==> r == color_named(lowercase_of(s@)),
        !reads_cleanly(lowercase_of(s@)) ==> r is None,
{
    let lower = to_lowercase(s);
    if !hex_reads_cleanly(lower.as_str()) {
        return None;
    }
    color_of_name(lower.as_str())
}

/// Whether reading the text `t` as a color cuts no character.
fn hex_reads_cleanly(t: &str) -> (b: bool)
    ensures
        b == reads_cleanly(t@),
{
    let c = chars_of(t);
    if c.len() == 0 || c[0] != '#' || crate::text::bytes_len(&c) != 7 {
        return true;
    }
    proof {
        assert(c@.skip(1) =~= t@.drop_first());
    }
    !cuts_reading(&c, 1, 3)
}

/// Whether reading `n` components from position `from` of `t` cuts a character.
fn cuts_reading(t: &Vec<char>, from: usize, n: usize) -> (b: bool)
    requires
        from <= t@.len(),
    ensures
        b == (read_hex(t@.skip(from as int), n as nat) is Cut),
    decreases n,
{
    let ghost u = t@.skip(from as int);
    if n == 0 {
        return false;
    }
    proof {
        assert(u.len() == t@.len() - from);
        if u.len() > 0 {
            assert(u[0] == t@[from as int]);
        }
        if u.len() > 1 {
            assert(u[1] == t@[from + 1]);
        }
    }
    if from == t.len() {
        return true;
    }
    let la = crate::text::char_utf8_len(t[from]);
    if la == 2 {
        return false;
    }
    if la > 2 || t.len() - from < 2 || crate::text::char_utf8_len(t[from + 1]) > 1 {
        return true;
    }
    match hex_byte_of(t[from], t[from + 1]) {
        None => false,
        Some(_) => {
            proof {
                assert(u.skip(2) =~= t@.skip(from + 2));
            }
            cuts_reading(t, from + 2, n - 1)
        },
    }
}

/// The color of the first of a setting's colors (see `parse_color`); none when there are
/// none.
pub fn parse_color_list(colors: &Vec<String>) -> (r: Option<ThemeColor>)
    ensures
        colors@.len() == 0 ==> r is None,
        colors@.len() > 0 ==> ({
            let t = lowercase_of(strs(colors@)[0]);
            &&& reads_cleanly(t) ==> r == color_named(t)
            &&& !reads_cleanly(t) ==> r is None
        }),
{
    if colors.len() == 0 {
        None
    } else {
        parse_color(colors[0].as_str())
    }
}

/// The color a setting's list of colors names (see `parse_color_list`).
pub open spec fn color_list_of(colors: Seq<String>) -> Option<ThemeColor> {
    if colors.len() == 0 {
        None
    } else {
        let t = lowercase_of(strs(colors)[0]);
        if reads_cleanly(t) {
            color_named(t)
        } else {
            None
        }
    }
}

/// A text style: the foreground and background colors (none: the terminal's own) and
/// whether the text is bold.
#[derive(Debug, Clone, Copy, PartialEq, Eq, Structural)]
pub struct ThemeStyle {
    pub fg: Option<ThemeColor>,
    pub bg: Option<ThemeColor>,
    pub bold: bool,
}

/// The colors a user sets for the theme, each as a list whose first color counts.
pub struct ThemeConfig {
    pub active_border_color: Vec<String>,
    pub inactive_border_color: Vec<String>,
    pub selected_line_bg_color: Vec<String>,
    pub options_text_color: Vec<String>,
}

/// The styles and colors the screen is drawn with.
#[derive(Debug, Clone, Copy, PartialEq, Eq, Structural)]
pub struct Theme {
    pub active_border: ThemeStyle,
    pub inactive_border: ThemeStyle,
    pub selected_line: ThemeStyle,
    pub options_text: ThemeStyle,
    pub title: ThemeStyle,
    pub diff_add: ThemeStyle,
    pub diff_remove: ThemeStyle,
    pub diff_context: ThemeStyle,
    pub diff_add_bg: ThemeColor,
    pub diff_remove_bg: ThemeColor,
    pub diff_add_word: ThemeColor,
    pub diff_remove_word: ThemeColor,
    pub commit_hash: ThemeStyle,
    pub commit_author: ThemeStyle,
    pub commit_date: ThemeStyle,
    pub branch_local: ThemeStyle,
    pub branch_remote: ThemeStyle,
    pub branch_head: ThemeStyle,
    pub file_staged: ThemeStyle,
    pub file_unstaged: ThemeStyle,
    pub file_untracked: ThemeStyle,
    pub file_conflicted: ThemeStyle,
    pub search_match: ThemeStyle,
    pub status_bar: ThemeStyle,
    pub spinner: ThemeStyle,
}

/// Text in color `c`.
pub open spec fn fg(c: ThemeColor) -> ThemeStyle {
    ThemeStyle { fg: Some(c), bg: None, bold: false }
}

/// Bold text in color `c`.
pub open spec fn fg_bold(c: ThemeColor) -> ThemeStyle {
    ThemeStyle { fg: Some(c), bg: None, bold: true }
}

/// Text on background color `c`.
pub open spec fn bg(c: ThemeColor) -> ThemeStyle {
    ThemeStyle { fg: None, bg: Some(c), bold: false }
}

/// The dark theme, the one used unless the configuration says otherwise.
pub open spec fn dark_theme() -> Theme {
    Theme {
        active_border: fg_bold(ThemeColor::Green),
        inactive_border: fg(ThemeColor::DarkGray),
        selected_line: bg(ThemeColor::DarkGray),
        options_text: fg(ThemeColor::Blue),
        title: fg_bold(ThemeColor::White),
        diff_add: fg(ThemeColor::Green),
        diff_remove: fg(ThemeColor::Red),
        diff_context: fg(ThemeColor::Gray),
        diff_add_bg: ThemeColor::Rgb(0, 60, 0),
        diff_remove_bg: ThemeColor::Rgb(60, 0, 0),
        diff_add_word: ThemeColor::Rgb(0, 120, 0),
        diff_remove_word: ThemeColor::Rgb(120, 0, 0),
        commit_hash: fg(ThemeColor::Yellow),
        commit_author: fg(ThemeColor::Green),
        commit_date: fg(ThemeColor::Blue),
        branch_local: fg(ThemeColor::Green),
        branch_remote: fg(ThemeColor::Red),
        branch_head: fg_bold(ThemeColor::Cyan),
        file_staged: fg(ThemeColor::Green),
        file_unstaged: fg(ThemeColor::Red),
        file_untracked: fg(ThemeColor::LightRed),
        file_conflicted: fg_bold(ThemeColor::Red),
        search_match: ThemeStyle { fg: Some(ThemeColor::Black), bg: Some(ThemeColor::Yellow), bold: false },
        status_bar: fg(ThemeColor::DarkGray),
        spinner: fg(ThemeColor::Cyan),
    }
}

/// The dark theme with the configured colors put in: the active border (bold), the
/// inactive border, the selected line's background and the options text, each where its
/// setting names a color.
pub open spec fn theme_of(active: Option<ThemeColor>, inactive: Option<ThemeColor>, selected: Option<ThemeColor>, options: Option<ThemeColor>) -> Theme {
    let d = dark_theme();
    Theme {
        active_border: match active {
            Some(c) => fg_bold(c),
            None => d.active_border,
        },
        inactive_border: match inactive {
            Some(c) => fg(c),
            None => d.inactive_border,
        },
        selected_line: match selected {
            Some(c) => bg(c),
            None => d.selected_line,
        },
        options_text: match options {
            Some(c) => fg(c),
            None => d.options_text,
        },
        ..d
    }
}

fn fg_style(c: ThemeColor) -> (s: ThemeStyle)
    ensures
        s == fg(c),
{
    ThemeStyle { fg: Some(c), bg: None, bold: false }
}

fn bold_style(c: ThemeColor) -> (s: ThemeStyle)
    ensures
        s == fg_bold(c),
{
    ThemeStyle { fg: Some(c), bg: None, bold: true }
}

fn bg_style(c: ThemeColor) -> (s: ThemeStyle)
    ensures
        s == bg(c),
{
    ThemeStyle { fg: None, bg: Some(c), bold: false }
}

impl Theme {
    /// The dark theme (see `dark_theme`).
    pub fn dark() -> (t: Theme)
        ensures
            t == dark_theme(),
    {
        Theme {
            active_border: bold_style(ThemeColor::Green),
            inactive_border: fg_style(ThemeColor::DarkGray),
            selected_line: bg_style(ThemeColor::DarkGray),
            options_text: fg_style(ThemeColor::Blue),
            title: bold_style(ThemeColor::White),
            diff_add: fg_style(ThemeColor::Green),
            diff_remove: fg_style(ThemeColor::Red),
            diff_context: fg_style(ThemeColor::Gray),
            diff_add_bg: ThemeColor::Rgb(0, 60, 0),
            diff_remove_bg: ThemeColor::Rgb(60, 0, 0),
            diff_add_word: ThemeColor::Rgb(0, 120, 0),
            diff_remove_word: ThemeColor::Rgb(120, 0, 0),
            commit_hash: fg_style(ThemeColor::Yellow),
            commit_author: fg_style(ThemeColor::Green),
            commit_date: fg_style(ThemeColor::Blue),
            branch_local: fg_style(ThemeColor::Green),
            branch_remote: fg_style(ThemeColor::Red),
            branch_head: bold_style(ThemeColor::Cyan),
            file_staged: fg_style(ThemeColor::Green),
            file_unstaged: fg_style(ThemeColor::Red),
            file_untracked: fg_style(ThemeColor::LightRed),
            file_conflicted: bold_style(ThemeColor::Red),
            search_match: ThemeStyle { fg: Some(ThemeColor::Black), bg: Some(ThemeColor::Yellow), bold: false },
            status_bar: fg_style(ThemeColor::DarkGray),
            spinner: fg_style(ThemeColor::Cyan),
        }
    }

    /// The theme of the configuration `config` (see `theme_of`).
    pub fn from_config(config: &ThemeConfig) -> (t: Theme)
        ensures
            t == theme_of(
                color_list_of(config.active_border_color@),
                color_list_of(config.inactive_border_color@),
                color_list_of(config.selected_line_bg_color@),
                color_list_of(config.options_text_color@),
            ),
    {
        let mut theme = Theme::dark();
        if let Some(c) = parse_color_list(&config.active_border_color) {
            theme.active_border = bold_style(c);
        }
        if let Some(c) = parse_color_list(&config.inactive_border_color) {
            theme.inactive_border = fg_style(c);
        }
        if let Some(c) = parse_color_list(&config.selected_line_bg_color) {
            theme.selected_line = bg_style(c);
        }
        if let Some(c) = parse_color_list(&config.options_text_color) {
            theme.options_text = fg_style(c);
        }
        theme
    }
}

impl Default for Theme {
    fn default() -> (t: Theme)
        ensures
            t == dark_theme(),
    {
        Theme::dark()
    }
}

/// A configuration that names no color gives the dark theme; a named color changes only
/// its own setting.
pub proof fn lemma_unset_colors_keep_dark_theme(active: Option<ThemeColor>, inactive: Option<ThemeColor>, selected: Option<ThemeColor>, options: Option<ThemeColor>)
    ensures
        theme_of(None, None, None, None) == dark_theme(),
        theme_of(active, inactive, selected, options).title == dark_theme().title,
        theme_of(active, inactive, selected, options).diff_add == dark_theme().diff_add,
        theme_of(active, inactive, selected, options).search_match == dark_theme().search_match,
        active is None ==> theme_of(active, inactive, selected, options).active_border == dark_theme().active_border,
        inactive is None ==> theme_of(active, inactive, selected, options).inactive_border
            == dark_theme().inactive_border,
        selected is None ==> theme_of(active, inactive, selected, options).selected_line == dark_theme().selected_line,
        options is None ==> theme_of(active, inactive, selected, options).options_text == dark_theme().options_text,
{
}

} // verus!
