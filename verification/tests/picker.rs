use lazygitrs::picker::{display_index, help_display_index, help_list_height, help_row_count, help_visible_count, list_height, HelpPopup, RefPicker};
use lazygitrs::ui::{HelpEntry, HelpSection, ListPickerItem};

fn item(value: &str, category: &str) -> ListPickerItem {
    ListPickerItem { value: value.to_string(), label: value.to_string(), category: category.to_string() }
}

fn refs() -> Vec<ListPickerItem> {
    vec![item("main", "Branches"), item("dev", "Branches"), item("v1", "Tags")]
}

fn values(p: &RefPicker) -> Vec<(String, String)> {
    p.items.iter().map(|i| (i.value.clone(), i.category.clone())).collect()
}

#[test]
fn display_rows_count_category_headers() {
    let items = refs();
    assert_eq!(display_index(&items, 0), 1);
    assert_eq!(display_index(&items, 1), 2);
    assert_eq!(display_index(&items, 2), 4);
    assert_eq!(display_index(&items, 3), 5);
    let flat = vec![item("a", ""), item("b", "")];
    assert_eq!(display_index(&flat, 1), 1);
}

#[test]
fn list_height_follows_terminal_height() {
    assert_eq!(list_height(40), 19);
    assert_eq!(list_height(10), 1);
    assert_eq!(list_height(5), 0);
    assert_eq!(list_height(100), 55);
}

#[test]
fn moving_down_and_up_scrolls() {
    let mut p = RefPicker::new(refs());
    p.move_down(2);
    assert_eq!((p.selected, p.scroll_offset), (1, 1));
    p.move_down(2);
    assert_eq!((p.selected, p.scroll_offset), (2, 3));
    p.move_down(2);
    assert_eq!((p.selected, p.scroll_offset), (2, 3));
    p.move_up();
    assert_eq!((p.selected, p.scroll_offset), (1, 1));
    p.move_up();
    assert_eq!((p.selected, p.scroll_offset), (0, 0));
}

#[test]
fn search_puts_typed_ref_first_and_selects_match() {
    let mut p = RefPicker::new(refs());
    p.search_changed("De", 10);
    assert_eq!(
        values(&p),
        vec![
            ("De".to_string(), "[ref]".to_string()),
            ("main".to_string(), "Branches".to_string()),
            ("dev".to_string(), "Branches".to_string()),
            ("v1".to_string(), "Tags".to_string()),
        ]
    );
    assert_eq!((p.selected, p.scroll_offset), (2, 0));
    p.search_changed(" zz ", 4);
    assert_eq!(p.items.len(), 4);
    assert_eq!(p.items[0].value, "zz");
    assert_eq!((p.selected, p.scroll_offset), (0, 0));
    assert_eq!(p.confirm_value(" zz "), Some("zz".to_string()));
    p.search_changed("", 4);
    assert_eq!(values(&p).len(), 3);
    assert_eq!((p.selected, p.scroll_offset), (0, 0));
}

#[test]
fn search_centres_the_match() {
    let items: Vec<ListPickerItem> = (0..10).map(|i| item(&format!("b{}", i), "Branches")).collect();
    let mut p = RefPicker::new(items);
    p.search_changed("b7", 4);
    assert_eq!(p.selected, 8);
    assert_eq!(p.scroll_offset, 8);
}

#[test]
fn confirm_falls_back_to_typed_text() {
    let p = RefPicker::new(Vec::new());
    assert_eq!(p.confirm_value("  HEAD~1 "), Some("HEAD~1".to_string()));
    assert_eq!(p.confirm_value("   "), None);
    let q = RefPicker::new(refs());
    assert_eq!(q.confirm_value("x"), Some("main".to_string()));
}

#[test]
fn later_search_replaces_typed_item() {
    let mut twice = RefPicker::new(refs());
    twice.search_changed("ma", 10);
    twice.search_changed("v", 10);
    let mut once = RefPicker::new(refs());
    once.search_changed("v", 10);
    assert_eq!(values(&twice), values(&once));
    assert_eq!(twice.selected, once.selected);
}

fn help_sections() -> Vec<HelpSection> {
    let entry = |k: &str, d: &str| HelpEntry { key: k.to_string(), description: d.to_string() };
    vec![
        HelpSection { title: "Global".to_string(), entries: vec![entry("q", "Quit"), entry("?", "Help")] },
        HelpSection { title: "Files".to_string(), entries: vec![entry("space", "Stage file"), entry("a", "Stage all")] },
        HelpSection { title: "Empty".to_string(), entries: Vec::new() },
    ]
}

#[test]
fn help_rows_count_section_headers() {
    let s = help_sections();
    assert_eq!(help_display_index(&s, 0, ""), 1);
    assert_eq!(help_display_index(&s, 2, ""), 4);
    assert_eq!(help_display_index(&s, 3, ""), 5);
    assert_eq!(help_display_index(&s, 4, ""), 6);
    assert_eq!(help_visible_count(&s, ""), 4);
}

#[test]
fn help_search_filters_entries() {
    let s = help_sections();
    assert_eq!(help_visible_count(&s, "stage"), 2);
    assert_eq!(help_display_index(&s, 0, "stage"), 1);
    assert_eq!(help_display_index(&s, 1, "stage"), 2);
    assert_eq!(help_visible_count(&s, "q"), 1);
    assert_eq!(help_visible_count(&s, "nothing"), 0);
}

#[test]
fn help_list_height_follows_terminal() {
    assert_eq!(help_list_height(30), 21);
    assert_eq!(help_list_height(100), 45);
    assert_eq!(help_list_height(6), 0);
}

#[test]
fn help_moves_scroll() {
    let mut p = HelpPopup::new(help_sections());
    p.move_down("", 2);
    assert_eq!((p.selected, p.scroll_offset), (1, 1));
    p.move_down("", 2);
    assert_eq!((p.selected, p.scroll_offset), (2, 3));
    p.move_down("", 2);
    assert_eq!((p.selected, p.scroll_offset), (3, 4));
    p.move_down("", 2);
    assert_eq!((p.selected, p.scroll_offset), (3, 4));
    p.move_up("");
    assert_eq!((p.selected, p.scroll_offset), (2, 3));
    p.move_up("");
    assert_eq!((p.selected, p.scroll_offset), (1, 1));
    p.move_up("");
    assert_eq!((p.selected, p.scroll_offset), (0, 0));
    p.move_down("", 2);
    p.search_changed();
    assert_eq!((p.selected, p.scroll_offset), (0, 0));
}

#[test]
fn ref_picker_wheel_moves_by_three() {
    let mut p = RefPicker::new(refs());
    p.wheel_down(2);
    assert_eq!((p.selected, p.scroll_offset), (2, 3));
    p.wheel_up();
    assert_eq!((p.selected, p.scroll_offset), (0, 0));
}

#[test]
fn help_wheel_scrolls_by_three_rows() {
    let s = help_sections();
    assert_eq!(help_row_count(&s, ""), 6);
    assert_eq!(help_row_count(&s, "stage"), 3);
    assert_eq!(help_row_count(&s, "nothing"), 0);
    let mut p = HelpPopup::new(s);
    p.wheel_down("");
    assert_eq!(p.scroll_offset, 3);
    p.wheel_down("");
    assert_eq!(p.scroll_offset, 5);
    p.wheel_up();
    assert_eq!(p.scroll_offset, 2);
    p.wheel_up();
    assert_eq!(p.scroll_offset, 0);
}
