use zeron::menus::{app_menus, edit_keys, menu_keys, EditAction, MenuAction, MenuItem};
use zeron::text_input::{
    next_boundary, offset_from_utf16, offset_to_utf16, previous_boundary, Span, TextInput,
};

fn span(start: usize, end: usize) -> Span {
    Span { start, end }
}

fn typed(text: &str) -> TextInput {
    let mut input = TextInput::new("Name".into());
    input.replace_text_in_range(None, text);
    input
}

#[test]
fn text_boundaries_and_utf16_offsets_preserve_unicode_input() {
    let content = "a🌸b";

    assert_eq!(next_boundary(content, 1), 5);
    assert_eq!(previous_boundary(content, 5), 1);
    assert_eq!(offset_to_utf16(content, 5), 3);
    assert_eq!(offset_from_utf16(content, 3), 5);
}

#[test]
fn boundaries_stop_at_the_ends() {
    assert_eq!(previous_boundary("é", 0), 0);
    assert_eq!(previous_boundary("", 3), 0);
    assert_eq!(next_boundary("é", 0), 2);
    assert_eq!(next_boundary("é", 2), 2);
    assert_eq!(offset_from_utf16("é", 9), 2);
    // Inside a character counts as behind it.
    assert_eq!(offset_from_utf16("🌸", 1), 4);
    assert_eq!(offset_to_utf16("🌸", 1), 2);
}

#[test]
fn what_is_typed_goes_where_the_caret_is() {
    let mut input = typed("a🌸b");
    assert_eq!(input.text(), "a🌸b");
    assert_eq!(input.selected, span(6, 6));
    input.left();
    input.left();
    assert_eq!(input.selected, span(1, 1));
    input.replace_text_in_range(None, "x");
    assert_eq!(input.text(), "ax🌸b");
    input.right();
    assert_eq!(input.selected, span(6, 6));
    input.home();
    assert_eq!(input.selected, span(0, 0));
    input.end();
    assert_eq!(input.selected, span(7, 7));
}

#[test]
fn deleting_takes_whole_characters() {
    let mut input = typed("a🌸");
    assert!(!input.backspace());
    assert_eq!(input.text(), "a");
    assert!(!input.backspace());
    assert!(input.backspace());
    let mut input = typed("🌸b");
    assert!(input.delete());
    input.home();
    assert!(!input.delete());
    assert_eq!(input.text(), "b");
    input.select_all();
    assert!(!input.delete());
    assert_eq!(input.text(), "");
    assert_eq!(input.shown(), "Name");
}

#[test]
fn the_clipboard_takes_and_gives_the_selection() {
    let mut input = typed("abc");
    assert_eq!(input.copy(), None);
    input.select_all();
    assert_eq!(input.copy().as_deref(), Some("abc"));
    assert_eq!(input.cut().as_deref(), Some("abc"));
    assert_eq!(input.text(), "");
    assert_eq!(input.cut(), None);
    input.paste(Some("two\nlines"));
    assert_eq!(input.text(), "two lines");
    input.paste(None);
    assert_eq!(input.text(), "two lines");
    input.clear();
    assert_eq!(input.text(), "");
}

#[test]
fn the_input_method_marks_what_it_composes() {
    let mut input = typed("ab");
    input.move_to(1);
    input.replace_and_mark_text_in_range(None, "か", Some(span(1, 1)));
    assert_eq!(input.text(), "aかb");
    assert_eq!(input.marked, Some(span(1, 4)));
    assert_eq!(input.selected, span(4, 4));
    assert_eq!(input.marked_text_range(), Some(span(1, 2)));
    assert_eq!(input.selected_text_range(), span(2, 2));
    let runs: Vec<(usize, bool)> = input
        .runs()
        .iter()
        .map(|run| (run.len, run.underlined))
        .collect();
    assert_eq!(runs, [(1, false), (3, true), (1, false)]);
    // The next composition takes the place of the marked text.
    input.replace_and_mark_text_in_range(None, "漢字", None);
    assert_eq!(input.text(), "a漢字b");
    assert_eq!(input.selected, span(7, 7));
    input.replace_text_in_range(None, "漢");
    assert_eq!(input.text(), "a漢b");
    assert_eq!(input.marked, None);
    input.replace_and_mark_text_in_range(Some(span(0, 1)), "", None);
    assert_eq!(input.text(), "漢b");
    assert_eq!(input.marked, None);
    input.replace_and_mark_text_in_range(None, "x", None);
    input.unmark_text();
    assert_eq!(input.marked_text_range(), None);
}

#[test]
fn the_platform_reads_the_text_in_its_own_units() {
    let input = typed("a🌸b");
    assert_eq!(
        input.text_for_range(span(1, 3)),
        (Some("🌸".to_string()), span(1, 3))
    );
    // A place inside a character moves behind it.
    assert_eq!(
        input.text_for_range(span(0, 2)),
        (Some("a🌸".to_string()), span(0, 3))
    );
    assert_eq!(input.text_for_range(span(3, 1)).0, None);
}

#[test]
fn an_edit_between_no_characters_is_left_alone() {
    let mut input = typed("🌸");
    input.move_to(2);
    input.replace_text_in_range(None, "x");
    assert_eq!(input.text(), "🌸");
    assert_eq!(input.selected, span(2, 2));
}

#[test]
fn menus_differ_by_platform() {
    let mac = app_menus(true);
    let titles: Vec<&str> = mac.iter().map(|menu| menu.title).collect();
    assert_eq!(titles, ["Keiki", "Edit", "View", "Window"]);
    assert_eq!(mac[0].items.len(), 9);
    let other = app_menus(false);
    assert_eq!(other.len(), 3);
    assert_eq!(other[0].items.len(), 3);
    assert!(matches!(
        other[0].items[2],
        MenuItem::Action {
            label: "Quit Keiki",
            action: MenuAction::Quit
        }
    ));
    assert_eq!(menu_keys(true).len(), 5);
    assert!(menu_keys(false).is_empty());
    assert_eq!(edit_keys(true)[6].keys, "cmd-a");
    assert_eq!(edit_keys(false)[6].keys, "ctrl-a");
    assert_eq!(edit_keys(false)[9].action, EditAction::Copy);
}
