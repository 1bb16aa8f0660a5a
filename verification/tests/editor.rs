//! The plain editor and its indents.

use ducktape::editor::indent::indent;
use ducktape::editor::indent::outdent;
use ducktape::editor::text::cursor_at;
use ducktape::editor::text::edit_kind;
use ducktape::editor::text::key_down;
use ducktape::editor::text::selected_range;
use ducktape::editor::text::EditorCursor;
use ducktape::editor::text::EditorEditKind;
use ducktape::editor::text::KeyDown;
use ducktape::editor::text::Keystroke;
use ducktape::editor::text::Projection;
use ducktape::editor::text::TextEditor;
use ducktape::editor::text::MAX_ROWS;
use ducktape::render::commands::WidgetCommand;

fn at(position: usize) -> EditorCursor {
    EditorCursor { position, selection: None }
}

fn projection(text: &str, reset: u64) -> Projection {
    Projection {
        reset,
        pending: false,
        text: Some(text.to_owned()),
        cursor: at(0),
        editable: true,
        faulty: false,
        placeholder: "Start writing".to_owned(),
        options: 0,
    }
}

fn holding(text: &str) -> TextEditor {
    let mut editor = TextEditor::new(vec![1], 7);
    editor.sync(Some(projection(text, 0)));
    editor
}

#[test]
fn tab_indents_a_caret_a_block_and_gives_it_back() {
    let typed = indent("ab", 1..1, false).expect("an indent at the caret");
    assert_eq!(typed, ("a  b".to_owned(), 3..3));

    // Two lines selected from the middle of the first to the middle of the
    // second: both move, and both ends of the selection move with them.
    let block = indent("one\ntwo\nthree", 1..5, false).expect("a block indent");
    assert_eq!(block, ("  one\n  two\nthree".to_owned(), 3..9));

    // A selection carried to the head of the next line leaves that line where
    // it is: the writer stopped before it.
    let up_to = indent("one\ntwo", 0..4, false).expect("a block indent");
    assert_eq!(up_to.0, "  one\ntwo");

    let back = indent("  one\n  two", 3..9, true).expect("an outdent");
    assert_eq!(back, ("one\ntwo".to_owned(), 1..5));

    // A caret inside the indentation being taken back lands at the line's
    // head rather than running off it.
    let inside = indent("  one", 1..1, true).expect("an outdent");
    assert_eq!(inside, ("one".to_owned(), 0..0));

    assert_eq!(indent("one\ntwo", 0..7, true), None);
    assert_eq!(indent("\tone", 0..0, true), Some(("one".to_owned(), 0..0)));
}

#[test]
fn a_selection_run_backwards_indents_as_it_stands() {
    let block = indent("one\ntwo", 5..1, false).expect("a block indent");
    assert_eq!(block, ("  one\n  two".to_owned(), 9..3));
    assert_eq!(indent("", 0..0, false), Some(("  ".to_owned(), 2..2)));
    assert_eq!(indent("", 0..0, true), None);
    // a last line that is empty is no line to move
    let trailing = indent("one\n", 0..4, false).expect("a block indent");
    assert_eq!(trailing, ("  one\n".to_owned(), 2..6));
}

#[test]
fn one_press_takes_back_a_tab_or_two_spaces() {
    assert_eq!(outdent("\t\tx"), 1);
    assert_eq!(outdent("   x"), 2);
    assert_eq!(outdent(" x"), 1);
    assert_eq!(outdent(" \tx"), 1);
    assert_eq!(outdent("x"), 0);
    assert_eq!(outdent(""), 0);
}

#[test]
fn an_outdent_gives_a_block_indent_back() {
    let text = "one\ntwo\n\nthree";
    let (there, moved) = indent(text, 1..9, false).expect("a block indent");
    let (back, stood) = indent(&there, moved, true).expect("an outdent");
    assert_eq!((back.as_str(), stood), (text, 1..9));
}

#[test]
fn a_cursor_put_in_the_field_reads_back() {
    for cursor in [
        at(3),
        EditorCursor { position: 2, selection: Some(5) },
        EditorCursor { position: 5, selection: Some(2) },
    ] {
        let (anchor, caret) = selected_range(cursor);
        let back = cursor_at(caret, anchor.min(caret), anchor.max(caret));
        assert_eq!(back, cursor);
    }
}

#[test]
fn an_edit_is_told_by_its_length() {
    assert_eq!(edit_kind("a", "a"), EditorEditKind::Cursor);
    assert_eq!(edit_kind("ab", "a"), EditorEditKind::Backspace);
    assert_eq!(edit_kind("ab", "ba"), EditorEditKind::Insert);
    assert_eq!(edit_kind("ab", "\u{e9}"), EditorEditKind::Insert);
}

#[test]
fn an_empty_field_wears_the_guests_placeholder_and_takes_what_is_typed() {
    let mut editor = TextEditor::new(vec![1], 7);
    assert!(editor.is_focused(Some(7)));
    assert!(!editor.is_focused(Some(8)));
    assert!(!editor.is_focused(None));
    let done = editor.sync(Some(projection("", 0))).expect("a document");
    assert!(done.install && done.editable);
    assert_eq!(done.placeholder, "Start writing");
    let renamed = Projection { placeholder: "\u{c0c8} \u{bb38}\u{c11c}".to_owned(), ..projection("", 0) };
    let done = editor.sync(Some(renamed)).expect("a document");
    assert!(!done.install);
    assert_eq!(done.placeholder, "\u{c0c8} \u{bb38}\u{c11c}");
    let told = editor
        .observed(true, false, "Written text".to_owned(), 12, (12, 12))
        .expect("an edit");
    assert_eq!((told.before.as_str(), told.after.as_str()), ("", "Written text"));
    assert_eq!(told.kind, EditorEditKind::Insert);
    assert_eq!(editor.preview, "Written text");
}

#[test]
fn shift_and_an_arrow_select_across_the_lines_of_one_document() {
    let mut editor = holding("one\ntwo\nthree");
    editor.move_cursor(at(13));
    // two shift-ups took the field's caret to the first line
    let text = "one\ntwo\nthree".to_owned();
    let told = editor.observed(true, false, text, 3, (3, 13)).expect("a move");
    assert_eq!(told.kind, EditorEditKind::Cursor);
    let anchor = editor.cursor.selection.expect("the selection reaches the guest");
    assert!(
        editor.preview[editor.cursor.position..anchor].contains('\n'),
        "the guest is told the selection crosses lines"
    );
}

#[test]
fn backspace_at_the_head_of_a_line_joins_it_to_the_one_above() {
    let mut editor = holding("one\ntwo");
    editor.move_cursor(at(4));
    let told = editor
        .observed(true, false, "onetwo".to_owned(), 3, (3, 3))
        .expect("an edit");
    assert_eq!(told.kind, EditorEditKind::Backspace);
    assert_eq!(told.after, "onetwo", "the joined document reaches the guest");
    assert_eq!(editor.preview, "onetwo");
}

#[test]
fn a_readonly_field_reports_no_edit() {
    let mut editor = TextEditor::new(vec![1], 7);
    let text = "Read only \u{d55c}\u{ae00}";
    let readonly = Projection { editable: false, ..projection(text, 0) };
    let done = editor.sync(Some(readonly)).expect("a document");
    assert!(done.install && !done.editable);
    // nothing typed into it lands, so it shows what it was given
    assert!(editor.observed(true, false, text.to_owned(), 0, (0, 0)).is_none());
    assert_eq!(editor.preview, text);
}

#[test]
fn typing_is_not_taken_back() {
    let mut editor = holding("one");
    editor.observed(true, false, "one!".to_owned(), 4, (4, 4));
    // the guest's copy is behind what was typed
    let behind = Projection { pending: true, ..projection("one", 0) };
    let done = editor.sync(Some(behind)).expect("a document");
    assert!(!done.install);
    assert_eq!(editor.preview, "one!");
    // it settles on something else, or is reset
    let settled = editor.sync(Some(projection("two", 0))).expect("a document");
    assert!(settled.install);
    assert_eq!(editor.preview, "two");
    let reset = Projection { pending: true, ..projection("three", 1) };
    assert!(editor.sync(Some(reset)).expect("a document").install);
    assert_eq!(editor.preview, "three");
}

#[test]
fn the_same_document_changes_nothing() {
    let mut editor = holding("one");
    assert!(editor.sync(Some(projection("one", 0))).is_none());
    assert!(editor.sync(None).is_none());
    let faulty = Projection { faulty: true, ..projection("one", 0) };
    let done = editor.sync(Some(faulty)).expect("a document");
    assert!(!done.install && !done.editable);
}

#[test]
fn a_composing_or_idle_field_says_nothing() {
    let mut editor = holding("one");
    assert!(editor.observed(false, false, "x".to_owned(), 1, (1, 1)).is_none());
    assert!(editor.observed(true, true, "x".to_owned(), 1, (1, 1)).is_none());
    assert!(editor.observed(true, false, "one".to_owned(), 0, (0, 0)).is_none());
    assert_eq!(editor.preview, "one");
    assert_eq!(editor.input_method(true, vec![4, 5]), Some(vec![4, 5]));
    assert_eq!(editor.input_method(true, vec![]), None);
    assert_eq!(editor.input_method(false, vec![4]), None);
    let told = editor.observed(true, false, "one".to_owned(), 0, (0, 3)).expect("a move");
    assert_eq!(told.kind, EditorEditKind::Cursor);
    assert_eq!(told.to, EditorCursor { position: 0, selection: Some(3) });
}

#[test]
fn commands_place_the_caret_by_grapheme() {
    // an e with its accent and a family are one grapheme each
    let text = "e\u{301}\u{1f468}\u{200d}\u{1f469}b";
    let mut editor = holding(text);
    assert_eq!(editor.place_at(0), 0);
    assert_eq!(editor.place_at(1), 3);
    assert_eq!(editor.place_at(2), 14);
    assert_eq!(editor.place_at(3), text.len());
    assert_eq!(editor.place_at(9), text.len());
    let select = WidgetCommand::Select { target: vec![], start: 2, end: 1 };
    let placed = editor.widget_command(&select).expect("an editor's");
    assert!(placed.told.is_some());
    assert_eq!(editor.cursor, EditorCursor { position: 3, selection: Some(14) });
    let empty = WidgetCommand::Select { target: vec![], start: 1, end: 1 };
    editor.widget_command(&empty);
    assert_eq!(editor.cursor, at(3));
    let place = WidgetCommand::Cursor { target: vec![], position: 2 };
    editor.widget_command(&place);
    assert_eq!(editor.cursor, at(14));
    editor.widget_command(&WidgetCommand::SelectAll { target: vec![] });
    assert_eq!(editor.cursor, EditorCursor { position: text.len(), selection: Some(0) });
    editor.widget_command(&WidgetCommand::CursorFront { target: vec![] });
    assert_eq!(editor.cursor, at(0));
    let end = editor.widget_command(&WidgetCommand::CursorEnd { target: vec![] });
    let told = end.expect("an editor's").told.expect("a move");
    assert_eq!((told.from, told.to), (at(0), at(text.len())));
    assert_eq!(told.kind, EditorEditKind::Cursor);
    let focus = editor.widget_command(&WidgetCommand::Focus { target: vec![] });
    assert!(focus.expect("an editor's").told.is_none());
    assert!(editor.widget_command(&WidgetCommand::FocusNext).is_none());
}

#[test]
fn a_press_under_the_words_goes_to_their_end() {
    let mut editor = holding("one");
    assert!(editor.pressed(true).is_none());
    let placed = editor.pressed(false).expect("a press");
    assert_eq!(placed.told.expect("a move").to, at(3));
    assert!(editor.pressed(false).expect("a press").told.is_none());
}

#[test]
fn a_field_takes_only_what_it_does_not_show() {
    let mut editor = holding("one");
    let plan = editor.install("two", (0, 0), 0);
    assert!(plan.set_value);
    assert_eq!(plan.select, None);
    editor.move_cursor(EditorCursor { position: 1, selection: Some(3) });
    let plan = editor.install("one", (1, 3), 1);
    assert!(!plan.set_value);
    assert_eq!(plan.select, None);
    assert_eq!(editor.install("one", (1, 3), 3).select, Some((3, 1)));
    assert_eq!(editor.install("one", (0, 3), 1).select, Some((3, 1)));
}

#[test]
fn a_capped_field_grows_to_its_rows() {
    let mut editor = TextEditor::new(vec![1], 7);
    assert_eq!(editor.set_fills(true, None), None);
    assert_eq!(editor.set_fills(false, Some(5)), Some(5));
    assert_eq!(editor.set_fills(true, Some(5)), Some(MAX_ROWS));
    assert_eq!(editor.set_fills(false, None), Some(MAX_ROWS));
    assert!(editor.set_accessible(3));
    assert!(!editor.set_accessible(3));
}

#[test]
fn the_guest_hears_the_chords_it_claimed_and_no_others() {
    let key = |tab, shift| Keystroke {
        tab,
        control: false,
        alt: false,
        platform: false,
        function: false,
        shift,
    };
    let down = |focused, claimed, key, writable| {
        key_down(focused, false, claimed, key, "one", 0..0, writable)
    };
    assert!(matches!(down(true, true, key(false, false), true), KeyDown::Guest));
    assert!(matches!(down(false, true, key(false, false), true), KeyDown::Field));
    assert!(matches!(down(true, false, key(false, false), true), KeyDown::Field));
    assert!(matches!(down(true, false, key(true, false), false), KeyDown::Field));
    assert!(matches!(down(true, false, key(true, true), true), KeyDown::Field));
    assert!(matches!(
        down(true, false, key(true, false), true),
        KeyDown::Indent { text, start: 2, end: 2 } if text == "  one"
    ));
    let control = Keystroke { control: true, ..key(true, false) };
    assert!(matches!(down(true, false, control, true), KeyDown::Field));
    let composing = key_down(true, true, true, key(true, false), "one", 0..0, true);
    assert!(matches!(composing, KeyDown::Field));
}
