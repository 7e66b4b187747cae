use rust_tui::app::App;
use rust_tui::input::{Action, InputFocus, Key};
use rust_tui::task::{Progress, Task};

fn cv(s: &str) -> Vec<char> {
    s.chars().collect()
}

fn task(name: &str, description: &str, progress: Progress, created: &str) -> Task {
    Task { name: cv(name), description: cv(description), progress, created: cv(created) }
}

fn press(app: &mut App, c: char) -> Action {
    app.handle_key(Key::Char(c))
}

fn type_text(app: &mut App, s: &str) {
    for c in s.chars() {
        app.handle_key(Key::Char(c));
    }
}

#[test]
fn navigation_wraps_forward_and_backward() {
    let mut app = App::new(vec![
        task("a", "", Progress::Waiting, "t1"),
        task("b", "", Progress::Waiting, "t2"),
        task("c", "", Progress::Waiting, "t3"),
    ]);
    assert_eq!(app.selected, 0);
    app.next();
    assert_eq!(app.selected, 1);
    app.next();
    assert_eq!(app.selected, 2);
    app.next();
    assert_eq!(app.selected, 0); // wraps at the end
    app.previous();
    assert_eq!(app.selected, 2); // wraps at the start
    app.previous();
    assert_eq!(app.selected, 1);
}

#[test]
fn navigation_stays_in_bounds_for_many_steps() {
    let mut app = App::new(vec![
        task("a", "", Progress::Done, "t1"),
        task("b", "", Progress::Waiting, "t2"),
        task("c", "", Progress::Waiting, "t3"),
    ]);
    app.hide_completed = true; // view has 2 rows
    for i in 0..20 {
        if i % 3 == 0 {
            app.previous();
        } else {
            app.next();
        }
        assert!(app.selected < 2);
    }
}

#[test]
fn navigation_on_empty_view_selects_zero() {
    let mut app = App::new(Vec::new());
    app.next();
    assert_eq!(app.selected, 0);
    app.previous();
    assert_eq!(app.selected, 0);
}

#[test]
fn filter_excludes_exactly_done_tasks() {
    let app = App::new(vec![
        task("a", "", Progress::Done, "t1"),
        task("b", "", Progress::Waiting, "t2"),
        task("c", "", Progress::InProgress, "t3"),
        task("d", "", Progress::Done, "t4"),
    ]);
    let all = app.get_filtered_items();
    assert_eq!(all.len(), 4);
    let mut app = app;
    app.hide_completed = true;
    let visible = app.get_filtered_items();
    assert_eq!(visible.len(), 2);
    assert_eq!(visible[0].name, cv("b"));
    assert_eq!(visible[1].name, cv("c"));
    assert!(visible.iter().all(|t| t.progress != Progress::Done));
}

#[test]
fn toggle_hide_twice_restores_the_flag() {
    let mut app = App::new(vec![task("a", "", Progress::Done, "t1")]);
    assert!(!app.hide_completed);
    press(&mut app, 't');
    assert!(app.hide_completed);
    press(&mut app, 't');
    assert!(!app.hide_completed);
    assert_eq!(app.get_filtered_items().len(), 1);
}

#[test]
fn progress_cycles_in_three_steps() {
    for start in [Progress::InProgress, Progress::Waiting, Progress::Done] {
        let once = start.cycled();
        let twice = once.cycled();
        let thrice = twice.cycled();
        assert_ne!(once, start);
        assert_ne!(twice, start);
        assert_ne!(twice, once);
        assert_eq!(thrice, start);
    }
    assert_eq!(Progress::InProgress.cycled(), Progress::Waiting);
    assert_eq!(Progress::Waiting.cycled(), Progress::Done);
    assert_eq!(Progress::Done.cycled(), Progress::InProgress);
}

#[test]
fn progress_default_is_waiting() {
    assert_eq!(Progress::default(), Progress::Waiting);
}

#[test]
fn blank_name_submit_never_mutates_store_and_keeps_form_open() {
    let mut app = App::new(vec![task("keep", "", Progress::Waiting, "t0")]);
    press(&mut app, 'a'); // open the create form
    assert!(app.show_create);
    type_text(&mut app, "   "); // whitespace-only name
    app.handle_key(Key::Tab);
    type_text(&mut app, "some description");
    let action = app.handle_key(Key::Enter); // submit from the description
    assert_eq!(action, Action::Nothing);
    assert!(app.show_create); // form stays open
    assert_eq!(app.items.len(), 1);
    assert_eq!(app.items[0].name, cv("keep"));
}

#[test]
fn unicode_whitespace_only_name_is_refused_too() {
    // one no-break space trims to empty under str::trim
    let mut app = App::new(Vec::new());
    press(&mut app, 'a');
    app.handle_key(Key::Char('\u{00a0}'));
    app.handle_key(Key::Char('\u{2003}')); // em space
    app.handle_key(Key::Tab);
    type_text(&mut app, "described");
    let action = app.handle_key(Key::Enter);
    assert_eq!(action, Action::Nothing);
    assert!(app.show_create); // form stays open
    assert!(app.items.is_empty()); // store untouched
}

#[test]
fn create_flow_appends_in_progress_task() {
    // empty store -> create key -> "Task1" -> Tab -> "desc" -> Enter
    let mut app = App::new(Vec::new());
    let action = press(&mut app, 'a');
    assert_eq!(action, Action::Nothing);
    assert!(app.show_create);
    assert_eq!(app.editing_index, None);
    type_text(&mut app, "Task1");
    app.handle_key(Key::Tab);
    type_text(&mut app, "desc");
    let action = app.handle_key(Key::Enter);
    // the very first save into an empty store is the fatal-on-failure one
    assert_eq!(action, Action::Save { fatal: true });
    assert_eq!(app.items.len(), 1);
    assert_eq!(app.items[0].name, cv("Task1"));
    assert_eq!(app.items[0].description, cv("desc"));
    assert_eq!(app.items[0].progress, Progress::InProgress);
    assert!(!app.items[0].created.is_empty());
    assert!(!app.show_create); // form closed, back in browse mode
    assert!(!app.show_info);
    assert!(app.input_name.is_empty());
    assert!(app.input_description.is_empty());
}

#[test]
fn created_timestamp_spends_only_clock_characters() {
    let mut app = App::new(Vec::new());
    app.input_name = cv("x");
    let t = app.create_item();
    assert!(t.created.len() >= 19); // at least the YYYY-MM-DD HH:MM:SS shape
    for c in t.created {
        assert!(c.is_ascii_digit() || c == '-' || c == ' ' || c == ':' || c == '+');
    }
}

#[test]
fn delete_then_create_leaves_no_edit_target() {
    // store=[X] -> delete -> store=[] -> next create has no edit target
    let mut app = App::new(vec![task("X", "only", Progress::Waiting, "t1")]);
    let action = press(&mut app, 'x');
    assert_eq!(action, Action::Save { fatal: false });
    assert!(app.items.is_empty());
    assert!(app.get_filtered_items().is_empty());
    let _ = press(&mut app, 'a');
    assert_eq!(app.editing_index, None);
    assert!(app.show_create);
}

#[test]
fn toggle_hide_clamps_selection_to_first_row() {
    // store = [A(Done), B(Waiting)], selection on A -> hide -> view=[B], selection 0
    let mut app = App::new(vec![
        task("A", "", Progress::Done, "t1"),
        task("B", "", Progress::Waiting, "t2"),
    ]);
    assert_eq!(app.selected, 0);
    press(&mut app, 't');
    let view = app.get_filtered_items();
    assert_eq!(view.len(), 1);
    assert_eq!(view[0].name, cv("B"));
    assert_eq!(app.selected, 0);
}

#[test]
fn delete_removes_first_structural_match() {
    let mut app = App::new(vec![
        task("dup", "same", Progress::Waiting, "t1"),
        task("dup", "same", Progress::Waiting, "t1"),
        task("other", "", Progress::Waiting, "t2"),
    ]);
    app.selected = 1; // second row, structurally equal to the first
    press(&mut app, 'x');
    assert_eq!(app.items.len(), 2);
    // the first match left; the second copy and the other task stay
    assert_eq!(app.items[0].name, cv("dup"));
    assert_eq!(app.items[1].name, cv("other"));
    assert_eq!(app.selected, 0);
}

#[test]
fn edit_preserves_progress_and_replaces_fields() {
    let mut app = App::new(vec![task("old", "olddesc", Progress::Done, "t1")]);
    press(&mut app, 'r'); // edit the selected task
    assert!(app.show_create);
    assert_eq!(app.editing_index, Some(0));
    assert_eq!(app.input_name, cv("old")); // prefilled
    assert_eq!(app.input_description, cv("olddesc"));
    for _ in 0.."old".len() {
        app.handle_key(Key::Backspace);
    }
    type_text(&mut app, "new");
    app.handle_key(Key::Tab);
    for _ in 0.."olddesc".len() {
        app.handle_key(Key::Backspace);
    }
    type_text(&mut app, "newdesc");
    let action = app.handle_key(Key::Enter);
    assert_eq!(action, Action::Save { fatal: false });
    assert_eq!(app.items.len(), 1);
    assert_eq!(app.items[0].name, cv("new"));
    assert_eq!(app.items[0].description, cv("newdesc"));
    assert_eq!(app.items[0].progress, Progress::Done); // preserved on edit
    assert_eq!(app.editing_index, None);
    assert!(!app.show_create);
}

#[test]
fn escape_discards_the_form_and_its_buffers() {
    let mut app = App::new(vec![task("a", "b", Progress::Waiting, "t1")]);
    press(&mut app, 'r');
    assert!(app.show_create);
    assert_eq!(app.editing_index, Some(0));
    app.handle_key(Key::Esc);
    assert!(!app.show_create);
    assert_eq!(app.editing_index, None);
    assert!(app.input_name.is_empty());
    assert!(app.input_description.is_empty());
    // the next open must not see the old buffers
    press(&mut app, 'a');
    assert!(app.input_name.is_empty());
    assert!(app.input_description.is_empty());
}

#[test]
fn name_cap_is_fifty_characters() {
    let mut app = App::new(Vec::new());
    press(&mut app, 'a');
    for _ in 0..60 {
        app.handle_key(Key::Char('x'));
    }
    assert_eq!(app.input_name.len(), 50); // silently ignored at the cap
    app.handle_key(Key::Backspace);
    assert_eq!(app.input_name.len(), 49);
}

#[test]
fn description_cap_is_two_hundred_fifty_five_characters() {
    let mut app = App::new(Vec::new());
    press(&mut app, 'a');
    app.handle_key(Key::Tab);
    for _ in 0..300 {
        app.handle_key(Key::Char('y'));
    }
    assert_eq!(app.input_description.len(), 255);
}

#[test]
fn navigation_wraps_over_the_filtered_view_not_the_store() {
    let mut app = App::new(vec![
        task("a", "", Progress::Waiting, "t1"),
        task("b", "", Progress::Done, "t2"),
        task("c", "", Progress::Waiting, "t3"),
    ]);
    press(&mut app, 't'); // hide completed: the view has 2 rows of a 3-task store
    assert_eq!(app.selected, 0);
    app.next();
    assert_eq!(app.selected, 1);
    app.next();
    assert_eq!(app.selected, 0); // wraps at the view's length, not the store's
    app.previous();
    assert_eq!(app.selected, 1);
}

#[test]
fn backspace_on_empty_buffer_is_a_no_op() {
    let mut app = App::new(Vec::new());
    press(&mut app, 'a');
    app.handle_key(Key::Backspace);
    assert!(app.input_name.is_empty());
    assert!(app.show_create);
}

#[test]
fn enter_on_name_advances_focus_without_submitting() {
    let mut app = App::new(Vec::new());
    press(&mut app, 'a');
    type_text(&mut app, "T");
    assert_eq!(app.input_focus, InputFocus::Name);
    app.handle_key(Key::Enter);
    assert_eq!(app.input_focus, InputFocus::Description);
    assert!(app.items.is_empty()); // not submitted yet
    assert!(app.show_create);
}

#[test]
fn tab_swaps_focus_both_ways() {
    let mut app = App::new(Vec::new());
    press(&mut app, 'a');
    assert_eq!(app.input_focus, InputFocus::Name);
    app.handle_key(Key::Tab);
    assert_eq!(app.input_focus, InputFocus::Description);
    app.handle_key(Key::Tab);
    assert_eq!(app.input_focus, InputFocus::Name);
}

#[test]
fn quit_keys_answer_quit_in_browse_only() {
    let mut app = App::new(Vec::new());
    assert_eq!(press(&mut app, 'q'), Action::Quit);
    assert_eq!(app.handle_key(Key::Esc), Action::Quit);
    press(&mut app, 'a');
    assert_ne!(press(&mut app, 'q'), Action::Quit); // 'q' types into the form
    assert_eq!(app.input_name, cv("q"));
}

#[test]
fn info_overlay_opens_and_closes() {
    let mut app = App::new(Vec::new());
    press(&mut app, 'i');
    assert!(app.show_info);
    press(&mut app, 'i');
    assert!(!app.show_info);
    press(&mut app, 'i');
    app.handle_key(Key::Esc);
    assert!(!app.show_info);
}

#[test]
fn info_cursor_wraps_over_the_checkboxes() {
    let mut app = App::new(Vec::new());
    press(&mut app, 'i');
    assert_eq!(app.selected_checkbox, 0);
    app.handle_key(Key::Up); // wraps backward
    assert_eq!(app.selected_checkbox, 2);
    app.handle_key(Key::Down); // wraps forward
    assert_eq!(app.selected_checkbox, 0);
    app.handle_key(Key::Right);
    assert_eq!(app.selected_checkbox, 1);
    app.handle_key(Key::Left);
    assert_eq!(app.selected_checkbox, 0);
    app.handle_key(Key::Left); // wraps backward too
    assert_eq!(app.selected_checkbox, 2);
}

#[test]
fn info_enter_toggles_hide_completed_and_clamps_selection() {
    let mut app = App::new(vec![
        task("A", "", Progress::Done, "t1"),
        task("B", "", Progress::Waiting, "t2"),
    ]);
    app.selected = 1;
    press(&mut app, 'i');
    app.handle_key(Key::Enter); // toggle "Hide Completed" (cursor starts on it)
    assert!(app.checkboxes[0].checked);
    assert!(app.hide_completed);
    assert_eq!(app.get_filtered_items().len(), 1);
    assert_eq!(app.selected, 0); // clamped: old row 1 no longer exists
    app.handle_key(Key::Enter); // toggle it back
    assert!(!app.hide_completed);
}

#[test]
fn lock_color_suppresses_colour_cycling() {
    let mut app = App::new(Vec::new());
    assert_eq!(app.color_index, 0);
    press(&mut app, 'l');
    assert_eq!(app.color_index, 1);
    press(&mut app, 'h');
    assert_eq!(app.color_index, 0);
    press(&mut app, 'h'); // wraps backward over the four palettes
    assert_eq!(app.color_index, 3);
    press(&mut app, 'i');
    app.handle_key(Key::Down); // cursor onto "Lock Color"
    app.handle_key(Key::Enter); // check it
    app.handle_key(Key::Esc);
    press(&mut app, 'l');
    assert_eq!(app.color_index, 3); // unchanged while locked
    press(&mut app, 'h');
    assert_eq!(app.color_index, 3);
}

#[test]
fn progress_key_cycles_the_selected_task_and_saves() {
    let mut app = App::new(vec![task("a", "", Progress::InProgress, "t1")]);
    let action = press(&mut app, 'n');
    assert_eq!(action, Action::Save { fatal: false });
    assert_eq!(app.items[0].progress, Progress::Waiting);
    press(&mut app, 'n');
    assert_eq!(app.items[0].progress, Progress::Done);
    press(&mut app, 'n');
    assert_eq!(app.items[0].progress, Progress::InProgress);
}

#[test]
fn item_matches_compares_all_four_fields() {
    let a = task("n", "d", Progress::Waiting, "t");
    assert!(Task::item_matches(&a, &task("n", "d", Progress::Waiting, "t")));
    assert!(!Task::item_matches(&a, &task("m", "d", Progress::Waiting, "t")));
    assert!(!Task::item_matches(&a, &task("n", "e", Progress::Waiting, "t")));
    assert!(!Task::item_matches(&a, &task("n", "d", Progress::Done, "t")));
    assert!(!Task::item_matches(&a, &task("n", "d", Progress::Waiting, "u")));
}
