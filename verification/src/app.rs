//! The application state machine.
//!
//! One struct holds the store, the filter flag, the selection, the editing
//! form and the info overlay; `handle_key` is the single step function that
//! routes a key-press by the current mode and answers with what the caller
//! must do next (nothing, save the store, or quit). Every transition is
//! stated as a spec-level function of the state, so that the executable
//! methods can be held to them exactly.
use vstd::prelude::*;
use crate::clock::{clock_chars, now_string};
use crate::input::{Action, Checkbox, CheckboxV, InputFocus, Key};
use crate::task::{eq_chars, Progress, Task, TaskV, task_eq};
use crate::view::{clamp_index, filtered_view, filter_tasks, next_index, prev_index};

verus! {

/// A character `str::trim` strips from the ends of a name: the Unicode
/// `White_Space` set, the one `char::is_whitespace` tests.
pub open spec fn is_space_char(c: char) -> bool {
    ||| c == '\u{0009}'
    ||| '\u{000a}' <= c <= '\u{000d}'
    ||| c == ' '
    ||| c == '\u{0085}'
    ||| c == '\u{00a0}'
    ||| c == '\u{1680}'
    ||| '\u{2000}' <= c <= '\u{200a}'
    ||| c == '\u{2028}'
    ||| c == '\u{2029}'
    ||| c == '\u{202f}'
    ||| c == '\u{205f}'
    ||| c == '\u{3000}'
}

/// A name of nothing but whitespace; such a name is never accepted.
pub open spec fn blank(s: Seq<char>) -> bool {
    forall|i: int| 0 <= i < s.len() ==> is_space_char(#[trigger] s[i])
}

/// Decides whether a name is blank.
pub fn is_blank(v: &Vec<char>) -> (r: bool)
    ensures
        r == blank(v@),
{
    let mut i: usize = 0;
    while i < v.len()
        invariant
            0 <= i <= v.len(),
            forall|j: int| 0 <= j < i ==> is_space_char(#[trigger] v@[j]),
        decreases v.len() - i,
    {
        let c = v[i];
        let ws = c == '\u{0009}' || (c >= '\u{000a}' && c <= '\u{000d}') || c == ' ' || c
            == '\u{0085}' || c == '\u{00a0}' || c == '\u{1680}' || (c >= '\u{2000}' && c
            <= '\u{200a}') || c == '\u{2028}' || c == '\u{2029}' || c == '\u{202f}' || c
            == '\u{205f}' || c == '\u{3000}';
        if !ws {
            return false;
        }
        i += 1;
    }
    true
}

/// The first store index whose task equals `t` structurally, if any; the
/// view resolves its rows to the store this way, so of two identical tasks
/// the first one is always meant.
pub open spec fn first_match(items: Seq<TaskV>, t: TaskV) -> Option<int>
    decreases items.len(),
{
    if items.len() == 0 {
        None
    } else if task_eq(items[0], t) {
        Some(0int)
    } else {
        match first_match(items.drop_first(), t) {
            Some(i) => Some(i + 1),
            None => None,
        }
    }
}

/// What `first_match` returns: the index of a structurally equal task with
/// none equal before it, or nothing when no task equals `t`.
pub proof fn lemma_first_match_props(items: Seq<TaskV>, t: TaskV)
    ensures
        match first_match(items, t) {
            Some(i) => 0 <= i < items.len() && task_eq(items[i], t) && forall|j: int|
                0 <= j < i ==> !task_eq(#[trigger] items[j], t),
            None => forall|j: int| 0 <= j < items.len() ==> !task_eq(#[trigger] items[j], t),
        },
    decreases items.len(),
{
    if items.len() > 0 && !task_eq(items[0], t) {
        lemma_first_match_props(items.drop_first(), t);
        assert(forall|j: int|
            1 <= j < items.len() ==> #[trigger] items[j] == items.drop_first()[j - 1]);
    }
}

/// Finds the first store entry that equals `target` structurally.
pub fn find_first_match(items: &Vec<Task>, target: &Task) -> (r: Option<usize>)
    ensures
        match r {
            Some(i) => i < items.len() && first_match(items.deep_view(), target@) == Some(i as int),
            None => first_match(items.deep_view(), target@) is None,
        },
{
    let ghost itemsv = items.deep_view();
    let mut i: usize = 0;
    while i < items.len()
        invariant
            0 <= i <= items.len(),
            itemsv == items.deep_view(),
            itemsv.len() == items.len(),
            forall|j: int| 0 <= j < i ==> !task_eq(#[trigger] itemsv[j], target@),
        decreases items.len() - i,
    {
        if Task::item_matches(&items[i], target) {
            proof {
                lemma_first_match_props(itemsv, target@);
                assert(task_eq(itemsv[i as int], target@));
            }
            return Some(i);
        }
        i += 1;
    }
    proof {
        lemma_first_match_props(itemsv, target@);
    }
    None
}

/// The first checkbox with the given label, if any.
pub open spec fn find_label(cbs: Seq<CheckboxV>, label: Seq<char>) -> Option<int>
    decreases cbs.len(),
{
    if cbs.len() == 0 {
        None
    } else if cbs[0].label == label {
        Some(0int)
    } else {
        match find_label(cbs.drop_first(), label) {
            Some(i) => Some(i + 1),
            None => None,
        }
    }
}

/// What `find_label` returns: the index of a checkbox with the label and
/// none so labelled before it, or nothing when no checkbox has it.
pub proof fn lemma_find_label_props(cbs: Seq<CheckboxV>, label: Seq<char>)
    ensures
        match find_label(cbs, label) {
            Some(i) => 0 <= i < cbs.len() && cbs[i].label == label && forall|j: int|
                0 <= j < i ==> (#[trigger] cbs[j]).label != label,
            None => forall|j: int| 0 <= j < cbs.len() ==> (#[trigger] cbs[j]).label != label,
        },
    decreases cbs.len(),
{
    if cbs.len() > 0 && cbs[0].label != label {
        lemma_find_label_props(cbs.drop_first(), label);
        assert(forall|j: int| 1 <= j < cbs.len() ==> #[trigger] cbs[j] == cbs.drop_first()[j - 1]);
    }
}

/// Whether the "Lock Color" checkbox is checked; colour cycling is
/// suppressed while it is.
pub open spec fn lock_color_checked(s: AppV) -> bool {
    match find_label(s.checkboxes, lock_color_label()) {
        Some(i) => s.checkboxes[i].checked,
        None => false,
    }
}

/// The task the form builds on submit: the two buffers, the preserved
/// progress of the edited task (new tasks start `InProgress`), and the
/// submission time.
pub open spec fn built_task(s: AppV, now: Seq<char>) -> TaskV {
    TaskV {
        name: s.input_name,
        description: s.input_description,
        progress: match s.editing_index {
            Some(ix) => s.items[ix].progress,
            None => Progress::InProgress,
        },
        created: now,
    }
}

/// Opening the form: buffers cleared, then prefilled from the edit target
/// when one is set, focus back on the name field.
pub open spec fn open_create(s: AppV) -> AppV {
    AppV {
        show_create: true,
        input_name: match s.editing_index {
            Some(ix) => s.items[ix].name,
            None => Seq::empty(),
        },
        input_description: match s.editing_index {
            Some(ix) => s.items[ix].description,
            None => Seq::empty(),
        },
        input_focus: InputFocus::Name,
        ..s
    }
}

/// Closing the form: it is discarded, not hidden — the buffers and the edit
/// target never leak into the next open.
pub open spec fn close_create(s: AppV) -> AppV {
    AppV {
        show_create: false,
        editing_index: None,
        input_name: Seq::empty(),
        input_description: Seq::empty(),
        ..s
    }
}

/// Flipping the form open or closed.
pub open spec fn create_toggled(s: AppV) -> AppV {
    if !s.show_create {
        open_create(s)
    } else {
        close_create(s)
    }
}

/// Deleting the selected row: the first store entry structurally equal to it
/// leaves the store, the selection moves to that store position (its
/// predecessor when the last entry left) and is re-clamped to the new view,
/// and the store is saved. Without a selected row nothing changes.
pub open spec fn delete_s(s: AppV) -> (AppV, Action) {
    let fv = filtered_view(s.items, s.hide_completed);
    if s.items.len() > 0 && 0 <= s.selected < fv.len() {
        match first_match(s.items, fv[s.selected]) {
            Some(ix) => {
                let items2 = s.items.remove(ix);
                let sel1 = if ix >= items2.len() {
                    if items2.len() == 0 {
                        0int
                    } else {
                        items2.len() - 1
                    }
                } else {
                    ix
                };
                (
                    selection_clamped(AppV { items: items2, selected: sel1, ..s }),
                    Action::Save { fatal: false },
                )
            },
            None => (s, Action::Nothing),
        }
    } else {
        (s, Action::Nothing)
    }
}

/// Opening the form over the selected row: its store entry becomes the edit
/// target and prefills the buffers. Without a selected row nothing changes.
pub open spec fn edit_s(s: AppV) -> AppV {
    let fv = filtered_view(s.items, s.hide_completed);
    if 0 <= s.selected < fv.len() {
        match first_match(s.items, fv[s.selected]) {
            Some(ix) => open_create(AppV { editing_index: Some(ix), ..s }),
            None => s,
        }
    } else {
        s
    }
}

/// Cycling the progress of the selected row's store entry, re-clamping the
/// selection (the row may leave a filtered view) and saving the store.
/// Without a selected row nothing changes.
pub open spec fn next_progress_s(s: AppV) -> (AppV, Action) {
    let fv = filtered_view(s.items, s.hide_completed);
    if 0 <= s.selected < fv.len() {
        match first_match(s.items, fv[s.selected]) {
            Some(ix) => {
                let t = s.items[ix];
                let t2 = TaskV { progress: crate::task::cycle(t.progress), ..t };
                (
                    selection_clamped(AppV { items: s.items.update(ix, t2), ..s }),
                    Action::Save { fatal: false },
                )
            },
            None => (s, Action::Nothing),
        }
    } else {
        (s, Action::Nothing)
    }
}

/// Submitting the form: a blank name is refused and nothing changes — the
/// form stays open. Otherwise the built task replaces the edit target, or is
/// appended when none is set; the form closes and the store is saved, fatally
/// on failure only for the very first task saved into an empty store.
pub open spec fn save_item_s(s: AppV, now: Seq<char>) -> (AppV, Action) {
    if blank(s.input_name) {
        (s, Action::Nothing)
    } else {
        let t = built_task(s, now);
        match s.editing_index {
            Some(ix) => (
                close_create(AppV { items: s.items.update(ix, t), ..s }),
                Action::Save { fatal: false },
            ),
            None => (
                close_create(AppV { items: s.items.push(t), ..s }),
                Action::Save { fatal: s.items.len() == 0 },
            ),
        }
    }
}

/// Submitting the form as a pure append: as `save_item_s` with no edit
/// target — the built task always starts `InProgress` and is pushed.
pub open spec fn add_item_s(s: AppV, now: Seq<char>) -> (AppV, Action) {
    if blank(s.input_name) {
        (s, Action::Nothing)
    } else {
        let t = TaskV {
            name: s.input_name,
            description: s.input_description,
            progress: Progress::InProgress,
            created: now,
        };
        (
            close_create(AppV { items: s.items.push(t), ..s }),
            Action::Save { fatal: s.items.len() == 0 },
        )
    }
}

/// How many colour palettes the presentation layer cycles through.
pub const PALETTE_COUNT: usize = 4;

/// The label of the checkbox that drives the view filter.
pub open spec fn hide_completed_label() -> Seq<char> {
    seq!['H', 'i', 'd', 'e', ' ', 'C', 'o', 'm', 'p', 'l', 'e', 't', 'e', 'd']
}

/// The label of the checkbox that suppresses colour cycling.
pub open spec fn lock_color_label() -> Seq<char> {
    seq!['L', 'o', 'c', 'k', ' ', 'C', 'o', 'l', 'o', 'r']
}

/// The label of the spare checkbox of the overlay.
pub open spec fn spare_label() -> Seq<char> {
    seq!['.', '.', '.', '.']
}

/// The label of the checkbox that drives the view filter.
pub fn hide_completed_label_chars() -> (r: Vec<char>)
    ensures
        r@ == hide_completed_label(),
{
    let r = vec!['H', 'i', 'd', 'e', ' ', 'C', 'o', 'm', 'p', 'l', 'e', 't', 'e', 'd'];
    proof {
        assert(r@ =~= hide_completed_label());
    }
    r
}

/// The label of the checkbox that suppresses colour cycling.
pub fn lock_color_label_chars() -> (r: Vec<char>)
    ensures
        r@ == lock_color_label(),
{
    let r = vec!['L', 'o', 'c', 'k', ' ', 'C', 'o', 'l', 'o', 'r'];
    proof {
        assert(r@ =~= lock_color_label());
    }
    r
}

/// The whole application state.
pub struct App {
    /// The canonical ordered task list, the source of truth.
    pub items: Vec<Task>,
    /// The highlighted row of the filtered view.
    pub selected: usize,
    /// Which colour palette the presentation layer uses.
    pub color_index: usize,
    /// Whether the create/edit form is open.
    pub show_create: bool,
    /// Whether the info overlay is open.
    pub show_info: bool,
    /// The form's name field.
    pub input_name: Vec<char>,
    /// The form's description field.
    pub input_description: Vec<char>,
    /// Which form field has the focus.
    pub input_focus: InputFocus,
    /// The store index being edited, or none when the form creates.
    pub editing_index: Option<usize>,
    /// The info overlay's settings.
    pub checkboxes: Vec<Checkbox>,
    /// The overlay's cursor over the checkboxes.
    pub selected_checkbox: usize,
    /// Whether the view hides `Done` tasks.
    pub hide_completed: bool,
}

/// The mathematical value of the application state.
#[verifier::ext_equal]
pub struct AppV {
    pub items: Seq<TaskV>,
    pub selected: int,
    pub color_index: int,
    pub show_create: bool,
    pub show_info: bool,
    pub input_name: Seq<char>,
    pub input_description: Seq<char>,
    pub input_focus: InputFocus,
    pub editing_index: Option<int>,
    pub checkboxes: Seq<CheckboxV>,
    pub selected_checkbox: int,
    pub hide_completed: bool,
}

impl View for App {
    type V = AppV;

    open spec fn view(&self) -> AppV {
        AppV {
            items: self.items.deep_view(),
            selected: self.selected as int,
            color_index: self.color_index as int,
            show_create: self.show_create,
            show_info: self.show_info,
            input_name: self.input_name@,
            input_description: self.input_description@,
            input_focus: self.input_focus,
            editing_index: match self.editing_index {
                Some(i) => Some(i as int),
                None => None,
            },
            checkboxes: self.checkboxes.deep_view(),
            selected_checkbox: self.selected_checkbox as int,
            hide_completed: self.hide_completed,
        }
    }
}

/// The length of the filtered view.
pub open spec fn view_len(s: AppV) -> int {
    filtered_view(s.items, s.hide_completed).len() as int
}

/// What must hold of the state between any two steps, apart from the tie
/// between the form and its target.
pub open spec fn wf_core(s: AppV) -> bool {
    &&& 0 <= s.selected
    &&& 0 <= s.color_index < PALETTE_COUNT
    &&& s.checkboxes.len() >= 1
    &&& 0 <= s.selected_checkbox < s.checkboxes.len()
    &&& match s.editing_index {
        Some(ix) => 0 <= ix < s.items.len(),
        None => true,
    }
}

/// Well-formedness of the state: the core conditions, an edit target only
/// while the form is open, and never both overlays at once.
pub open spec fn wf(s: AppV) -> bool {
    &&& wf_core(s)
    &&& s.editing_index is Some ==> s.show_create
    &&& !(s.show_create && s.show_info)
}

/// The state a fresh session starts in: the loaded tasks, the first row
/// selected, everything closed and cleared, and the overlay's three
/// checkboxes unchecked.
pub open spec fn init_app(items: Seq<TaskV>) -> AppV {
    AppV {
        items: items,
        selected: 0,
        color_index: 0,
        show_create: false,
        show_info: false,
        input_name: Seq::empty(),
        input_description: Seq::empty(),
        input_focus: InputFocus::Name,
        editing_index: None,
        checkboxes: seq![
            CheckboxV { checked: false, label: hide_completed_label() },
            CheckboxV { checked: false, label: lock_color_label() },
            CheckboxV { checked: false, label: spare_label() },
        ],
        selected_checkbox: 0,
        hide_completed: false,
    }
}

/// Moving the selection one row down, wrapping past the last row.
pub open spec fn nav_next(s: AppV) -> AppV {
    AppV { selected: next_index(s.selected, view_len(s)), ..s }
}

/// Moving the selection one row up, wrapping past the first row.
pub open spec fn nav_prev(s: AppV) -> AppV {
    AppV { selected: prev_index(s.selected, view_len(s)), ..s }
}

/// Stepping to the next colour palette.
pub open spec fn color_next(s: AppV) -> AppV {
    AppV { color_index: (s.color_index + 1) % (PALETTE_COUNT as int), ..s }
}

/// Stepping to the previous colour palette.
pub open spec fn color_prev(s: AppV) -> AppV {
    AppV {
        color_index: (s.color_index + (PALETTE_COUNT as int) - 1) % (PALETTE_COUNT as int),
        ..s
    }
}

/// Flipping the info overlay.
pub open spec fn info_toggled(s: AppV) -> AppV {
    AppV { show_info: !s.show_info, ..s }
}

/// Re-clamping the selection after the view changed: back to the first row
/// when it no longer names one.
pub open spec fn selection_clamped(s: AppV) -> AppV {
    AppV { selected: clamp_index(s.selected, view_len(s)), ..s }
}

/// Flipping the "hide completed" filter and re-clamping the selection.
pub open spec fn hide_toggled(s: AppV) -> AppV {
    selection_clamped(AppV { hide_completed: !s.hide_completed, ..s })
}

/// One key inside the open form: typing appends to the focused buffer while
/// it is under its cap (50 characters for the name, 255 for the
/// description), backspace shortens it, tab swaps the focus, and enter on
/// the description submits as a pure append.
pub open spec fn popup_step(s: AppV, key: Key, now: Seq<char>) -> (AppV, Action) {
    match key {
        Key::Char(c) => if s.input_focus == InputFocus::Name && s.input_name.len() < 50 {
            (AppV { input_name: s.input_name.push(c), ..s }, Action::Nothing)
        } else if s.input_focus == InputFocus::Description && s.input_description.len() < 255 {
            (AppV { input_description: s.input_description.push(c), ..s }, Action::Nothing)
        } else {
            (s, Action::Nothing)
        },
        Key::Backspace => if s.input_focus == InputFocus::Name {
            if s.input_name.len() > 0 {
                (AppV { input_name: s.input_name.drop_last(), ..s }, Action::Nothing)
            } else {
                (s, Action::Nothing)
            }
        } else {
            if s.input_description.len() > 0 {
                (AppV { input_description: s.input_description.drop_last(), ..s }, Action::Nothing)
            } else {
                (s, Action::Nothing)
            }
        },
        Key::Enter => if s.input_focus == InputFocus::Description {
            add_item_s(s, now)
        } else {
            (AppV { input_focus: InputFocus::Description, ..s }, Action::Nothing)
        },
        Key::Tab => if !s.show_info {
            (
                AppV {
                    input_focus: match s.input_focus {
                        InputFocus::Name => InputFocus::Description,
                        InputFocus::Description => InputFocus::Name,
                    },
                    ..s
                },
                Action::Nothing,
            )
        } else {
            (s, Action::Nothing)
        },
        _ => (s, Action::Nothing),
    }
}

/// One key inside the info overlay (escape is the caller's): the cursor
/// moves over the checkbox list with wraparound in all four directions, and
/// enter toggles the one under it — toggling "Hide Completed" also drives
/// the view filter and re-clamps the selection.
pub open spec fn info_input_s(s: AppV, key: Key) -> AppV {
    let n = s.checkboxes.len() as int;
    match key {
        Key::Down => if n > 0 {
            AppV { selected_checkbox: next_index(s.selected_checkbox, n), ..s }
        } else {
            s
        },
        Key::Up => if n > 0 {
            AppV { selected_checkbox: prev_index(s.selected_checkbox, n), ..s }
        } else {
            s
        },
        Key::Left => if n > 0 {
            AppV { selected_checkbox: prev_index(s.selected_checkbox, n), ..s }
        } else {
            s
        },
        Key::Right => if n > 0 {
            AppV { selected_checkbox: next_index(s.selected_checkbox, n), ..s }
        } else {
            s
        },
        Key::Enter => if 0 <= s.selected_checkbox < n {
            let cb = s.checkboxes[s.selected_checkbox];
            let cb2 = CheckboxV { checked: !cb.checked, label: cb.label };
            let s2 = AppV { checkboxes: s.checkboxes.update(s.selected_checkbox, cb2), ..s };
            if cb.label == hide_completed_label() {
                selection_clamped(AppV { hide_completed: cb2.checked, ..s2 })
            } else {
                s2
            }
        } else {
            s
        },
        _ => s,
    }
}

/// One key while the form is open: escape discards the form, enter advances
/// the focus or submits, everything else edits the form.
pub open spec fn editing_step(s: AppV, key: Key, now: Seq<char>) -> (AppV, Action) {
    match key {
        Key::Esc => (close_create(s), Action::Nothing),
        Key::Enter => if s.input_focus == InputFocus::Description {
            save_item_s(s, now)
        } else {
            (AppV { input_focus: InputFocus::Description, ..s }, Action::Nothing)
        },
        _ => popup_step(s, key, now),
    }
}

/// One key while the info overlay is open: escape or the info key closes
/// it, everything else moves or toggles within it.
pub open spec fn info_step(s: AppV, key: Key) -> (AppV, Action) {
    match key {
        Key::Esc => (AppV { show_info: false, ..s }, Action::Nothing),
        Key::Char(c) => if c == 'i' {
            (AppV { show_info: false, ..s }, Action::Nothing)
        } else {
            (info_input_s(s, key), Action::Nothing)
        },
        _ => (info_input_s(s, key), Action::Nothing),
    }
}

/// One key in browse mode: quit, navigation with wraparound, colour cycling
/// unless locked, delete, edit, create, progress cycling, the filter toggle
/// and the info overlay.
pub open spec fn browse_step(s: AppV, key: Key) -> (AppV, Action) {
    match key {
        Key::Char(c) => if c == 'q' {
            (s, Action::Quit)
        } else if c == 'j' {
            (nav_next(s), Action::Nothing)
        } else if c == 'k' {
            (nav_prev(s), Action::Nothing)
        } else if c == 'l' {
            (if lock_color_checked(s) { s } else { color_next(s) }, Action::Nothing)
        } else if c == 'h' {
            (if lock_color_checked(s) { s } else { color_prev(s) }, Action::Nothing)
        } else if c == 'x' {
            delete_s(s)
        } else if c == 'i' {
            (info_toggled(s), Action::Nothing)
        } else if c == 'r' {
            (edit_s(s), Action::Nothing)
        } else if c == 'a' {
            (open_create(AppV { editing_index: None, ..s }), Action::Nothing)
        } else if c == 'n' {
            next_progress_s(s)
        } else if c == 't' {
            (hide_toggled(s), Action::Nothing)
        } else {
            (s, Action::Nothing)
        },
        Key::Esc => (s, Action::Quit),
        Key::Down => (nav_next(s), Action::Nothing),
        Key::Up => (nav_prev(s), Action::Nothing),
        Key::Right => (if lock_color_checked(s) { s } else { color_next(s) }, Action::Nothing),
        Key::Left => (if lock_color_checked(s) { s } else { color_prev(s) }, Action::Nothing),
        Key::Delete => delete_s(s),
        _ => (s, Action::Nothing),
    }
}

/// One key, routed by the current mode: the form first, then the info
/// overlay, then browse mode. `now` stands for the local time an accepted
/// submit stamps into the task it builds.
pub open spec fn step(s: AppV, key: Key, now: Seq<char>) -> (AppV, Action) {
    if s.show_create {
        editing_step(s, key, now)
    } else if s.show_info {
        info_step(s, key)
    } else {
        browse_step(s, key)
    }
}

/// Moving the selection keeps it inside the non-empty view wherever it
/// starts, so any sequence of `next`/`previous` steps keeps it in
/// `[0, view length)`; and it wraps exactly at the two ends.
pub proof fn lemma_navigation_preserves_bounds(s: AppV)
    requires
        view_len(s) > 0,
        0 <= s.selected,
    ensures
        0 <= nav_next(s).selected < view_len(nav_next(s)),
        0 <= nav_prev(s).selected < view_len(nav_prev(s)),
        s.selected == view_len(s) - 1 ==> nav_next(s).selected == 0,
        s.selected < view_len(s) - 1 ==> nav_next(s).selected == s.selected + 1,
        s.selected == 0 ==> nav_prev(s).selected == view_len(s) - 1,
        0 < s.selected <= view_len(s) ==> nav_prev(s).selected == s.selected - 1,
{
    crate::view::lemma_navigation_in_bounds(s.selected, view_len(s));
}

/// Toggling the filter twice restores the flag, the store and the view; the
/// whole state is restored whenever the selection names a row of both views,
/// since then neither toggle clamps it.
pub proof fn lemma_toggle_hide_twice(s: AppV)
    ensures
        hide_toggled(hide_toggled(s)).hide_completed == s.hide_completed,
        hide_toggled(hide_toggled(s)).items == s.items,
        filtered_view(
            hide_toggled(hide_toggled(s)).items,
            hide_toggled(hide_toggled(s)).hide_completed,
        ) == filtered_view(s.items, s.hide_completed),
        0 <= s.selected < view_len(s) && s.selected < view_len(
            AppV { hide_completed: !s.hide_completed, ..s },
        ) ==> hide_toggled(hide_toggled(s)) == s,
{
    let s1 = hide_toggled(s);
    let s2 = hide_toggled(s1);
    if 0 <= s.selected < view_len(s) && s.selected < view_len(
        AppV { hide_completed: !s.hide_completed, ..s },
    ) {
        assert(s1.selected == s.selected);
        assert(s2 =~= s);
    }
}

/// The selection names a row of the view, or its first (empty) place when
/// the view has none.
pub open spec fn selection_ok(s: AppV) -> bool {
    if view_len(s) == 0 {
        s.selected == 0
    } else {
        0 <= s.selected < view_len(s)
    }
}

/// The selection invariant holds of a fresh session.
pub proof fn lemma_init_selection_ok(items: Seq<TaskV>)
    ensures
        selection_ok(init_app(items)),
{
}

/// Every step of the state machine keeps the selection invariant: whatever
/// key comes in, the selection still names a row of the (possibly changed)
/// view, or rests at zero when the view is empty.
#[verifier::rlimit(100)]
pub proof fn lemma_step_preserves_selection(s: AppV, key: Key, now: Seq<char>)
    requires
        wf(s),
        selection_ok(s),
    ensures
        selection_ok(step(s, key, now).0),
{
    if s.show_create {
        match key {
            Key::Enter => {
                if s.input_focus == InputFocus::Description && !blank(s.input_name) {
                    lemma_save_keeps_selection(s, now);
                }
            },
            _ => {},
        }
    } else if s.show_info {
    } else {
        let fv = filtered_view(s.items, s.hide_completed);
        match key {
            Key::Char(c) => {
                if (c == 'j' || c == 'k') && view_len(s) > 0 {
                    crate::view::lemma_navigation_in_bounds(s.selected, view_len(s));
                }
                if c == 'x' && s.items.len() > 0 && 0 <= s.selected < fv.len() {
                    lemma_first_match_props(s.items, fv[s.selected]);
                }
            },
            Key::Down | Key::Up => {
                if view_len(s) > 0 {
                    crate::view::lemma_navigation_in_bounds(s.selected, view_len(s));
                }
            },
            Key::Delete => {
                if s.items.len() > 0 && 0 <= s.selected < fv.len() {
                    lemma_first_match_props(s.items, fv[s.selected]);
                }
            },
            _ => {},
        }
    }
}

/// An accepted submit keeps the selection invariant: replacing the edited
/// task preserves its visibility (its progress is kept), and an appended
/// task starts `InProgress`, which every filter shows.
proof fn lemma_save_keeps_selection(s: AppV, now: Seq<char>)
    requires
        wf(s),
        selection_ok(s),
        s.show_create,
        !blank(s.input_name),
    ensures
        selection_ok(save_item_s(s, now).0),
{
    let t = built_task(s, now);
    match s.editing_index {
        Some(ix) => {
            assert(crate::view::keeps(t, s.hide_completed) == crate::view::keeps(
                s.items[ix],
                s.hide_completed,
            ));
            crate::view::lemma_filtered_view_update_len(s.items, ix, t, s.hide_completed);
        },
        None => {
            crate::view::lemma_filtered_view_push_len(s.items, t, s.hide_completed);
        },
    }
}

/// Toggling the "Hide Completed" checkbox twice through the overlay is the
/// identity on the flag, the checkbox and the view, provided flag and
/// checkbox agreed beforehand (the browse filter key flips the flag alone,
/// so the two can drift apart).
pub proof fn lemma_info_toggle_twice(s: AppV)
    requires
        0 <= s.selected_checkbox < s.checkboxes.len(),
        s.checkboxes[s.selected_checkbox].label == hide_completed_label(),
        s.hide_completed == s.checkboxes[s.selected_checkbox].checked,
    ensures
        ({
            let s2 = info_input_s(info_input_s(s, Key::Enter), Key::Enter);
            &&& s2.hide_completed == s.hide_completed
            &&& s2.checkboxes == s.checkboxes
            &&& s2.items == s.items
            &&& filtered_view(s2.items, s2.hide_completed) == filtered_view(
                s.items,
                s.hide_completed,
            )
        }),
{
    let i = s.selected_checkbox;
    let s1 = info_input_s(s, Key::Enter);
    let s2 = info_input_s(s1, Key::Enter);
    assert(s1.checkboxes[i].label == hide_completed_label());
    assert(s2.checkboxes =~= s.checkboxes);
}

/// With the filter off and the selected task's name unique in the store,
/// cycling progress steps exactly that task's progress, keeps its other
/// fields and every other task, keeps the selection, and asks for a
/// non-fatal save.
pub proof fn lemma_next_progress_effect(s: AppV)
    requires
        !s.hide_completed,
        0 <= s.selected < s.items.len(),
        forall|j: int|
            0 <= j < s.items.len() && j != s.selected ==> (#[trigger] s.items[j]).name
                != s.items[s.selected].name,
    ensures
        ({
            let t = s.items[s.selected];
            let s1 = next_progress_s(s).0;
            &&& s1.items == s.items.update(
                s.selected,
                TaskV { progress: crate::task::cycle(t.progress), ..t },
            )
            &&& s1.selected == s.selected
            &&& s1.hide_completed == s.hide_completed
            &&& next_progress_s(s).1 == (Action::Save { fatal: false })
        }),
{
    let t = s.items[s.selected];
    crate::view::lemma_filtered_view_off(s.items);
    lemma_first_match_props(s.items, t);
    let items2 = s.items.update(
        s.selected,
        TaskV { progress: crate::task::cycle(t.progress), ..t },
    );
    crate::view::lemma_filtered_view_off(items2);
}

/// With the filter off and the selected task's name unique in the store,
/// cycling the selected task's progress three times restores the whole
/// store: the progress cycle closes after exactly three steps.
pub proof fn lemma_next_progress_thrice(s: AppV)
    requires
        !s.hide_completed,
        0 <= s.selected < s.items.len(),
        forall|j: int|
            0 <= j < s.items.len() && j != s.selected ==> (#[trigger] s.items[j]).name
                != s.items[s.selected].name,
    ensures
        ({
            let s3 = next_progress_s(next_progress_s(next_progress_s(s).0).0).0;
            &&& s3.items == s.items
            &&& s3.selected == s.selected
        }),
{
    let t = s.items[s.selected];
    let s1 = next_progress_s(s).0;
    let s2 = next_progress_s(s1).0;
    let s3 = next_progress_s(s2).0;
    lemma_next_progress_effect(s);
    lemma_next_progress_effect(s1);
    lemma_next_progress_effect(s2);
    crate::task::lemma_progress_cycle(t.progress);
    assert(s3.items =~= s.items);
}

/// Submitting the form with a blank (or whitespace-only) name changes
/// nothing: the store is untouched, the form stays open, and no save is
/// asked for — whatever the clock read.
pub proof fn lemma_blank_submit_unchanged(s: AppV, now: Seq<char>)
    requires
        s.show_create,
        s.input_focus == InputFocus::Description,
        blank(s.input_name),
    ensures
        step(s, Key::Enter, now).0 == s,
        step(s, Key::Enter, now).1 == Action::Nothing,
{
}

impl App {
    /// Well-formedness of the state.
    pub open spec fn wf(&self) -> bool {
        wf(self@)
    }

    /// Starts a session over the loaded tasks.
    pub fn new(items: Vec<Task>) -> (r: App)
        ensures
            r@ == init_app(items.deep_view()),
            r.wf(),
    {
        let mut checkboxes: Vec<Checkbox> = Vec::new();
        checkboxes.push(Checkbox { checked: false, label: hide_completed_label_chars() });
        checkboxes.push(Checkbox { checked: false, label: lock_color_label_chars() });
        checkboxes.push(Checkbox { checked: false, label: vec!['.', '.', '.', '.'] });
        let r = App {
            items,
            selected: 0,
            color_index: 0,
            show_create: false,
            show_info: false,
            input_name: Vec::new(),
            input_description: Vec::new(),
            input_focus: InputFocus::Name,
            editing_index: None,
            checkboxes,
            selected_checkbox: 0,
            hide_completed: false,
        };
        proof {
            assert(r.checkboxes.deep_view() =~= init_app(r.items.deep_view()).checkboxes);
            assert(r@ =~= init_app(r.items.deep_view()));
        }
        r
    }

    /// The tasks the view shows, in store order.
    pub fn get_filtered_items(&self) -> (r: Vec<Task>)
        ensures
            r.deep_view() == filtered_view(self@.items, self@.hide_completed),
    {
        filter_tasks(&self.items, self.hide_completed)
    }

    /// Moves the selection one row down, wrapping past the last row.
    pub fn next(&mut self)
        ensures
            final(self)@ == nav_next(old(self)@),
            old(self).wf() ==> final(self).wf(),
    {
        let len = self.get_filtered_items().len();
        if len == 0 {
            self.selected = 0;
        } else if self.selected >= len - 1 {
            self.selected = 0;
        } else {
            self.selected = self.selected + 1;
        }
        proof {
            assert(final(self)@ =~= nav_next(old(self)@));
        }
    }

    /// Moves the selection one row up, wrapping past the first row.
    pub fn previous(&mut self)
        ensures
            final(self)@ == nav_prev(old(self)@),
            old(self).wf() ==> final(self).wf(),
    {
        let len = self.get_filtered_items().len();
        if len == 0 {
            self.selected = 0;
        } else if self.selected == 0 || self.selected > len {
            self.selected = len - 1;
        } else {
            self.selected = self.selected - 1;
        }
        proof {
            assert(final(self)@ =~= nav_prev(old(self)@));
        }
    }

    /// Steps to the next colour palette.
    pub fn next_color(&mut self)
        requires
            old(self)@.color_index < PALETTE_COUNT,
        ensures
            final(self)@ == color_next(old(self)@),
            old(self).wf() ==> final(self).wf(),
    {
        self.color_index = (self.color_index + 1) % PALETTE_COUNT;
        proof {
            assert(final(self)@ =~= color_next(old(self)@));
        }
    }

    /// Steps to the previous colour palette.
    pub fn previous_color(&mut self)
        requires
            old(self)@.color_index < PALETTE_COUNT,
        ensures
            final(self)@ == color_prev(old(self)@),
            old(self).wf() ==> final(self).wf(),
    {
        self.color_index = (self.color_index + PALETTE_COUNT - 1) % PALETTE_COUNT;
        proof {
            assert(final(self)@ =~= color_prev(old(self)@));
        }
    }

    /// Flips the info overlay.
    pub fn toggle_info(&mut self)
        requires
            !old(self)@.show_create,
        ensures
            final(self)@ == info_toggled(old(self)@),
            old(self).wf() ==> final(self).wf(),
    {
        self.show_info = !self.show_info;
        proof {
            assert(final(self)@ =~= info_toggled(old(self)@));
        }
    }

    /// Whether colour cycling is currently suppressed.
    pub fn is_color_locked(&self) -> (r: bool)
        ensures
            r == lock_color_checked(self@),
    {
        let label = lock_color_label_chars();
        let ghost cbs = self.checkboxes.deep_view();
        let mut i: usize = 0;
        while i < self.checkboxes.len()
            invariant
                0 <= i <= self.checkboxes.len(),
                cbs == self.checkboxes.deep_view(),
                cbs.len() == self.checkboxes.len(),
                label@ == lock_color_label(),
                forall|j: int| 0 <= j < i ==> (#[trigger] cbs[j]).label != lock_color_label(),
            decreases self.checkboxes.len() - i,
        {
            if eq_chars(&self.checkboxes[i].label, &label) {
                proof {
                    lemma_find_label_props(cbs, lock_color_label());
                    assert(cbs[i as int].label == lock_color_label());
                }
                return self.checkboxes[i].checked;
            }
            i += 1;
        }
        proof {
            lemma_find_label_props(cbs, lock_color_label());
        }
        false
    }

    /// Builds the task the form currently describes: the two buffers, a
    /// fresh `InProgress` state, and the present local time as creation
    /// timestamp.
    pub fn create_item(&self) -> (r: Task)
        ensures
            r@.name == self@.input_name,
            r@.description == self@.input_description,
            r@.progress == Progress::InProgress,
            clock_chars(r@.created),
    {
        Task {
            name: self.input_name.clone(),
            description: self.input_description.clone(),
            progress: Progress::InProgress,
            created: now_string(),
        }
    }

    /// Flips the form open or closed; opening clears the buffers and
    /// prefills them from the edit target when one is set.
    pub fn toggle_create(&mut self)
        requires
            match old(self)@.editing_index {
                Some(ix) => 0 <= ix < old(self)@.items.len(),
                None => true,
            },
        ensures
            final(self)@ == create_toggled(old(self)@),
    {
        self.show_create = !self.show_create;
        if self.show_create {
            match self.editing_index {
                Some(index) => {
                    self.input_name = self.items[index].name.clone();
                    self.input_description = self.items[index].description.clone();
                },
                None => {
                    self.input_name = Vec::new();
                    self.input_description = Vec::new();
                },
            }
            self.input_focus = InputFocus::Name;
        } else {
            self.editing_index = None;
            self.input_name = Vec::new();
            self.input_description = Vec::new();
        }
        proof {
            assert(self@ =~= create_toggled(old(self)@));
        }
    }

    /// Deletes the selected row from the store, moves the selection and asks
    /// for a save.
    pub fn delete(&mut self) -> (r: Action)
        requires
            old(self).wf(),
            !old(self)@.show_create,
        ensures
            final(self)@ == delete_s(old(self)@).0,
            r == delete_s(old(self)@).1,
            final(self).wf(),
    {
        if self.items.len() == 0 {
            return Action::Nothing;
        }
        let fv = self.get_filtered_items();
        if self.selected < fv.len() {
            let selected_item = &fv[self.selected];
            match find_first_match(&self.items, selected_item) {
                Some(index) => {
                    proof {
                        lemma_first_match_props(self.items.deep_view(), selected_item@);
                    }
                    self.items.remove(index);
                    proof {
                        assert(self.items.deep_view() =~= old(self).items.deep_view().remove(
                            index as int,
                        ));
                    }
                    if index >= self.items.len() {
                        self.selected = if self.items.len() == 0 {
                            0
                        } else {
                            self.items.len() - 1
                        };
                    } else {
                        self.selected = index;
                    }
                    self.update_selected_index();
                    proof {
                        assert(self@ =~= delete_s(old(self)@).0);
                    }
                    Action::Save { fatal: false }
                },
                None => Action::Nothing,
            }
        } else {
            Action::Nothing
        }
    }

    /// Opens the form over the selected row, with its store entry as edit
    /// target.
    pub fn edit_item(&mut self)
        requires
            old(self).wf(),
            !old(self)@.show_create,
            !old(self)@.show_info,
        ensures
            final(self)@ == edit_s(old(self)@),
            final(self).wf(),
    {
        let fv = self.get_filtered_items();
        if self.selected < fv.len() {
            let selected_item = &fv[self.selected];
            match find_first_match(&self.items, selected_item) {
                Some(index) => {
                    proof {
                        lemma_first_match_props(self.items.deep_view(), selected_item@);
                    }
                    self.editing_index = Some(index);
                    self.toggle_create();
                    proof {
                        assert(self@ =~= edit_s(old(self)@));
                    }
                },
                None => {},
            }
        }
    }

    /// Cycles the progress of the selected row's store entry and asks for a
    /// save.
    pub fn next_progress(&mut self) -> (r: Action)
        requires
            old(self).wf(),
            !old(self)@.show_create,
        ensures
            final(self)@ == next_progress_s(old(self)@).0,
            r == next_progress_s(old(self)@).1,
            final(self).wf(),
    {
        let fv = self.get_filtered_items();
        if self.selected < fv.len() {
            let selected_item = &fv[self.selected];
            match find_first_match(&self.items, selected_item) {
                Some(index) => {
                    proof {
                        lemma_first_match_props(self.items.deep_view(), selected_item@);
                    }
                    let t = self.items.remove(index);
                    let t2 = Task { progress: t.progress.cycled(), ..t };
                    self.items.insert(index, t2);
                    proof {
                        assert(self.items.deep_view() =~= old(self).items.deep_view().update(
                            index as int,
                            next_progress_s(old(self)@).0.items[index as int],
                        ));
                    }
                    self.update_selected_index();
                    proof {
                        assert(self@ =~= next_progress_s(old(self)@).0);
                    }
                    Action::Save { fatal: false }
                },
                None => Action::Nothing,
            }
        } else {
            Action::Nothing
        }
    }

    /// Submits the form: refuses a blank name, otherwise replaces the edit
    /// target or appends, closes the form and asks for a save.
    pub fn save_item(&mut self) -> (r: Action)
        requires
            old(self)@.show_create,
            match old(self)@.editing_index {
                Some(ix) => 0 <= ix < old(self)@.items.len(),
                None => true,
            },
        ensures
            exists|now: Seq<char>|
                #[trigger] clock_chars(now) && final(self)@ == save_item_s(old(self)@, now).0
                    && r == save_item_s(old(self)@, now).1,
            old(self).wf() ==> final(self).wf(),
    {
        if is_blank(&self.input_name) {
            proof {
                let w: Seq<char> = Seq::new(19, |i: int| '0');
                assert(clock_chars(w) && self@ == save_item_s(old(self)@, w).0 && Action::Nothing
                    == save_item_s(old(self)@, w).1);
            }
            return Action::Nothing;
        }
        let mut item = self.create_item();
        let ghost w = item@.created;
        let fatal: bool;
        match self.editing_index {
            Some(index) => {
                item.progress = self.items[index].progress;
                fatal = false;
                let _old_entry = self.items.remove(index);
                self.items.insert(index, item);
                proof {
                    assert(self.items.deep_view() =~= old(self).items.deep_view().update(
                        index as int,
                        built_task(old(self)@, w),
                    ));
                }
            },
            None => {
                fatal = self.items.len() == 0;
                self.items.push(item);
            },
        }
        self.editing_index = None;
        self.toggle_create();
        proof {
            assert(self@ =~= save_item_s(old(self)@, w).0);
            assert(clock_chars(w) && self@ == save_item_s(old(self)@, w).0 && (Action::Save {
                fatal,
            }) == save_item_s(old(self)@, w).1);
        }
        Action::Save { fatal }
    }

    /// Submits the form as a pure append: refuses a blank name, otherwise
    /// appends the built task, closes the form and asks for a save.
    pub fn add_item(&mut self) -> (r: Action)
        requires
            old(self)@.show_create,
        ensures
            exists|now: Seq<char>|
                #[trigger] clock_chars(now) && final(self)@ == add_item_s(old(self)@, now).0
                    && r == add_item_s(old(self)@, now).1,
            old(self).wf() ==> final(self).wf(),
    {
        if is_blank(&self.input_name) {
            proof {
                let w: Seq<char> = Seq::new(19, |i: int| '0');
                assert(clock_chars(w) && self@ == add_item_s(old(self)@, w).0 && Action::Nothing
                    == add_item_s(old(self)@, w).1);
            }
            return Action::Nothing;
        }
        let item = self.create_item();
        let ghost w = item@.created;
        let fatal = self.items.len() == 0;
        self.items.push(item);
        self.editing_index = None;
        self.toggle_create();
        proof {
            assert(self@ =~= add_item_s(old(self)@, w).0);
            assert(clock_chars(w) && self@ == add_item_s(old(self)@, w).0 && (Action::Save {
                fatal,
            }) == add_item_s(old(self)@, w).1);
        }
        Action::Save { fatal }
    }

    /// Re-clamps the selection after the view changed.
    pub fn update_selected_index(&mut self)
        ensures
            final(self)@ == selection_clamped(old(self)@),
            old(self).wf() ==> final(self).wf(),
    {
        let len = self.get_filtered_items().len();
        if self.selected >= len {
            self.selected = 0;
        }
        proof {
            assert(final(self)@ =~= selection_clamped(old(self)@));
        }
    }

    /// Handles one key inside the open form.
    pub fn handle_popup_input(&mut self, key: Key) -> (r: Action)
        requires
            old(self)@.show_create,
        ensures
            exists|now: Seq<char>|
                #[trigger] clock_chars(now) && final(self)@ == popup_step(
                    old(self)@,
                    key,
                    now,
                ).0 && r == popup_step(old(self)@, key, now).1,
            old(self).wf() ==> final(self).wf(),
    {
        let ghost w: Seq<char> = Seq::new(19, |i: int| '0');
        match key {
            Key::Char(c) => {
                if matches!(self.input_focus, InputFocus::Name) && self.input_name.len() < 50 {
                    self.input_name.push(c);
                } else if matches!(self.input_focus, InputFocus::Description)
                    && self.input_description.len() < 255 {
                    self.input_description.push(c);
                }
            },
            Key::Backspace => {
                match self.input_focus {
                    InputFocus::Name => {
                        if self.input_name.len() > 0 {
                            self.input_name.pop();
                        }
                    },
                    InputFocus::Description => {
                        if self.input_description.len() > 0 {
                            self.input_description.pop();
                        }
                    },
                }
            },
            Key::Enter => {
                if matches!(self.input_focus, InputFocus::Description) {
                    let r = self.add_item();
                    proof {
                        let now = choose|now: Seq<char>|
                            #[trigger] clock_chars(now) && self@ == add_item_s(
                                old(self)@,
                                now,
                            ).0 && r == add_item_s(old(self)@, now).1;
                        assert(clock_chars(now) && self@ == popup_step(old(self)@, key, now).0
                            && r == popup_step(old(self)@, key, now).1);
                    }
                    return r;
                } else {
                    self.input_focus = InputFocus::Description;
                }
            },
            Key::Tab => {
                if !self.show_info {
                    self.input_focus = match self.input_focus {
                        InputFocus::Name => InputFocus::Description,
                        InputFocus::Description => InputFocus::Name,
                    };
                }
            },
            _ => {},
        }
        proof {
            assert(self@ =~= popup_step(old(self)@, key, w).0);
            assert(clock_chars(w) && self@ == popup_step(old(self)@, key, w).0
                && Action::Nothing == popup_step(old(self)@, key, w).1);
        }
        Action::Nothing
    }

    /// Handles one key inside the info overlay.
    pub fn handle_info_input(&mut self, key: Key)
        requires
            0 <= old(self)@.selected_checkbox < old(self)@.checkboxes.len(),
        ensures
            final(self)@ == info_input_s(old(self)@, key),
            old(self).wf() ==> final(self).wf(),
    {
        let n = self.checkboxes.len();
        match key {
            Key::Down | Key::Right => {
                if n > 0 {
                    if self.selected_checkbox >= n - 1 {
                        self.selected_checkbox = 0;
                    } else {
                        self.selected_checkbox = self.selected_checkbox + 1;
                    }
                }
            },
            Key::Up | Key::Left => {
                if n > 0 {
                    if self.selected_checkbox == 0 {
                        self.selected_checkbox = n - 1;
                    } else {
                        self.selected_checkbox = self.selected_checkbox - 1;
                    }
                }
            },
            Key::Enter => {
                let idx = self.selected_checkbox;
                let cb = self.checkboxes.remove(idx);
                let new_checked = !cb.checked;
                let is_hide = eq_chars(&cb.label, &hide_completed_label_chars());
                self.checkboxes.insert(idx, Checkbox { checked: new_checked, label: cb.label });
                proof {
                    assert(self.checkboxes.deep_view() =~= old(self).checkboxes.deep_view().update(
                        idx as int,
                        CheckboxV {
                            checked: new_checked,
                            label: old(self)@.checkboxes[idx as int].label,
                        },
                    ));
                }
                if is_hide {
                    self.hide_completed = new_checked;
                    self.update_selected_index();
                }
            },
            _ => {},
        }
        proof {
            assert(self@ =~= info_input_s(old(self)@, key));
        }
    }

    /// Handles one key-press: routes it by the current mode, mutates the
    /// state accordingly and answers with what the caller must do — nothing
    /// more, save the store, or quit. The step taken is exactly `step`, for
    /// some reading `now` of the local clock.
    pub fn handle_key(&mut self, key: Key) -> (r: Action)
        requires
            old(self).wf(),
        ensures
            final(self).wf(),
            exists|now: Seq<char>|
                #[trigger] clock_chars(now) && final(self)@ == step(old(self)@, key, now).0
                    && r == step(old(self)@, key, now).1,
    {
        let ghost w: Seq<char> = Seq::new(19, |i: int| '0');
        proof {
            assert(clock_chars(w));
        }
        if self.show_create {
            match key {
                Key::Esc => {
                    self.show_create = false;
                    self.editing_index = None;
                    self.input_name = Vec::new();
                    self.input_description = Vec::new();
                    proof {
                        assert(self@ =~= close_create(old(self)@));
                        assert(clock_chars(w) && self@ == step(old(self)@, key, w).0
                            && Action::Nothing == step(old(self)@, key, w).1);
                    }
                    Action::Nothing
                },
                Key::Enter => {
                    if matches!(self.input_focus, InputFocus::Description) {
                        let r = self.save_item();
                        proof {
                            let now = choose|now: Seq<char>|
                                #[trigger] clock_chars(now) && self@ == save_item_s(
                                    old(self)@,
                                    now,
                                ).0 && r == save_item_s(old(self)@, now).1;
                            assert(clock_chars(now) && self@ == step(old(self)@, key, now).0
                                && r == step(old(self)@, key, now).1);
                        }
                        r
                    } else {
                        self.input_focus = InputFocus::Description;
                        proof {
                            assert(self@ =~= step(old(self)@, key, w).0);
                            assert(clock_chars(w) && self@ == step(old(self)@, key, w).0
                                && Action::Nothing == step(old(self)@, key, w).1);
                        }
                        Action::Nothing
                    }
                },
                _ => {
                    let r = self.handle_popup_input(key);
                    proof {
                        let now = choose|now: Seq<char>|
                            #[trigger] clock_chars(now) && self@ == popup_step(
                                old(self)@,
                                key,
                                now,
                            ).0 && r == popup_step(old(self)@, key, now).1;
                        assert(clock_chars(now) && self@ == step(old(self)@, key, now).0 && r
                            == step(old(self)@, key, now).1);
                    }
                    r
                },
            }
        } else if self.show_info {
            let close = match key {
                Key::Esc => true,
                Key::Char(c) => c == 'i',
                _ => false,
            };
            if close {
                self.show_info = false;
                proof {
                    assert(self@ =~= step(old(self)@, key, w).0);
                    assert(clock_chars(w) && self@ == step(old(self)@, key, w).0
                        && Action::Nothing == step(old(self)@, key, w).1);
                }
            } else {
                self.handle_info_input(key);
                proof {
                    assert(clock_chars(w) && self@ == step(old(self)@, key, w).0
                        && Action::Nothing == step(old(self)@, key, w).1);
                }
            }
            Action::Nothing
        } else {
            let r = match key {
                Key::Char(c) => {
                    if c == 'q' {
                        Action::Quit
                    } else if c == 'j' {
                        self.next();
                        Action::Nothing
                    } else if c == 'k' {
                        self.previous();
                        Action::Nothing
                    } else if c == 'l' {
                        if !self.is_color_locked() {
                            self.next_color();
                        }
                        Action::Nothing
                    } else if c == 'h' {
                        if !self.is_color_locked() {
                            self.previous_color();
                        }
                        Action::Nothing
                    } else if c == 'x' {
                        self.delete()
                    } else if c == 'i' {
                        self.toggle_info();
                        Action::Nothing
                    } else if c == 'r' {
                        self.edit_item();
                        Action::Nothing
                    } else if c == 'a' {
                        self.editing_index = None;
                        self.toggle_create();
                        Action::Nothing
                    } else if c == 'n' {
                        self.next_progress()
                    } else if c == 't' {
                        self.hide_completed = !self.hide_completed;
                        self.update_selected_index();
                        Action::Nothing
                    } else {
                        Action::Nothing
                    }
                },
                Key::Esc => Action::Quit,
                Key::Down => {
                    self.next();
                    Action::Nothing
                },
                Key::Up => {
                    self.previous();
                    Action::Nothing
                },
                Key::Right => {
                    if !self.is_color_locked() {
                        self.next_color();
                    }
                    Action::Nothing
                },
                Key::Left => {
                    if !self.is_color_locked() {
                        self.previous_color();
                    }
                    Action::Nothing
                },
                Key::Delete => self.delete(),
                _ => Action::Nothing,
            };
            proof {
                assert(self@ =~= step(old(self)@, key, w).0);
                assert(clock_chars(w) && self@ == step(old(self)@, key, w).0 && r == step(
                    old(self)@,
                    key,
                    w,
                ).1);
            }
            r
        }
    }
}

} // verus!
