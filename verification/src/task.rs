//! Tasks and their progress states.
//!
//! A task is a name, a description, a progress state and a creation
//! timestamp; text is held as a vector of characters so that contracts can
//! speak of character sequences directly. Two tasks are the same only when
//! all four fields are equal (structural identity).
use vstd::prelude::*;

verus! {

/// The three progress states a task can be in.
#[derive(Clone, Copy, Debug, PartialEq, Eq, Structural)]
pub enum Progress {
    InProgress,
    Waiting,
    Done,
}

/// The fixed three-state cycle: `InProgress -> Waiting -> Done -> InProgress`.
pub open spec fn cycle(p: Progress) -> Progress {
    match p {
        Progress::InProgress => Progress::Waiting,
        Progress::Waiting => Progress::Done,
        Progress::Done => Progress::InProgress,
    }
}

impl Progress {
    /// Applies the fixed three-state transition.
    pub fn cycled(self) -> (r: Progress)
        ensures
            r == cycle(self),
    {
        match self {
            Progress::InProgress => Progress::Waiting,
            Progress::Waiting => Progress::Done,
            Progress::Done => Progress::InProgress,
        }
    }

    /// The label shown for this state in the task table.
    pub fn display(&self) -> (r: Vec<char>)
        ensures
            r@ == display_label(*self),
    {
        match self {
            Progress::Waiting => vec!['W', 'a', 'i', 't', 'i', 'n', 'g'],
            Progress::InProgress => vec![
                'I',
                'n',
                ' ',
                'P',
                'r',
                'o',
                'g',
                'r',
                'e',
                's',
                's',
            ],
            Progress::Done => vec!['D', 'o', 'n', 'e'],
        }
    }
}

/// The label `Progress::display` returns for each state.
pub open spec fn display_label(p: Progress) -> Seq<char> {
    match p {
        Progress::Waiting => seq!['W', 'a', 'i', 't', 'i', 'n', 'g'],
        Progress::InProgress => seq!['I', 'n', ' ', 'P', 'r', 'o', 'g', 'r', 'e', 's', 's'],
        Progress::Done => seq!['D', 'o', 'n', 'e'],
    }
}

impl Default for Progress {
    /// New tasks that have not been started yet are `Waiting`.
    fn default() -> (r: Self)
        ensures
            r == Progress::Waiting,
    {
        Progress::Waiting
    }
}

/// The progress cycle returns to the start after exactly three steps, never
/// fixes a state, and reaches all three states from any start; together this
/// says the transition is a cyclic permutation of the three states.
pub proof fn lemma_progress_cycle(p: Progress)
    ensures
        cycle(cycle(cycle(p))) == p,
        cycle(p) != p,
        cycle(cycle(p)) != p,
        cycle(cycle(p)) != cycle(p),
{
    match p {
        Progress::InProgress => {},
        Progress::Waiting => {},
        Progress::Done => {},
    }
}

/// A single to-do entry.
pub struct Task {
    pub name: Vec<char>,
    pub description: Vec<char>,
    pub progress: Progress,
    pub created: Vec<char>,
}

/// The mathematical value of a task: its text fields as sequences.
pub struct TaskV {
    pub name: Seq<char>,
    pub description: Seq<char>,
    pub progress: Progress,
    pub created: Seq<char>,
}

impl View for Task {
    type V = TaskV;

    open spec fn view(&self) -> TaskV {
        TaskV {
            name: self.name@,
            description: self.description@,
            progress: self.progress,
            created: self.created@,
        }
    }
}

impl DeepView for Task {
    type V = TaskV;

    open spec fn deep_view(&self) -> TaskV {
        self.view()
    }
}

impl Clone for Task {
    /// A clone has the same four fields.
    fn clone(&self) -> (r: Self)
        ensures
            r@ == self@,
    {
        Task {
            name: self.name.clone(),
            description: self.description.clone(),
            progress: self.progress,
            created: self.created.clone(),
        }
    }
}

/// Structural identity: two tasks are the same only when all four fields
/// are equal.
pub open spec fn task_eq(a: TaskV, b: TaskV) -> bool {
    a.name == b.name && a.description == b.description && a.progress == b.progress && a.created
        == b.created
}

impl Task {
    /// Decides structural identity of two tasks.
    pub fn item_matches(item: &Task, selected_item: &Task) -> (r: bool)
        ensures
            r == task_eq(item@, selected_item@),
    {
        eq_chars(&item.name, &selected_item.name) && eq_chars(
            &item.description,
            &selected_item.description,
        ) && item.progress == selected_item.progress && eq_chars(
            &item.created,
            &selected_item.created,
        )
    }
}

/// Decides equality of two character vectors.
pub fn eq_chars(a: &Vec<char>, b: &Vec<char>) -> (r: bool)
    ensures
        r == (a@ == b@),
{
    if a.len() != b.len() {
        proof {
            assert(a@ != b@);
        }
        return false;
    }
    let mut i: usize = 0;
    while i < a.len()
        invariant
            0 <= i <= a.len(),
            a.len() == b.len(),
            forall|j: int| 0 <= j < i ==> a@[j] == b@[j],
        decreases a.len() - i,
    {
        if a[i] != b[i] {
            return false;
        }
        i += 1;
    }
    proof {
        assert(a@ =~= b@);
    }
    true
}

} // verus!
