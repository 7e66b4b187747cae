//! Pure layout arithmetic for the presentation layer: wrapping cell text,
//! sizing the table's columns, and centring a popup.
use vstd::prelude::*;
use crate::codec::{progress_tag_chars, tag_of};
use crate::task::{Task, TaskV};

verus! {

/// A rectangle of the terminal, as position and size in cells.
#[derive(Clone, Copy, Debug, PartialEq, Eq, Structural)]
pub struct Rect {
    pub x: u16,
    pub y: u16,
    pub width: u16,
    pub height: u16,
}

/// Text cut into lines of at most `max_len` characters: every `max_len`
/// characters a newline is put in, and the remainder ends the text.
pub open spec fn wrapped(text: Seq<char>, max_len: int) -> Seq<char>
    decreases text.len(),
{
    if max_len <= 0 {
        Seq::empty()
    } else if text.len() == 0 {
        Seq::empty()
    } else if text.len() <= max_len {
        text
    } else {
        text.take(max_len) + seq!['\n'] + wrapped(text.skip(max_len), max_len)
    }
}

/// Cuts cell text into lines of at most `max_len` characters.
pub fn wrap_text(text: &Vec<char>, max_len: usize) -> (r: Vec<char>)
    requires
        max_len >= 1,
    ensures
        r@ == wrapped(text@, max_len as int),
{
    let mut out: Vec<char> = Vec::new();
    let mut i: usize = 0;
    proof {
        assert(out@ =~= Seq::<char>::empty());
        assert(text@.skip(0) =~= text@);
        assert(wrapped(text@, max_len as int) =~= out@ + wrapped(
            text@.skip(0),
            max_len as int,
        ));
    }
    while text.len() - i > max_len
        invariant
            max_len >= 1,
            0 <= i <= text.len(),
            wrapped(text@, max_len as int) == out@ + wrapped(text@.skip(i as int), max_len as int),
        decreases text.len() - i,
    {
        // copy one full chunk and a newline
        let mut j: usize = 0;
        let ghost pre = out@;
        while j < max_len
            invariant
                0 <= j <= max_len,
                i + max_len <= text.len(),
                out@ == pre + text@.subrange(i as int, i + j),
            decreases max_len - j,
        {
            out.push(text[i + j]);
            proof {
                assert(out@ =~= pre + text@.subrange(i as int, i + j + 1));
            }
            j += 1;
        }
        out.push('\n');
        proof {
            let t = text@.skip(i as int);
            assert(t.take(max_len as int) =~= text@.subrange(i as int, i + max_len as int));
            assert(t.skip(max_len as int) =~= text@.skip(i + max_len as int));
            assert(out@ =~= pre + (t.take(max_len as int) + seq!['\n']));
            assert(wrapped(t, max_len as int) == t.take(max_len as int) + seq!['\n'] + wrapped(
                t.skip(max_len as int),
                max_len as int,
            ));
            assert(out@ + wrapped(text@.skip(i + max_len as int), max_len as int) =~= pre + wrapped(
                t,
                max_len as int,
            ));
        }
        i += max_len;
    }
    // the remainder, at most max_len characters
    let ghost pre = out@;
    let mut j: usize = i;
    while j < text.len()
        invariant
            i <= j <= text.len(),
            out@ == pre + text@.subrange(i as int, j as int),
        decreases text.len() - j,
    {
        out.push(text[j]);
        proof {
            assert(out@ =~= pre + text@.subrange(i as int, j + 1));
        }
        j += 1;
    }
    proof {
        let t = text@.skip(i as int);
        assert(t =~= text@.subrange(i as int, text@.len() as int));
        assert(wrapped(t, max_len as int) == t);
        assert(out@ =~= pre + wrapped(t, max_len as int));
    }
    out
}

/// A field's width as the table reports it: the length where it fits a
/// 16-bit count, and zero where it does not.
pub open spec fn len_u16(n: nat) -> nat {
    if n <= u16::MAX {
        n
    } else {
        0
    }
}

/// The larger of two widths.
pub open spec fn max_nat(a: nat, b: nat) -> nat {
    if a >= b {
        a
    } else {
        b
    }
}

/// The length of the longest line of `s`, lines being separated by `'\n'`,
/// with each line's length counted as the table reports it.
pub open spec fn max_line_len(s: Seq<char>) -> nat
    decreases s.len(),
{
    if s.len() == 0 {
        0
    } else if s.last() == '\n' {
        max_nat(max_line_len(s.drop_last()), 0)
    } else {
        max_nat(max_line_len(s.drop_last()), len_u16(last_line_len(s)))
    }
}

/// The length of the last (open) line of `s`.
pub open spec fn last_line_len(s: Seq<char>) -> nat
    decreases s.len(),
{
    if s.len() == 0 {
        0
    } else if s.last() == '\n' {
        0
    } else {
        last_line_len(s.drop_last()) + 1
    }
}

/// The widest name among the tasks, as the table reports widths.
pub open spec fn name_col_width(items: Seq<TaskV>) -> nat
    decreases items.len(),
{
    if items.len() == 0 {
        0
    } else {
        max_nat(name_col_width(items.drop_last()), len_u16(items.last().name.len()))
    }
}

/// The widest description line among the tasks.
pub open spec fn description_col_width(items: Seq<TaskV>) -> nat
    decreases items.len(),
{
    if items.len() == 0 {
        0
    } else {
        max_nat(description_col_width(items.drop_last()), max_line_len(items.last().description))
    }
}

/// The widest progress tag among the tasks; the column is sized by the
/// variant's name (`InProgress`, `Waiting`, `Done`), not by the longer
/// label the row displays.
pub open spec fn progress_col_width(items: Seq<TaskV>) -> nat
    decreases items.len(),
{
    if items.len() == 0 {
        0
    } else {
        max_nat(
            progress_col_width(items.drop_last()),
            len_u16(tag_of(items.last().progress).len()),
        )
    }
}

/// The widest creation timestamp among the tasks.
pub open spec fn created_col_width(items: Seq<TaskV>) -> nat
    decreases items.len(),
{
    if items.len() == 0 {
        0
    } else {
        max_nat(created_col_width(items.drop_last()), len_u16(items.last().created.len()))
    }
}

/// The length of a field as a 16-bit count, zero where it does not fit.
fn field_len(v: &Vec<char>) -> (r: u16)
    ensures
        r as nat == len_u16(v@.len()),
{
    if v.len() <= u16::MAX as usize {
        v.len() as u16
    } else {
        0
    }
}

/// The length of the longest description line of one task.
fn max_line_len_of(v: &Vec<char>) -> (r: u16)
    ensures
        r as nat == max_line_len(v@),
{
    let mut best: u16 = 0;
    let mut cur: usize = 0;
    let mut i: usize = 0;
    proof {
        assert(v@.take(0) =~= Seq::<char>::empty());
    }
    while i < v.len()
        invariant
            0 <= i <= v.len(),
            cur as nat == last_line_len(v@.take(i as int)),
            best as nat == max_line_len(v@.take(i as int)),
            cur <= i,
        decreases v.len() - i,
    {
        let c = v[i];
        proof {
            assert(v@.take(i + 1).drop_last() =~= v@.take(i as int));
            assert(v@.take(i + 1).last() == v@[i as int]);
        }
        if c == '\n' {
            cur = 0;
        } else {
            cur = cur + 1;
            let line: u16 = if cur <= u16::MAX as usize {
                cur as u16
            } else {
                0
            };
            if line > best {
                best = line;
            }
        }
        i += 1;
    }
    proof {
        assert(v@.take(v@.len() as int) =~= v@);
    }
    best
}

/// The four column widths of the table: the longest name, description line,
/// progress tag and creation timestamp over all tasks, each counted as a
/// 16-bit width (a length beyond it counts as zero, as the table treats an
/// unconvertible width).
pub fn constraint_len_calculator(items: &Vec<Task>) -> (r: (u16, u16, u16, u16))
    ensures
        r.0 as nat == name_col_width(items.deep_view()),
        r.1 as nat == description_col_width(items.deep_view()),
        r.2 as nat == progress_col_width(items.deep_view()),
        r.3 as nat == created_col_width(items.deep_view()),
{
    let ghost dv = items.deep_view();
    let mut name_len: u16 = 0;
    let mut description_len: u16 = 0;
    let mut progress_len: u16 = 0;
    let mut created_len: u16 = 0;
    let mut i: usize = 0;
    proof {
        assert(dv.take(0) =~= Seq::<TaskV>::empty());
    }
    while i < items.len()
        invariant
            0 <= i <= items.len(),
            dv == items.deep_view(),
            dv.len() == items.len(),
            name_len as nat == name_col_width(dv.take(i as int)),
            description_len as nat == description_col_width(dv.take(i as int)),
            progress_len as nat == progress_col_width(dv.take(i as int)),
            created_len as nat == created_col_width(dv.take(i as int)),
        decreases items.len() - i,
    {
        proof {
            assert(dv.take(i + 1).drop_last() =~= dv.take(i as int));
            assert(dv.take(i + 1).last() == dv[i as int]);
        }
        let n = field_len(&items[i].name);
        if n > name_len {
            name_len = n;
        }
        let d = max_line_len_of(&items[i].description);
        if d > description_len {
            description_len = d;
        }
        let p = field_len(&progress_tag_chars(&items[i].progress));
        if p > progress_len {
            progress_len = p;
        }
        let c = field_len(&items[i].created);
        if c > created_len {
            created_len = c;
        }
        i += 1;
    }
    proof {
        assert(dv.take(dv.len() as int) =~= dv);
    }
    (name_len, description_len, progress_len, created_len)
}

/// Centres a popup of the given size in `area`.
pub fn popup_area(area: Rect, width: u16, height: u16) -> (r: Rect)
    requires
        width <= area.width,
        height <= area.height,
        area.x + area.width <= u16::MAX,
        area.y + area.height <= u16::MAX,
    ensures
        r.x == area.x + (area.width - width) / 2,
        r.y == area.y + (area.height - height) / 2,
        r.width == width,
        r.height == height,
{
    Rect {
        x: area.x + (area.width - width) / 2,
        y: area.y + (area.height - height) / 2,
        width,
        height,
    }
}

} // verus!
