//! The persistence format: a JSON array of task objects.
//!
//! Each task is written as `{"name":...,"description":...,"progress":...,
//! "created":...}` with every field a string; the progress tag is one of
//! the literals `InProgress`, `Waiting`, `Done`. Strings escape `"` and
//! `\` with a backslash and carry every other character verbatim. The
//! parser accepts whitespace between tokens and proves the round trip:
//! parsing what was rendered yields the original tasks.
use vstd::prelude::*;
use crate::task::{eq_chars, Progress, Task, TaskV};

verus! {

/// A whitespace character the parser skips between tokens.
pub open spec fn is_ws(c: char) -> bool {
    c == ' ' || c == '\n' || c == '\r' || c == '\t'
}

/// How one character is written inside a string literal: `"` and `\` get a
/// backslash before them, everything else stands as it is.
pub open spec fn esc_char(c: char) -> Seq<char> {
    if c == '"' || c == '\\' {
        seq!['\\', c]
    } else {
        seq![c]
    }
}

/// How a whole string's characters are written inside a string literal.
pub open spec fn esc(s: Seq<char>) -> Seq<char>
    decreases s.len(),
{
    if s.len() == 0 {
        Seq::empty()
    } else {
        esc(s.drop_last()) + esc_char(s.last())
    }
}

/// The escaped text also grows from the front, one character at a time.
pub proof fn lemma_esc_first(s: Seq<char>)
    requires
        s.len() > 0,
    ensures
        esc(s) == esc_char(s[0]) + esc(s.drop_first()),
    decreases s.len(),
{
    if s.len() == 1 {
        assert(s.drop_last() =~= Seq::<char>::empty());
        assert(s.drop_first() =~= Seq::<char>::empty());
        assert(esc(s) =~= esc_char(s[0]) + esc(s.drop_first()));
    } else {
        lemma_esc_first(s.drop_last());
        assert(s.drop_last()[0] == s[0]);
        assert(s.drop_last().drop_first() =~= s.drop_first().drop_last());
        assert(s.drop_first().last() == s.last());
        assert(esc(s) =~= esc_char(s[0]) + esc(s.drop_first()));
    }
}

/// The numeric value of a hexadecimal digit, or nothing.
pub open spec fn hex_val(c: char) -> Option<int> {
    if '0' <= c <= '9' {
        Some((c as u32) - ('0' as u32))
    } else if 'a' <= c <= 'f' {
        Some((c as u32) - ('a' as u32) + 10)
    } else if 'A' <= c <= 'F' {
        Some((c as u32) - ('A' as u32) + 10)
    } else {
        None
    }
}

/// The character a single escape letter stands for, or nothing; these are
/// JSON's named escapes.
pub open spec fn esc_letter(c: char) -> Option<char> {
    if c == '"' {
        Some('"')
    } else if c == '\\' {
        Some('\\')
    } else if c == '/' {
        Some('/')
    } else if c == 'b' {
        Some('\u{0008}')
    } else if c == 'f' {
        Some('\u{000c}')
    } else if c == 'n' {
        Some('\n')
    } else if c == 'r' {
        Some('\r')
    } else if c == 't' {
        Some('\t')
    } else {
        None
    }
}

/// The character four hexadecimal digits of a `\u` escape name, or nothing
/// when a digit is bad or the value is a surrogate (no character has one).
pub open spec fn unescape_u(c1: char, c2: char, c3: char, c4: char) -> Option<char> {
    match hex_val(c1) {
        Some(h1) => match hex_val(c2) {
            Some(h2) => match hex_val(c3) {
                Some(h3) => match hex_val(c4) {
                    Some(h4) => {
                        let code = h1 * 4096 + h2 * 256 + h3 * 16 + h4;
                        if code < 0xd800 || code >= 0xe000 {
                            Some((code as u32) as char)
                        } else {
                            None
                        }
                    },
                    None => None,
                },
                None => None,
            },
            None => None,
        },
        None => None,
    }
}

/// Reading a string literal's body: the characters up to the unescaped
/// closing quote, unescaped, and what follows it; nothing when the text
/// ends before the quote or holds a bad escape. The writer above spends
/// only the `\"` and `\\` escapes, but the reader takes all of JSON's.
#[verifier::opaque]
pub open spec fn scan_string(s: Seq<char>) -> Option<(Seq<char>, Seq<char>)>
    decreases s.len(),
{
    if s.len() == 0 {
        None
    } else if s[0] == '"' {
        Some((Seq::empty(), s.drop_first()))
    } else if s[0] == '\\' {
        if s.len() >= 2 && s[1] == 'u' {
            if s.len() >= 6 {
                match unescape_u(s[2], s[3], s[4], s[5]) {
                    Some(c) => match scan_string(s.skip(6)) {
                        Some((t, r)) => Some((seq![c] + t, r)),
                        None => None,
                    },
                    None => None,
                }
            } else {
                None
            }
        } else if s.len() >= 2 {
            match esc_letter(s[1]) {
                Some(c) => match scan_string(s.skip(2)) {
                    Some((t, r)) => Some((seq![c] + t, r)),
                    None => None,
                },
                None => None,
            }
        } else {
            None
        }
    } else {
        match scan_string(s.drop_first()) {
            Some((t, r)) => Some((seq![s[0]] + t, r)),
            None => None,
        }
    }
}

/// Scanning what was escaped, up to its closing quote, gives back exactly
/// the original text and the tail.
pub proof fn lemma_scan_esc(content: Seq<char>, rest: Seq<char>)
    ensures
        scan_string(esc(content) + seq!['"'] + rest) == Some((content, rest)),
    decreases content.len(),
{
    let s = esc(content) + seq!['"'] + rest;
    reveal(scan_string);
    if content.len() == 0 {
        assert(s =~= seq!['"'] + rest);
        assert(s[0] == '"');
        assert(s.drop_first() =~= rest);
    } else {
        let c = content[0];
        let tail = content.drop_first();
        lemma_esc_first(content);
        lemma_scan_esc(tail, rest);
        if c == '"' || c == '\\' {
            assert(s =~= seq!['\\', c] + (esc(tail) + seq!['"'] + rest));
            assert(s[0] == '\\');
            assert(s[1] == c);
            assert(s.skip(2) =~= esc(tail) + seq!['"'] + rest);
            assert(seq![s[1]] + tail =~= content);
        } else {
            assert(s =~= seq![c] + (esc(tail) + seq!['"'] + rest));
            assert(s[0] == c);
            assert(s.drop_first() =~= esc(tail) + seq!['"'] + rest);
            assert(seq![s[0]] + tail =~= content);
        }
    }
}

/// The quoted key before a task's name.
pub open spec fn key_name() -> Seq<char> {
    seq!['"', 'n', 'a', 'm', 'e', '"']
}

/// The quoted key before a task's description.
pub open spec fn key_description() -> Seq<char> {
    seq!['"', 'd', 'e', 's', 'c', 'r', 'i', 'p', 't', 'i', 'o', 'n', '"']
}

/// The quoted key before a task's progress tag.
pub open spec fn key_progress() -> Seq<char> {
    seq!['"', 'p', 'r', 'o', 'g', 'r', 'e', 's', 's', '"']
}

/// The quoted key before a task's creation timestamp.
pub open spec fn key_created() -> Seq<char> {
    seq!['"', 'c', 'r', 'e', 'a', 't', 'e', 'd', '"']
}

/// The tag a progress state is written as.
pub open spec fn tag_of(p: Progress) -> Seq<char> {
    match p {
        Progress::InProgress => seq!['I', 'n', 'P', 'r', 'o', 'g', 'r', 'e', 's', 's'],
        Progress::Waiting => seq!['W', 'a', 'i', 't', 'i', 'n', 'g'],
        Progress::Done => seq!['D', 'o', 'n', 'e'],
    }
}

/// The progress state a tag names, if any.
pub open spec fn progress_of_tag(tag: Seq<char>) -> Option<Progress> {
    if tag == tag_of(Progress::InProgress) {
        Some(Progress::InProgress)
    } else if tag == tag_of(Progress::Waiting) {
        Some(Progress::Waiting)
    } else if tag == tag_of(Progress::Done) {
        Some(Progress::Done)
    } else {
        None
    }
}

/// The three tags name back their three states.
pub proof fn lemma_tag_round_trip(p: Progress)
    ensures
        progress_of_tag(tag_of(p)) == Some(p),
{
    match p {
        Progress::InProgress => {},
        Progress::Waiting => {
            assert(tag_of(Progress::Waiting).len() != tag_of(Progress::InProgress).len());
        },
        Progress::Done => {
            assert(tag_of(Progress::Done).len() != tag_of(Progress::InProgress).len());
            assert(tag_of(Progress::Done).len() != tag_of(Progress::Waiting).len());
        },
    }
}

/// How one string field is written: quoted and escaped.
pub open spec fn string_json(s: Seq<char>) -> Seq<char> {
    seq!['"'] + esc(s) + seq!['"']
}

/// How one task is written: an object with its four fields in order.
pub open spec fn task_json(t: TaskV) -> Seq<char> {
    seq!['{'] + key_name() + seq![':'] + string_json(t.name) + seq![','] + key_description()
        + seq![':'] + string_json(t.description) + seq![','] + key_progress() + seq![':']
        + string_json(tag_of(t.progress)) + seq![','] + key_created() + seq![':'] + string_json(
        t.created,
    ) + seq!['}']
}

/// What follows the first task of the array: for each further task a comma
/// and the task, then the closing bracket.
pub open spec fn tail_json(ts: Seq<TaskV>) -> Seq<char>
    decreases ts.len(),
{
    if ts.len() == 0 {
        seq![']']
    } else {
        seq![','] + task_json(ts[0]) + tail_json(ts.drop_first())
    }
}

/// How a task list is written: a JSON array of its tasks in order.
pub open spec fn json_of(ts: Seq<TaskV>) -> Seq<char> {
    if ts.len() == 0 {
        seq!['[', ']']
    } else {
        seq!['['] + task_json(ts[0]) + tail_json(ts.drop_first())
    }
}

/// The text with its leading whitespace dropped.
pub open spec fn skip_ws(s: Seq<char>) -> Seq<char>
    decreases s.len(),
{
    if s.len() > 0 && is_ws(s[0]) {
        skip_ws(s.drop_first())
    } else {
        s
    }
}

/// Reading one expected character, past any whitespace before it.
pub open spec fn expect_ch(s: Seq<char>, c: char) -> Option<Seq<char>> {
    let t = skip_ws(s);
    if t.len() > 0 && t[0] == c {
        Some(t.drop_first())
    } else {
        None
    }
}

/// Reading an expected literal, past any whitespace before it.
pub open spec fn expect_lit(s: Seq<char>, lit: Seq<char>) -> Option<Seq<char>> {
    let t = skip_ws(s);
    if t.len() >= lit.len() && t.take(lit.len() as int) == lit {
        Some(t.skip(lit.len() as int))
    } else {
        None
    }
}

/// Reading one string literal, past any whitespace before it.
pub open spec fn parse_string(s: Seq<char>) -> Option<(Seq<char>, Seq<char>)> {
    let t = skip_ws(s);
    if t.len() > 0 && t[0] == '"' {
        scan_string(t.drop_first())
    } else {
        None
    }
}

/// Reading one `"key":"value"` pair for the given key.
pub open spec fn parse_field(s: Seq<char>, key: Seq<char>) -> Option<(Seq<char>, Seq<char>)> {
    match expect_lit(s, key) {
        Some(r1) => match expect_ch(r1, ':') {
            Some(r2) => parse_string(r2),
            None => None,
        },
        None => None,
    }
}

/// Reading one task object: the four fields in order, the progress tag one
/// of the three known ones.
pub open spec fn parse_task(s: Seq<char>) -> Option<(TaskV, Seq<char>)> {
    match expect_ch(s, '{') {
        Some(r1) => match parse_field(r1, key_name()) {
            Some((name, r2)) => match expect_ch(r2, ',') {
                Some(r3) => match parse_field(r3, key_description()) {
                    Some((description, r4)) => match expect_ch(r4, ',') {
                        Some(r5) => match parse_field(r5, key_progress()) {
                            Some((ptag, r6)) => match progress_of_tag(ptag) {
                                Some(progress) => match expect_ch(r6, ',') {
                                    Some(r7) => match parse_field(r7, key_created()) {
                                        Some((created, r8)) => match expect_ch(r8, '}') {
                                            Some(r9) => Some(
                                                (
                                                    TaskV { name, description, progress, created },
                                                    r9,
                                                ),
                                            ),
                                            None => None,
                                        },
                                        None => None,
                                    },
                                    None => None,
                                },
                                None => None,
                            },
                            None => None,
                        },
                        None => None,
                    },
                    None => None,
                },
                None => None,
            },
            None => None,
        },
        None => None,
    }
}

/// Reading what follows a task: either the closing bracket, or a comma and
/// a further task, and so on. `fuel` only bounds the recursion; any value
/// at least the number of remaining tasks gives the same answer.
pub open spec fn parse_rest(s: Seq<char>, fuel: nat) -> Option<(Seq<TaskV>, Seq<char>)>
    decreases fuel,
{
    let t = skip_ws(s);
    if t.len() > 0 && t[0] == ']' {
        Some((Seq::empty(), t.drop_first()))
    } else if t.len() > 0 && t[0] == ',' && fuel > 0 {
        match parse_task(t.drop_first()) {
            Some((task, r)) => match parse_rest(r, (fuel - 1) as nat) {
                Some((ts, r2)) => Some((seq![task] + ts, r2)),
                None => None,
            },
            None => None,
        }
    } else {
        None
    }
}

/// Reading a whole document: the array, then nothing but whitespace. An
/// ill-formed document reads as nothing (the caller falls back to an empty
/// list).
pub open spec fn tasks_of_json(s: Seq<char>) -> Option<Seq<TaskV>> {
    match expect_ch(s, '[') {
        Some(r1) => {
            let t = skip_ws(r1);
            if t.len() > 0 && t[0] == ']' {
                if skip_ws(t.drop_first()).len() == 0 {
                    Some(Seq::empty())
                } else {
                    None
                }
            } else {
                match parse_task(r1) {
                    Some((t0, r2)) => match parse_rest(r2, s.len() as nat) {
                        Some((ts, r3)) => if skip_ws(r3).len() == 0 {
                            Some(seq![t0] + ts)
                        } else {
                            None
                        },
                        None => None,
                    },
                    None => None,
                }
            }
        },
        None => None,
    }
}

/// Skipping whitespace does nothing where none leads.
pub proof fn lemma_skip_ws_none(s: Seq<char>)
    requires
        s.len() == 0 || !is_ws(s[0]),
    ensures
        skip_ws(s) == s,
{
}

/// Reading an expected literal off the front of the text that starts with
/// it.
pub proof fn lemma_expect_lit(lit: Seq<char>, rest: Seq<char>)
    requires
        lit.len() > 0,
        !is_ws(lit[0]),
    ensures
        expect_lit(lit + rest, lit) == Some(rest),
{
    let s = lit + rest;
    lemma_skip_ws_none(s);
    assert(s.take(lit.len() as int) =~= lit);
    assert(s.skip(lit.len() as int) =~= rest);
}

/// Reading an expected character off the front of the text that starts
/// with it.
pub proof fn lemma_expect_ch(c: char, rest: Seq<char>)
    requires
        !is_ws(c),
    ensures
        expect_ch(seq![c] + rest, c) == Some(rest),
{
    let s = seq![c] + rest;
    lemma_skip_ws_none(s);
    assert(s.drop_first() =~= rest);
}

/// Reading a rendered string field off the front gives back its text.
pub proof fn lemma_parse_string_json(content: Seq<char>, rest: Seq<char>)
    ensures
        parse_string(string_json(content) + rest) == Some((content, rest)),
{
    let s = string_json(content) + rest;
    lemma_skip_ws_none(s);
    assert(s[0] == '"');
    assert(s.drop_first() =~= esc(content) + seq!['"'] + rest);
    lemma_scan_esc(content, rest);
}

/// Reading a rendered `"key":"value"` pair off the front gives back its
/// value.
pub proof fn lemma_parse_field_json(key: Seq<char>, content: Seq<char>, rest: Seq<char>)
    requires
        key.len() > 0,
        !is_ws(key[0]),
    ensures
        parse_field(key + seq![':'] + string_json(content) + rest, key) == Some((content, rest)),
{
    let s = key + seq![':'] + string_json(content) + rest;
    assert(s =~= key + (seq![':'] + (string_json(content) + rest)));
    lemma_expect_lit(key, seq![':'] + (string_json(content) + rest));
    lemma_expect_ch(':', string_json(content) + rest);
    lemma_parse_string_json(content, rest);
}

/// Reading a rendered task off the front gives back the task.
#[verifier::rlimit(100)]
pub proof fn lemma_parse_task_json(t: TaskV, rest: Seq<char>)
    ensures
        parse_task(task_json(t) + rest) == Some((t, rest)),
{
    let f4 = string_json(t.created) + (seq!['}'] + rest);
    let r7 = key_created() + seq![':'] + f4;
    let f3 = string_json(tag_of(t.progress)) + (seq![','] + r7);
    let r5 = key_progress() + seq![':'] + f3;
    let f2 = string_json(t.description) + (seq![','] + r5);
    let r3 = key_description() + seq![':'] + f2;
    let f1 = string_json(t.name) + (seq![','] + r3);
    let r1 = key_name() + seq![':'] + f1;
    let s = task_json(t) + rest;
    assert(expect_ch(s, '{') == Some(r1)) by {
        assert(s =~= seq!['{'] + r1);
        lemma_expect_ch('{', r1);
    }
    assert(parse_field(r1, key_name()) == Some((t.name, seq![','] + r3))) by {
        assert(r1 =~= key_name() + seq![':'] + string_json(t.name) + (seq![','] + r3));
        lemma_parse_field_json(key_name(), t.name, seq![','] + r3);
    }
    lemma_expect_ch(',', r3);
    assert(parse_field(r3, key_description()) == Some((t.description, seq![','] + r5))) by {
        assert(r3 =~= key_description() + seq![':'] + string_json(t.description) + (seq![',']
            + r5));
        lemma_parse_field_json(key_description(), t.description, seq![','] + r5);
    }
    lemma_expect_ch(',', r5);
    assert(parse_field(r5, key_progress()) == Some((tag_of(t.progress), seq![','] + r7))) by {
        assert(r5 =~= key_progress() + seq![':'] + string_json(tag_of(t.progress)) + (seq![',']
            + r7));
        lemma_parse_field_json(key_progress(), tag_of(t.progress), seq![','] + r7);
    }
    lemma_tag_round_trip(t.progress);
    lemma_expect_ch(',', r7);
    assert(parse_field(r7, key_created()) == Some((t.created, seq!['}'] + rest))) by {
        assert(r7 =~= key_created() + seq![':'] + string_json(t.created) + (seq!['}'] + rest));
        lemma_parse_field_json(key_created(), t.created, seq!['}'] + rest);
    }
    lemma_expect_ch('}', rest);
}

/// The tail after a task holds at least one character per task and the
/// closing bracket.
pub proof fn lemma_tail_json_len(ts: Seq<TaskV>)
    ensures
        tail_json(ts).len() >= ts.len() + 1,
    decreases ts.len(),
{
    if ts.len() > 0 {
        lemma_tail_json_len(ts.drop_first());
    }
}

/// Reading the rendered tail after a task gives back the remaining tasks,
/// whatever fuel at least their number is left.
#[verifier::rlimit(100)]
pub proof fn lemma_parse_rest_json(ts: Seq<TaskV>, rest: Seq<char>, fuel: nat)
    requires
        fuel >= ts.len(),
    ensures
        parse_rest(tail_json(ts) + rest, fuel) == Some((ts, rest)),
    decreases ts.len(),
{
    let s = tail_json(ts) + rest;
    lemma_skip_ws_none(s);
    if ts.len() == 0 {
        assert(s =~= seq![']'] + rest);
        assert(s.drop_first() =~= rest);
        assert(Seq::<TaskV>::empty() =~= ts);
    } else {
        assert(s =~= seq![','] + (task_json(ts[0]) + (tail_json(ts.drop_first()) + rest)));
        assert(s[0] == ',');
        assert(s.drop_first() =~= task_json(ts[0]) + (tail_json(ts.drop_first()) + rest));
        lemma_parse_task_json(ts[0], tail_json(ts.drop_first()) + rest);
        lemma_parse_rest_json(ts.drop_first(), rest, (fuel - 1) as nat);
        assert(seq![ts[0]] + ts.drop_first() =~= ts);
    }
}

/// The round trip: parsing what was rendered yields exactly the original
/// task list, for every task list.
#[verifier::rlimit(100)]
pub proof fn lemma_json_round_trip(ts: Seq<TaskV>)
    ensures
        tasks_of_json(json_of(ts)) == Some(ts),
{
    let s = json_of(ts);
    if ts.len() == 0 {
        assert(s =~= seq!['['] + seq![']']);
        lemma_expect_ch('[', seq![']']);
        let r1 = seq![']'];
        lemma_skip_ws_none(r1);
        assert(r1.drop_first() =~= Seq::<char>::empty());
        assert(Seq::<TaskV>::empty() =~= ts);
    } else {
        let ts1 = ts.drop_first();
        let r1 = task_json(ts[0]) + (tail_json(ts1) + Seq::<char>::empty());
        assert(s =~= seq!['['] + r1);
        lemma_expect_ch('[', r1);
        lemma_skip_ws_none(r1);
        assert(task_json(ts[0])[0] == '{');
        assert(r1[0] == '{');
        lemma_parse_task_json(ts[0], tail_json(ts1) + Seq::<char>::empty());
        lemma_tail_json_len(ts1);
        assert((tail_json(ts1) + Seq::<char>::empty()).len() <= s.len());
        lemma_parse_rest_json(ts1, Seq::<char>::empty(), s.len() as nat);
        assert(seq![ts[0]] + ts1 =~= ts);
    }
}

/// Appends `src` to `out`.
fn append_chars(out: &mut Vec<char>, src: &Vec<char>)
    ensures
        final(out)@ == old(out)@ + src@,
{
    let mut i: usize = 0;
    proof {
        assert(out@ =~= old(out)@ + src@.take(0));
    }
    while i < src.len()
        invariant
            0 <= i <= src.len(),
            out@ == old(out)@ + src@.take(i as int),
        decreases src.len() - i,
    {
        out.push(src[i]);
        proof {
            assert(out@ =~= old(out)@ + src@.take(i + 1));
        }
        i += 1;
    }
    proof {
        assert(src@.take(src@.len() as int) =~= src@);
    }
}

/// Appends the escaped characters of `s` to `out`.
fn append_escaped(out: &mut Vec<char>, s: &Vec<char>)
    ensures
        final(out)@ == old(out)@ + esc(s@),
{
    let mut i: usize = 0;
    proof {
        assert(esc(s@.take(0)) =~= Seq::<char>::empty());
        assert(out@ =~= old(out)@ + esc(s@.take(0)));
    }
    while i < s.len()
        invariant
            0 <= i <= s.len(),
            out@ == old(out)@ + esc(s@.take(i as int)),
        decreases s.len() - i,
    {
        let c = s[i];
        if c == '"' || c == '\\' {
            out.push('\\');
            out.push(c);
        } else {
            out.push(c);
        }
        proof {
            assert(s@.take(i + 1).drop_last() =~= s@.take(i as int));
            assert(s@.take(i + 1).last() == s@[i as int]);
            assert(esc(s@.take(i + 1)) == esc(s@.take(i as int)) + esc_char(s@[i as int]));
            assert(out@ =~= old(out)@ + esc(s@.take(i + 1)));
        }
        i += 1;
    }
    proof {
        assert(s@.take(s@.len() as int) =~= s@);
    }
}

/// Appends one quoted, escaped string field to `out`.
fn append_string_json(out: &mut Vec<char>, s: &Vec<char>)
    ensures
        final(out)@ == old(out)@ + string_json(s@),
{
    out.push('"');
    append_escaped(out, s);
    out.push('"');
    proof {
        assert(out@ =~= old(out)@ + string_json(s@));
    }
}

/// The tag a progress state is written as.
pub fn progress_tag_chars(p: &Progress) -> (r: Vec<char>)
    ensures
        r@ == tag_of(*p),
{
    let r = match p {
        Progress::InProgress => vec!['I', 'n', 'P', 'r', 'o', 'g', 'r', 'e', 's', 's'],
        Progress::Waiting => vec!['W', 'a', 'i', 't', 'i', 'n', 'g'],
        Progress::Done => vec!['D', 'o', 'n', 'e'],
    };
    proof {
        assert(r@ =~= tag_of(*p));
    }
    r
}

/// The progress state a tag names, if any.
fn progress_from_tag(tag: &Vec<char>) -> (r: Option<Progress>)
    ensures
        r == progress_of_tag(tag@),
{
    if eq_chars(tag, &progress_tag_chars(&Progress::InProgress)) {
        Some(Progress::InProgress)
    } else if eq_chars(tag, &progress_tag_chars(&Progress::Waiting)) {
        Some(Progress::Waiting)
    } else if eq_chars(tag, &progress_tag_chars(&Progress::Done)) {
        Some(Progress::Done)
    } else {
        None
    }
}

/// The quoted key before a task's name.
fn key_name_chars() -> (r: Vec<char>)
    ensures
        r@ == key_name(),
{
    let r = vec!['"', 'n', 'a', 'm', 'e', '"'];
    proof {
        assert(r@ =~= key_name());
    }
    r
}

/// The quoted key before a task's description.
fn key_description_chars() -> (r: Vec<char>)
    ensures
        r@ == key_description(),
{
    let r = vec!['"', 'd', 'e', 's', 'c', 'r', 'i', 'p', 't', 'i', 'o', 'n', '"'];
    proof {
        assert(r@ =~= key_description());
    }
    r
}

/// The quoted key before a task's progress tag.
fn key_progress_chars() -> (r: Vec<char>)
    ensures
        r@ == key_progress(),
{
    let r = vec!['"', 'p', 'r', 'o', 'g', 'r', 'e', 's', 's', '"'];
    proof {
        assert(r@ =~= key_progress());
    }
    r
}

/// The quoted key before a task's creation timestamp.
fn key_created_chars() -> (r: Vec<char>)
    ensures
        r@ == key_created(),
{
    let r = vec!['"', 'c', 'r', 'e', 'a', 't', 'e', 'd', '"'];
    proof {
        assert(r@ =~= key_created());
    }
    r
}

/// Appends one rendered task object to `out`.
#[verifier::rlimit(100)]
fn append_task_json(out: &mut Vec<char>, t: &Task)
    ensures
        final(out)@ == old(out)@ + task_json(t@),
{
    out.push('{');
    append_chars(out, &key_name_chars());
    out.push(':');
    append_string_json(out, &t.name);
    out.push(',');
    append_chars(out, &key_description_chars());
    out.push(':');
    append_string_json(out, &t.description);
    out.push(',');
    append_chars(out, &key_progress_chars());
    out.push(':');
    append_string_json(out, &progress_tag_chars(&t.progress));
    out.push(',');
    append_chars(out, &key_created_chars());
    out.push(':');
    append_string_json(out, &t.created);
    out.push('}');
    proof {
        assert(out@ =~= old(out)@ + task_json(t@));
    }
}

/// Appends the rendered tail after the array's first task: a comma and a
/// task for each further one, then the closing bracket.
fn append_tail_json(out: &mut Vec<char>, items: &Vec<Task>, i: usize)
    requires
        i <= items.len(),
    ensures
        final(out)@ == old(out)@ + tail_json(items.deep_view().skip(i as int)),
    decreases items.len() - i,
{
    let ghost dv = items.deep_view();
    if i == items.len() {
        out.push(']');
        proof {
            assert(dv.skip(i as int) =~= Seq::<TaskV>::empty());
            assert(out@ =~= old(out)@ + tail_json(dv.skip(i as int)));
        }
    } else {
        out.push(',');
        append_task_json(out, &items[i]);
        append_tail_json(out, items, i + 1);
        proof {
            assert(dv.skip(i as int)[0] == dv[i as int]);
            assert(dv.skip(i as int).drop_first() =~= dv.skip(i + 1));
            assert(out@ =~= old(out)@ + tail_json(dv.skip(i as int)));
        }
    }
}

/// Renders the whole task list as its JSON array.
pub fn to_json(items: &Vec<Task>) -> (r: Vec<char>)
    ensures
        r@ == json_of(items.deep_view()),
{
    let ghost dv = items.deep_view();
    if items.len() == 0 {
        let r = vec!['[', ']'];
        proof {
            assert(r@ =~= json_of(dv));
        }
        r
    } else {
        let mut out = vec!['['];
        append_task_json(&mut out, &items[0]);
        append_tail_json(&mut out, items, 1);
        proof {
            assert(dv.skip(1) =~= dv.drop_first());
            assert(out@ =~= json_of(dv));
        }
        out
    }
}

/// Relies on `char::from_u32` of std: it answers the character with the
/// given code, and nothing exactly when the code is a surrogate
/// (`0xD800..=0xDFFF`) or above `0x10FFFF`, the values no character has.
pub assume_specification[ char::from_u32 ](u: u32) -> (r: Option<char>)
    ensures
        match r {
            Some(c) => (u < 0xd800 || (0xe000 <= u && u <= 0x10ffff)) && c as u32 == u,
            None => !(u < 0xd800 || (0xe000 <= u && u <= 0x10ffff)),
        },
;

/// The numeric value of a hexadecimal digit, or nothing.
fn hex_val_digit(c: char) -> (r: Option<u32>)
    ensures
        match r {
            Some(v) => v < 16 && hex_val(c) == Some(v as int),
            None => hex_val(c) is None,
        },
{
    if c >= '0' && c <= '9' {
        Some(c as u32 - '0' as u32)
    } else if c >= 'a' && c <= 'f' {
        Some(c as u32 - 'a' as u32 + 10)
    } else if c >= 'A' && c <= 'F' {
        Some(c as u32 - 'A' as u32 + 10)
    } else {
        None
    }
}

/// The character a single escape letter stands for, or nothing.
fn esc_letter_char(c: char) -> (r: Option<char>)
    ensures
        r == esc_letter(c),
{
    if c == '"' {
        Some('"')
    } else if c == '\\' {
        Some('\\')
    } else if c == '/' {
        Some('/')
    } else if c == 'b' {
        Some('\u{0008}')
    } else if c == 'f' {
        Some('\u{000c}')
    } else if c == 'n' {
        Some('\n')
    } else if c == 'r' {
        Some('\r')
    } else if c == 't' {
        Some('\t')
    } else {
        None
    }
}

/// The character four hexadecimal digits of a `\u` escape name, or nothing.
fn unescape_u_chars(c1: char, c2: char, c3: char, c4: char) -> (r: Option<char>)
    ensures
        r == unescape_u(c1, c2, c3, c4),
{
    let h1 = match hex_val_digit(c1) {
        Some(v) => v,
        None => {
            return None;
        },
    };
    let h2 = match hex_val_digit(c2) {
        Some(v) => v,
        None => {
            return None;
        },
    };
    let h3 = match hex_val_digit(c3) {
        Some(v) => v,
        None => {
            return None;
        },
    };
    let h4 = match hex_val_digit(c4) {
        Some(v) => v,
        None => {
            return None;
        },
    };
    let code: u32 = h1 * 4096 + h2 * 256 + h3 * 16 + h4;
    if code < 0xd800 || code >= 0xe000 {
        match char::from_u32(code) {
            Some(c) => {
                proof {
                    vstd::utf8::char_u32_cast(c, code);
                }
                Some(c)
            },
            None => {
                proof {
                    assert(false);
                }
                None
            },
        }
    } else {
        None
    }
}

/// Skips whitespace from `i` on; answers the first index holding none.
fn skip_ws_idx(s: &Vec<char>, i: usize) -> (j: usize)
    requires
        i <= s.len(),
    ensures
        i <= j <= s.len(),
        skip_ws(s@.skip(i as int)) == s@.skip(j as int),
{
    let mut j = i;
    while j < s.len()
        invariant
            i <= j <= s.len(),
            skip_ws(s@.skip(i as int)) == skip_ws(s@.skip(j as int)),
        decreases s.len() - j,
    {
        let c = s[j];
        if !(c == ' ' || c == '\n' || c == '\r' || c == '\t') {
            proof {
                assert(s@.skip(j as int)[0] == s@[j as int]);
            }
            return j;
        }
        proof {
            assert(s@.skip(j as int)[0] == s@[j as int]);
            assert(s@.skip(j as int).drop_first() =~= s@.skip(j + 1));
        }
        j += 1;
    }
    proof {
        assert(s@.skip(j as int) =~= Seq::<char>::empty());
    }
    j
}

/// Reads one expected character, past any whitespace before it.
fn expect_ch_idx(s: &Vec<char>, i: usize, c: char) -> (r: Option<usize>)
    requires
        i <= s.len(),
    ensures
        match r {
            Some(k) => k <= s.len() && expect_ch(s@.skip(i as int), c) == Some(s@.skip(k as int)),
            None => expect_ch(s@.skip(i as int), c) is None,
        },
{
    let j = skip_ws_idx(s, i);
    if j < s.len() && s[j] == c {
        proof {
            assert(s@.skip(j as int)[0] == s@[j as int]);
            assert(s@.skip(j as int).drop_first() =~= s@.skip(j + 1));
        }
        Some(j + 1)
    } else {
        proof {
            if j < s.len() {
                assert(s@.skip(j as int)[0] == s@[j as int]);
            }
        }
        None
    }
}

/// Reads an expected literal, past any whitespace before it.
fn expect_lit_idx(s: &Vec<char>, i: usize, lit: &Vec<char>) -> (r: Option<usize>)
    requires
        i <= s.len(),
    ensures
        match r {
            Some(k) => k <= s.len() && expect_lit(s@.skip(i as int), lit@) == Some(
                s@.skip(k as int),
            ),
            None => expect_lit(s@.skip(i as int), lit@) is None,
        },
{
    let j = skip_ws_idx(s, i);
    let ghost t = s@.skip(j as int);
    if s.len() - j < lit.len() {
        return None;
    }
    let mut k: usize = 0;
    while k < lit.len()
        invariant
            0 <= k <= lit.len(),
            j + lit.len() <= s.len(),
            t == s@.skip(j as int),
            t == skip_ws(s@.skip(i as int)),
            forall|m: int| 0 <= m < k ==> t[m] == lit@[m],
        decreases lit.len() - k,
    {
        if s[j + k] != lit[k] {
            proof {
                assert(t[k as int] == s@[j + k]);
                assert(t.take(lit@.len() as int)[k as int] != lit@[k as int]);
            }
            return None;
        }
        proof {
            assert(t[k as int] == s@[j + k]);
        }
        k += 1;
    }
    proof {
        assert(t.take(lit@.len() as int) =~= lit@);
        assert(t.skip(lit@.len() as int) =~= s@.skip(j + lit@.len()));
    }
    Some(j + lit.len())
}

/// Reads a string literal's body from `i` (just past the opening quote) up
/// to its closing quote.
fn scan_string_idx(s: &Vec<char>, i: usize) -> (r: Option<(Vec<char>, usize)>)
    requires
        i <= s.len(),
    ensures
        match r {
            Some(p) => p.1 <= s.len() && scan_string(s@.skip(i as int)) == Some(
                (p.0@, s@.skip(p.1 as int)),
            ),
            None => scan_string(s@.skip(i as int)) is None,
        },
    decreases s.len() - i,
{
    proof {
        reveal(scan_string);
    }
    if i == s.len() {
        proof {
            assert(s@.skip(i as int) =~= Seq::<char>::empty());
        }
        return None;
    }
    let c = s[i];
    proof {
        assert(s@.skip(i as int)[0] == s@[i as int]);
    }
    if c == '"' {
        proof {
            assert(s@.skip(i as int).drop_first() =~= s@.skip(i + 1));
        }
        Some((Vec::new(), i + 1))
    } else if c == '\\' {
        proof {
            if i + 1 < s.len() {
                assert(s@.skip(i as int)[1] == s@[i + 1]);
            } else {
                assert(s@.skip(i as int).len() == 1);
            }
        }
        if i + 1 < s.len() && s[i + 1] == 'u' {
            if s.len() - i >= 6 {
                proof {
                    assert(s@.skip(i as int)[2] == s@[i + 2]);
                    assert(s@.skip(i as int)[3] == s@[i + 3]);
                    assert(s@.skip(i as int)[4] == s@[i + 4]);
                    assert(s@.skip(i as int)[5] == s@[i + 5]);
                    assert(s@.skip(i as int).skip(6) =~= s@.skip(i + 6));
                }
                match unescape_u_chars(s[i + 2], s[i + 3], s[i + 4], s[i + 5]) {
                    Some(uc) => match scan_string_idx(s, i + 6) {
                        Some((t, k)) => {
                            let mut t2 = t;
                            let ghost tv = t2@;
                            t2.insert(0, uc);
                            proof {
                                assert(t2@ =~= seq![uc] + tv);
                            }
                            Some((t2, k))
                        },
                        None => None,
                    },
                    None => None,
                }
            } else {
                proof {
                    assert(s@.skip(i as int).len() < 6);
                }
                None
            }
        } else if i + 1 < s.len() {
            match esc_letter_char(s[i + 1]) {
                Some(ec) => {
                    proof {
                        assert(s@.skip(i as int).skip(2) =~= s@.skip(i + 2));
                    }
                    match scan_string_idx(s, i + 2) {
                        Some((t, k)) => {
                            let mut t2 = t;
                            let ghost tv = t2@;
                            t2.insert(0, ec);
                            proof {
                                assert(t2@ =~= seq![ec] + tv);
                            }
                            Some((t2, k))
                        },
                        None => None,
                    }
                },
                None => None,
            }
        } else {
            None
        }
    } else {
        match scan_string_idx(s, i + 1) {
            Some((t, k)) => {
                proof {
                    assert(s@.skip(i as int).drop_first() =~= s@.skip(i + 1));
                }
                let mut t2 = t;
                let ghost tv = t2@;
                t2.insert(0, c);
                proof {
                    assert(t2@ =~= seq![s@[i as int]] + tv);
                }
                Some((t2, k))
            },
            None => {
                proof {
                    assert(s@.skip(i as int).drop_first() =~= s@.skip(i + 1));
                }
                None
            },
        }
    }
}

/// Reads one string literal, past any whitespace before it.
fn parse_string_idx(s: &Vec<char>, i: usize) -> (r: Option<(Vec<char>, usize)>)
    requires
        i <= s.len(),
    ensures
        match r {
            Some(p) => p.1 <= s.len() && parse_string(s@.skip(i as int)) == Some(
                (p.0@, s@.skip(p.1 as int)),
            ),
            None => parse_string(s@.skip(i as int)) is None,
        },
{
    let j = skip_ws_idx(s, i);
    if j < s.len() && s[j] == '"' {
        proof {
            assert(s@.skip(j as int)[0] == s@[j as int]);
            assert(s@.skip(j as int).drop_first() =~= s@.skip(j + 1));
        }
        scan_string_idx(s, j + 1)
    } else {
        proof {
            if j < s.len() {
                assert(s@.skip(j as int)[0] == s@[j as int]);
            }
        }
        None
    }
}

/// Reads one `"key":"value"` pair for the given key.
fn parse_field_idx(s: &Vec<char>, i: usize, key: &Vec<char>) -> (r: Option<(Vec<char>, usize)>)
    requires
        i <= s.len(),
    ensures
        match r {
            Some(p) => p.1 <= s.len() && parse_field(s@.skip(i as int), key@) == Some(
                (p.0@, s@.skip(p.1 as int)),
            ),
            None => parse_field(s@.skip(i as int), key@) is None,
        },
{
    match expect_lit_idx(s, i, key) {
        Some(r1) => match expect_ch_idx(s, r1, ':') {
            Some(r2) => parse_string_idx(s, r2),
            None => None,
        },
        None => None,
    }
}

/// Reads one task object.
fn parse_task_idx(s: &Vec<char>, i: usize) -> (r: Option<(Task, usize)>)
    requires
        i <= s.len(),
    ensures
        match r {
            Some(p) => p.1 <= s.len() && parse_task(s@.skip(i as int)) == Some(
                (p.0@, s@.skip(p.1 as int)),
            ),
            None => parse_task(s@.skip(i as int)) is None,
        },
{
    let r1 = match expect_ch_idx(s, i, '{') {
        Some(j) => j,
        None => {
            return None;
        },
    };
    let (name, r2) = match parse_field_idx(s, r1, &key_name_chars()) {
        Some(p) => p,
        None => {
            return None;
        },
    };
    let r3 = match expect_ch_idx(s, r2, ',') {
        Some(j) => j,
        None => {
            return None;
        },
    };
    let (description, r4) = match parse_field_idx(s, r3, &key_description_chars()) {
        Some(p) => p,
        None => {
            return None;
        },
    };
    let r5 = match expect_ch_idx(s, r4, ',') {
        Some(j) => j,
        None => {
            return None;
        },
    };
    let (ptag, r6) = match parse_field_idx(s, r5, &key_progress_chars()) {
        Some(p) => p,
        None => {
            return None;
        },
    };
    let progress = match progress_from_tag(&ptag) {
        Some(p) => p,
        None => {
            return None;
        },
    };
    let r7 = match expect_ch_idx(s, r6, ',') {
        Some(j) => j,
        None => {
            return None;
        },
    };
    let (created, r8) = match parse_field_idx(s, r7, &key_created_chars()) {
        Some(p) => p,
        None => {
            return None;
        },
    };
    let r9 = match expect_ch_idx(s, r8, '}') {
        Some(j) => j,
        None => {
            return None;
        },
    };
    Some((Task { name, description, progress, created }, r9))
}

/// Reads what follows a task: the closing bracket, or a comma and a
/// further task, and so on.
fn parse_rest_idx(s: &Vec<char>, i: usize, fuel: usize) -> (r: Option<(Vec<Task>, usize)>)
    requires
        i <= s.len(),
    ensures
        match r {
            Some(p) => p.1 <= s.len() && parse_rest(s@.skip(i as int), fuel as nat) == Some(
                (p.0.deep_view(), s@.skip(p.1 as int)),
            ),
            None => parse_rest(s@.skip(i as int), fuel as nat) is None,
        },
    decreases fuel,
{
    let j = skip_ws_idx(s, i);
    if j < s.len() && s[j] == ']' {
        let empty: Vec<Task> = Vec::new();
        proof {
            assert(s@.skip(j as int)[0] == s@[j as int]);
            assert(s@.skip(j as int).drop_first() =~= s@.skip(j + 1));
            assert(empty.deep_view() =~= Seq::<TaskV>::empty());
        }
        Some((empty, j + 1))
    } else if j < s.len() && s[j] == ',' && fuel > 0 {
        proof {
            assert(s@.skip(j as int)[0] == s@[j as int]);
            assert(s@.skip(j as int).drop_first() =~= s@.skip(j + 1));
        }
        match parse_task_idx(s, j + 1) {
            Some((task, r1)) => match parse_rest_idx(s, r1, fuel - 1) {
                Some((ts, r2)) => {
                    let mut ts2 = ts;
                    let ghost tsv = ts2.deep_view();
                    let ghost taskv = task@;
                    ts2.insert(0, task);
                    proof {
                        assert(ts2.deep_view() =~= seq![taskv] + tsv);
                    }
                    Some((ts2, r2))
                },
                None => None,
            },
            None => None,
        }
    } else {
        proof {
            if j < s.len() {
                assert(s@.skip(j as int)[0] == s@[j as int]);
            } else {
                assert(s@.skip(j as int) =~= Seq::<char>::empty());
            }
        }
        None
    }
}

/// Parses a whole document into its task list; an ill-formed one reads as
/// nothing, and the caller falls back to an empty list.
pub fn from_json(s: &Vec<char>) -> (r: Option<Vec<Task>>)
    ensures
        match r {
            Some(v) => tasks_of_json(s@) == Some(v.deep_view()),
            None => tasks_of_json(s@) is None,
        },
{
    proof {
        assert(s@.skip(0) =~= s@);
    }
    let r1 = match expect_ch_idx(s, 0, '[') {
        Some(j) => j,
        None => {
            return None;
        },
    };
    let j = skip_ws_idx(s, r1);
    if j < s.len() && s[j] == ']' {
        proof {
            assert(s@.skip(j as int)[0] == s@[j as int]);
            assert(s@.skip(j as int).drop_first() =~= s@.skip(j + 1));
        }
        let k = skip_ws_idx(s, j + 1);
        if k == s.len() {
            let empty: Vec<Task> = Vec::new();
            proof {
                assert(s@.skip(k as int) =~= Seq::<char>::empty());
                assert(empty.deep_view() =~= Seq::<TaskV>::empty());
            }
            Some(empty)
        } else {
            proof {
                assert(s@.skip(k as int).len() > 0);
            }
            None
        }
    } else {
        proof {
            if j < s.len() {
                assert(s@.skip(j as int)[0] == s@[j as int]);
            } else {
                assert(s@.skip(j as int) =~= Seq::<char>::empty());
            }
        }
        let (t0, r2) = match parse_task_idx(s, r1) {
            Some(p) => p,
            None => {
                return None;
            },
        };
        let (ts, r3) = match parse_rest_idx(s, r2, s.len()) {
            Some(p) => p,
            None => {
                return None;
            },
        };
        let k = skip_ws_idx(s, r3);
        if k == s.len() {
            let mut ts2 = ts;
            let ghost tsv = ts2.deep_view();
            let ghost t0v = t0@;
            ts2.insert(0, t0);
            proof {
                assert(s@.skip(k as int) =~= Seq::<char>::empty());
                assert(ts2.deep_view() =~= seq![t0v] + tsv);
            }
            Some(ts2)
        } else {
            proof {
                assert(s@.skip(k as int).len() > 0);
            }
            None
        }
    }
}

} // verus!
