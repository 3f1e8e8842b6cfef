//! Readline-style editing of the search entry: key bindings, cursor
//! motion, kills and yanks, and recent-search navigation.

use vstd::prelude::*;
use crate::text::{
    alphanumeric, chars_eq, copy_range, from_chars, is_alphanumeric, is_whitespace, is_whitespace_spec, to_chars,
};

verus! {

/// Key value of the lower-case letter `a` (letters follow in ASCII order).
pub const KEY_A: u32 = 0x61;
/// Key value of the Backspace key.
pub const KEY_BACKSPACE: u32 = 0xff08;
/// Modifier bit of the Control key.
pub const CONTROL_MASK: u32 = 0x4;
/// Modifier bit of the Alt key.
pub const ALT_MASK: u32 = 0x8;
/// Modifier bit of the Meta key.
pub const META_MASK: u32 = 0x1000_0000;

/// An editing command bound to a key.
#[derive(Clone, Copy, Debug, PartialEq, Eq, Structural)]
pub enum Command {
    BeginningOfLine,
    EndOfLine,
    BackwardChar,
    ForwardChar,
    BackwardWord,
    ForwardWord,
    BackwardDeleteChar,
    DeleteChar,
    UnixWordRubout,
    BackwardKillWord,
    KillWord,
    UnixLineDiscard,
    KillLine,
    Yank,
    TransposeChars,
    PreviousHistory,
    NextHistory,
}

/// The key value of the lower-case letter `c`.
pub open spec fn letter(c: char) -> u32 {
    c as u32
}

/// The command bound to the lower-cased key value `key` under the modifier
/// bits `modifiers`: Control chords alone, or Alt/Meta chords alone.
pub open spec fn command_for_key_spec(key: u32, modifiers: u32) -> Option<Command> {
    let control = modifiers & CONTROL_MASK != 0;
    let alt = modifiers & (ALT_MASK | META_MASK) != 0;
    if control && !alt {
        if key == letter('a') {
            Some(Command::BeginningOfLine)
        } else if key == letter('e') {
            Some(Command::EndOfLine)
        } else if key == letter('b') {
            Some(Command::BackwardChar)
        } else if key == letter('f') {
            Some(Command::ForwardChar)
        } else if key == letter('h') {
            Some(Command::BackwardDeleteChar)
        } else if key == letter('d') {
            Some(Command::DeleteChar)
        } else if key == letter('w') {
            Some(Command::UnixWordRubout)
        } else if key == letter('u') {
            Some(Command::UnixLineDiscard)
        } else if key == letter('k') {
            Some(Command::KillLine)
        } else if key == letter('y') {
            Some(Command::Yank)
        } else if key == letter('t') {
            Some(Command::TransposeChars)
        } else if key == letter('p') {
            Some(Command::PreviousHistory)
        } else if key == letter('n') {
            Some(Command::NextHistory)
        } else {
            None
        }
    } else if !control && alt {
        if key == letter('b') {
            Some(Command::BackwardWord)
        } else if key == letter('f') {
            Some(Command::ForwardWord)
        } else if key == letter('d') {
            Some(Command::KillWord)
        } else if key == KEY_BACKSPACE {
            Some(Command::BackwardKillWord)
        } else {
            None
        }
    } else {
        None
    }
}

/// The command bound to the lower-cased key value `key` with the modifier
/// bits `modifiers`, if any.
pub fn command_for_key(key: u32, modifiers: u32) -> (r: Option<Command>)
    ensures
        r == command_for_key_spec(key, modifiers),
{
    let control = modifiers & CONTROL_MASK != 0;
    let alt = modifiers & (ALT_MASK | META_MASK) != 0;
    if control && !alt {
        if key == 'a' as u32 {
            Some(Command::BeginningOfLine)
        } else if key == 'e' as u32 {
            Some(Command::EndOfLine)
        } else if key == 'b' as u32 {
            Some(Command::BackwardChar)
        } else if key == 'f' as u32 {
            Some(Command::ForwardChar)
        } else if key == 'h' as u32 {
            Some(Command::BackwardDeleteChar)
        } else if key == 'd' as u32 {
            Some(Command::DeleteChar)
        } else if key == 'w' as u32 {
            Some(Command::UnixWordRubout)
        } else if key == 'u' as u32 {
            Some(Command::UnixLineDiscard)
        } else if key == 'k' as u32 {
            Some(Command::KillLine)
        } else if key == 'y' as u32 {
            Some(Command::Yank)
        } else if key == 't' as u32 {
            Some(Command::TransposeChars)
        } else if key == 'p' as u32 {
            Some(Command::PreviousHistory)
        } else if key == 'n' as u32 {
            Some(Command::NextHistory)
        } else {
            None
        }
    } else if !control && alt {
        if key == 'b' as u32 {
            Some(Command::BackwardWord)
        } else if key == 'f' as u32 {
            Some(Command::ForwardWord)
        } else if key == 'd' as u32 {
            Some(Command::KillWord)
        } else if key == KEY_BACKSPACE {
            Some(Command::BackwardKillWord)
        } else {
            None
        }
    } else {
        None
    }
}

/// Whether `c` belongs to a word: alphanumeric or `_`.
pub open spec fn is_word_char_spec(c: char) -> bool {
    alphanumeric(c) || c == '_'
}

/// Whether `c` belongs to a word: alphanumeric or `_`.
pub fn is_word_char(c: char) -> (r: bool)
    ensures
        r == is_word_char_spec(c),
{
    is_alphanumeric(c) || c == '_'
}

/// Moves back from `i` over characters whose word-ness equals `word`.
pub open spec fn back_over_words(s: Seq<char>, i: int, word: bool) -> int
    decreases i,
{
    if 0 < i <= s.len() && is_word_char_spec(s[i - 1]) == word {
        back_over_words(s, i - 1, word)
    } else {
        i
    }
}

/// Moves forward from `i` over characters whose word-ness equals `word`.
pub open spec fn forward_over_words(s: Seq<char>, i: int, word: bool) -> int
    decreases s.len() - i,
{
    if 0 <= i < s.len() && is_word_char_spec(s[i]) == word {
        forward_over_words(s, i + 1, word)
    } else {
        i
    }
}

/// Moves back from `i` over characters whose whitespace-ness equals `space`.
pub open spec fn back_over_spaces(s: Seq<char>, i: int, space: bool) -> int
    decreases i,
{
    if 0 < i <= s.len() && is_whitespace_spec(s[i - 1]) == space {
        back_over_spaces(s, i - 1, space)
    } else {
        i
    }
}

/// Start of the word before `cursor`: back over non-word characters, then
/// over word characters.
pub open spec fn backward_word_start_spec(s: Seq<char>, cursor: int) -> int {
    back_over_words(s, back_over_words(s, min_int(cursor, s.len() as int), false), true)
}

/// Start of the whitespace-delimited word before `cursor`.
pub open spec fn backward_whitespace_word_start_spec(s: Seq<char>, cursor: int) -> int {
    back_over_spaces(s, back_over_spaces(s, min_int(cursor, s.len() as int), true), false)
}

/// End of the word after `cursor`: forward over non-word characters, then
/// over word characters.
pub open spec fn forward_word_end_spec(s: Seq<char>, cursor: int) -> int {
    forward_over_words(s, forward_over_words(s, min_int(cursor, s.len() as int), false), true)
}

/// The smaller of two integers.
pub open spec fn min_int(a: int, b: int) -> int {
    if a <= b {
        a
    } else {
        b
    }
}

/// A selection clipped to `len` and ordered; `None` when it is empty.
pub open spec fn normalized_selection_spec(selection: Option<(usize, usize)>, len: int) -> Option<
    (int, int),
> {
    match selection {
        None => None,
        Some((a, b)) => {
            let s = min_int(a as int, len);
            let e = min_int(b as int, len);
            let lo = min_int(s, e);
            let hi = if s <= e {
                e
            } else {
                s
            };
            if lo != hi {
                Some((lo, hi))
            } else {
                None
            }
        },
    }
}

/// `s` with the characters in `[a, b)` removed.
pub open spec fn cut(s: Seq<char>, a: int, b: int) -> Seq<char> {
    s.subrange(0, a) + s.subrange(b, s.len() as int)
}

/// Text and kill buffer after killing the range `[a, b)`: an empty range
/// changes neither.
pub open spec fn kill_spec(s: Seq<char>, a: int, b: int, kill: Seq<char>) -> (Seq<char>, Seq<char>) {
    if a >= b {
        (s, kill)
    } else {
        (cut(s, a, b), s.subrange(a, b))
    }
}

/// Result of an editing command: the new text, the new cursor, and the new
/// kill buffer.
pub open spec fn edit_spec(
    s: Seq<char>,
    cursor: int,
    selection: Option<(usize, usize)>,
    command: Command,
    kill: Seq<char>,
) -> (Seq<char>, int, Seq<char>) {
    let len = s.len() as int;
    let c = min_int(cursor, len);
    let sel = normalized_selection_spec(selection, len);
    match command {
        Command::BeginningOfLine => (s, 0, kill),
        Command::EndOfLine => (s, len, kill),
        Command::BackwardChar => (s, if c > 0 { c - 1 } else { 0 }, kill),
        Command::ForwardChar => (s, min_int(c + 1, len), kill),
        Command::BackwardWord => (s, backward_word_start_spec(s, c), kill),
        Command::ForwardWord => (s, forward_word_end_spec(s, c), kill),
        Command::BackwardDeleteChar => match sel {
            Some((a, b)) => (cut(s, a, b), a, kill),
            None => if c > 0 {
                (cut(s, c - 1, c), c - 1, kill)
            } else {
                (s, c, kill)
            },
        },
        Command::DeleteChar => match sel {
            Some((a, b)) => (cut(s, a, b), a, kill),
            None => if c < len {
                (cut(s, c, c + 1), c, kill)
            } else {
                (s, c, kill)
            },
        },
        Command::UnixWordRubout => {
            let (a, b) = match sel {
                Some(r) => r,
                None => (backward_whitespace_word_start_spec(s, c), c),
            };
            let k = kill_spec(s, a, b, kill);
            (k.0, a, k.1)
        },
        Command::BackwardKillWord => {
            let (a, b) = match sel {
                Some(r) => r,
                None => (backward_word_start_spec(s, c), c),
            };
            let k = kill_spec(s, a, b, kill);
            (k.0, a, k.1)
        },
        Command::KillWord => {
            let (a, b) = match sel {
                Some(r) => r,
                None => (c, forward_word_end_spec(s, c)),
            };
            let k = kill_spec(s, a, b, kill);
            (k.0, a, k.1)
        },
        Command::UnixLineDiscard => {
            let (a, b) = match sel {
                Some(r) => r,
                None => (0, c),
            };
            let k = kill_spec(s, a, b, kill);
            (k.0, a, k.1)
        },
        Command::KillLine => {
            let (a, b) = match sel {
                Some(r) => r,
                None => (c, len),
            };
            let k = kill_spec(s, a, b, kill);
            (k.0, a, k.1)
        },
        Command::Yank => if kill.len() > 0 {
            let (a, b) = match sel {
                Some(r) => r,
                None => (c, c),
            };
            (s.subrange(0, a) + kill + s.subrange(b, len), a + kill.len(), kill)
        } else {
            (s, c, kill)
        },
        Command::TransposeChars => if c > 0 && len > 1 {
            let right = if c == len {
                c - 1
            } else {
                c
            };
            (s.update(right - 1, s[right]).update(right, s[right - 1]), min_int(right + 1, len), kill)
        } else {
            (s, c, kill)
        },
        Command::PreviousHistory | Command::NextHistory => (s, c, kill),
    }
}

/// Whether `command` edits the text rather than navigating the history.
pub open spec fn is_edit_command(command: Command) -> bool {
    command != Command::PreviousHistory && command != Command::NextHistory
}

/// Text and cursor produced by an editing command.
#[derive(Debug, PartialEq, Eq)]
pub struct EditedText {
    pub text: String,
    pub cursor: usize,
}

proof fn lemma_back_over_words_bounds(s: Seq<char>, i: int, word: bool)
    requires
        0 <= i <= s.len(),
    ensures
        0 <= back_over_words(s, i, word) <= i,
    decreases i,
{
    if 0 < i && is_word_char_spec(s[i - 1]) == word {
        lemma_back_over_words_bounds(s, i - 1, word);
    }
}

proof fn lemma_back_over_spaces_bounds(s: Seq<char>, i: int, space: bool)
    requires
        0 <= i <= s.len(),
    ensures
        0 <= back_over_spaces(s, i, space) <= i,
    decreases i,
{
    if 0 < i && is_whitespace_spec(s[i - 1]) == space {
        lemma_back_over_spaces_bounds(s, i - 1, space);
    }
}

proof fn lemma_forward_over_words_bounds(s: Seq<char>, i: int, word: bool)
    requires
        0 <= i <= s.len(),
    ensures
        i <= forward_over_words(s, i, word) <= s.len(),
    decreases s.len() - i,
{
    if i < s.len() && is_word_char_spec(s[i]) == word {
        lemma_forward_over_words_bounds(s, i + 1, word);
    }
}

/// Moves back from `i` over characters whose word-ness equals `word`.
fn back_over_words_exec(s: &[char], i: usize, word: bool) -> (r: usize)
    requires
        i <= s@.len(),
    ensures
        r == back_over_words(s@, i as int, word),
{
    let mut j = i;
    while j > 0 && is_word_char(s[j - 1]) == word
        invariant
            j <= i <= s@.len(),
            back_over_words(s@, i as int, word) == back_over_words(s@, j as int, word),
        decreases j,
    {
        j = j - 1;
    }
    j
}

/// Moves forward from `i` over characters whose word-ness equals `word`.
fn forward_over_words_exec(s: &[char], i: usize, word: bool) -> (r: usize)
    requires
        i <= s@.len(),
    ensures
        r == forward_over_words(s@, i as int, word),
{
    let mut j = i;
    while j < s.len() && is_word_char(s[j]) == word
        invariant
            i <= j <= s@.len(),
            forward_over_words(s@, i as int, word) == forward_over_words(s@, j as int, word),
        decreases s@.len() - j,
    {
        j = j + 1;
    }
    j
}

/// Moves back from `i` over characters whose whitespace-ness equals `space`.
fn back_over_spaces_exec(s: &[char], i: usize, space: bool) -> (r: usize)
    requires
        i <= s@.len(),
    ensures
        r == back_over_spaces(s@, i as int, space),
{
    let mut j = i;
    while j > 0 && is_whitespace(s[j - 1]) == space
        invariant
            j <= i <= s@.len(),
            back_over_spaces(s@, i as int, space) == back_over_spaces(s@, j as int, space),
        decreases j,
    {
        j = j - 1;
    }
    j
}

/// Start of the word before `cursor`.
pub fn backward_word_start(chars: &[char], cursor: usize) -> (r: usize)
    ensures
        r == backward_word_start_spec(chars@, cursor as int),
        r <= chars@.len(),
{
    let c = if cursor < chars.len() {
        cursor
    } else {
        chars.len()
    };
    let a = back_over_words_exec(chars, c, false);
    proof {
        lemma_back_over_words_bounds(chars@, c as int, false);
    }
    let b = back_over_words_exec(chars, a, true);
    proof {
        lemma_back_over_words_bounds(chars@, a as int, true);
    }
    b
}

/// Start of the whitespace-delimited word before `cursor`.
pub fn backward_whitespace_word_start(chars: &[char], cursor: usize) -> (r: usize)
    ensures
        r == backward_whitespace_word_start_spec(chars@, cursor as int),
        r <= chars@.len(),
{
    let c = if cursor < chars.len() {
        cursor
    } else {
        chars.len()
    };
    let a = back_over_spaces_exec(chars, c, true);
    proof {
        lemma_back_over_spaces_bounds(chars@, c as int, true);
    }
    let b = back_over_spaces_exec(chars, a, false);
    proof {
        lemma_back_over_spaces_bounds(chars@, a as int, false);
    }
    b
}

/// End of the word after `cursor`.
pub fn forward_word_end(chars: &[char], cursor: usize) -> (r: usize)
    ensures
        r == forward_word_end_spec(chars@, cursor as int),
        r <= chars@.len(),
{
    let c = if cursor < chars.len() {
        cursor
    } else {
        chars.len()
    };
    let a = forward_over_words_exec(chars, c, false);
    proof {
        lemma_forward_over_words_bounds(chars@, c as int, false);
    }
    let b = forward_over_words_exec(chars, a, true);
    proof {
        lemma_forward_over_words_bounds(chars@, a as int, true);
    }
    b
}

/// A selection clipped to `len` and ordered; `None` when it is empty.
pub fn normalized_selection(selection: Option<(usize, usize)>, len: usize) -> (r: Option<
    (usize, usize),
>)
    ensures
        match r {
            Some((a, b)) => normalized_selection_spec(selection, len as int) == Some(
                (a as int, b as int),
            ) && a < b <= len,
            None => normalized_selection_spec(selection, len as int) is None,
        },
{
    match selection {
        None => None,
        Some((start, end)) => {
            let s = if start < len {
                start
            } else {
                len
            };
            let e = if end < len {
                end
            } else {
                len
            };
            let (lo, hi) = if s <= e {
                (s, e)
            } else {
                (e, s)
            };
            if lo != hi {
                Some((lo, hi))
            } else {
                None
            }
        },
    }
}

/// Appends the characters of `v` in `[a, b)` to `out`.
fn append_range(out: &mut Vec<char>, v: &[char], a: usize, b: usize)
    requires
        a <= b <= v@.len(),
    ensures
        final(out)@ == old(out)@ + v@.subrange(a as int, b as int),
{
    let ghost start = old(out)@;
    let mut k = a;
    while k < b
        invariant
            a <= k <= b <= v@.len(),
            out@ == start + v@.subrange(a as int, k as int),
        decreases b - k,
    {
        out.push(v[k]);
        assert(v@.subrange(a as int, k + 1) =~= v@.subrange(a as int, k as int).push(v@[k as int]));
        k = k + 1;
    }
}

/// `v` with the characters in `[a, b)` removed.
fn cut_range(v: &[char], a: usize, b: usize) -> (r: Vec<char>)
    requires
        a <= b <= v@.len(),
    ensures
        r@ == cut(v@, a as int, b as int),
{
    let mut out: Vec<char> = Vec::new();
    append_range(&mut out, v, 0, a);
    append_range(&mut out, v, b, v.len());
    assert(out@ =~= cut(v@, a as int, b as int));
    out
}

/// Removes `[a, b)` from `chars` into the kill buffer; an empty range changes nothing.
fn kill(chars: &mut Vec<char>, a: usize, b: usize, kill_buffer: &mut String)
    requires
        a <= old(chars)@.len(),
        b <= old(chars)@.len(),
    ensures
        (final(chars)@, final(kill_buffer)@) == kill_spec(
            old(chars)@,
            a as int,
            b as int,
            old(kill_buffer)@,
        ),
{
    if a >= b {
        return ;
    }
    let killed = copy_range(chars.as_slice(), a, b);
    let rest = cut_range(chars.as_slice(), a, b);
    *kill_buffer = from_chars(killed.as_slice());
    *chars = rest;
}

/// Applies an editing command to `text` with the cursor at `cursor` (in
/// characters) and an optional selection, updating the kill buffer.
pub fn edit(
    text: &str,
    cursor: usize,
    selection: Option<(usize, usize)>,
    command: Command,
    kill_buffer: &mut String,
) -> (r: EditedText)
    requires
        is_edit_command(command),
        text@.len() + old(kill_buffer)@.len() <= usize::MAX,
    ensures
        ({
            let e = edit_spec(text@, cursor as int, selection, command, old(kill_buffer)@);
            r.text@ == e.0 && r.cursor == e.1 && final(kill_buffer)@ == e.2
        }),
        r.cursor <= r.text@.len(),
{
    let mut chars = to_chars(text);
    let len = chars.len();
    let c = if cursor < len {
        cursor
    } else {
        len
    };
    let selection = normalized_selection(selection, len);
    let mut next_cursor = c;
    let ghost s = text@;
    match command {
        Command::BeginningOfLine => {
            next_cursor = 0;
        },
        Command::EndOfLine => {
            next_cursor = len;
        },
        Command::BackwardChar => {
            next_cursor = if c > 0 {
                c - 1
            } else {
                0
            };
        },
        Command::ForwardChar => {
            next_cursor = if c < len {
                c + 1
            } else {
                len
            };
        },
        Command::BackwardWord => {
            next_cursor = backward_word_start(chars.as_slice(), c);
        },
        Command::ForwardWord => {
            next_cursor = forward_word_end(chars.as_slice(), c);
        },
        Command::BackwardDeleteChar => {
            let range = match selection {
                Some(r) => Some(r),
                None => if c > 0 {
                    Some((c - 1, c))
                } else {
                    None
                },
            };
            if let Some((a, b)) = range {
                chars = cut_range(chars.as_slice(), a, b);
                next_cursor = a;
            }
        },
        Command::DeleteChar => {
            let range = match selection {
                Some(r) => Some(r),
                None => if c < len {
                    Some((c, c + 1))
                } else {
                    None
                },
            };
            if let Some((a, b)) = range {
                chars = cut_range(chars.as_slice(), a, b);
                next_cursor = a;
            }
        },
        Command::UnixWordRubout => {
            let start = backward_whitespace_word_start(chars.as_slice(), c);
            let (a, b) = match selection {
                Some(r) => r,
                None => (start, c),
            };
            kill(&mut chars, a, b, kill_buffer);
            next_cursor = a;
        },
        Command::BackwardKillWord => {
            let start = backward_word_start(chars.as_slice(), c);
            let (a, b) = match selection {
                Some(r) => r,
                None => (start, c),
            };
            kill(&mut chars, a, b, kill_buffer);
            next_cursor = a;
        },
        Command::KillWord => {
            let end = forward_word_end(chars.as_slice(), c);
            let (a, b) = match selection {
                Some(r) => r,
                None => (c, end),
            };
            proof {
                lemma_forward_over_words_bounds(s, c as int, false);
                lemma_forward_over_words_bounds(s, forward_over_words(s, c as int, false), true);
            }
            kill(&mut chars, a, b, kill_buffer);
            next_cursor = a;
        },
        Command::UnixLineDiscard => {
            let (a, b) = match selection {
                Some(r) => r,
                None => (0, c),
            };
            kill(&mut chars, a, b, kill_buffer);
            next_cursor = a;
        },
        Command::KillLine => {
            let (a, b) = match selection {
                Some(r) => r,
                None => (c, len),
            };
            kill(&mut chars, a, b, kill_buffer);
            next_cursor = a;
        },
        Command::Yank => {
            let inserted = to_chars(kill_buffer.as_str());
            if inserted.len() > 0 {
                let (a, b) = match selection {
                    Some(r) => r,
                    None => (c, c),
                };
                let mut out: Vec<char> = Vec::new();
                append_range(&mut out, chars.as_slice(), 0, a);
                append_range(&mut out, inserted.as_slice(), 0, inserted.len());
                append_range(&mut out, chars.as_slice(), b, len);
                assert(inserted@.subrange(0, inserted@.len() as int) =~= inserted@);
                chars = out;
                next_cursor = a + inserted.len();
            }
        },
        Command::TransposeChars => {
            if c > 0 && len > 1 {
                let right = if c == len {
                    c - 1
                } else {
                    c
                };
                let l = chars[right - 1];
                let rc = chars[right];
                chars.set(right - 1, rc);
                chars.set(right, l);
                next_cursor = if right + 1 < len {
                    right + 1
                } else {
                    len
                };
            }
        },
        Command::PreviousHistory | Command::NextHistory => {},
    }
    EditedText { text: from_chars(chars.as_slice()), cursor: next_cursor }
}


/// Whether `command` kills text into the kill buffer.
pub open spec fn is_kill_command(command: Command) -> bool {
    ||| command == Command::UnixWordRubout
    ||| command == Command::BackwardKillWord
    ||| command == Command::KillWord
    ||| command == Command::UnixLineDiscard
    ||| command == Command::KillLine
}

/// A kill that changes the text, followed by a yank at the cursor it leaves,
/// gives back the original text.
pub proof fn kill_then_yank_restores_text(
    s: Seq<char>,
    cursor: int,
    command: Command,
    kill: Seq<char>,
)
    requires
        is_kill_command(command),
        0 <= cursor,
        edit_spec(s, cursor, None, command, kill).0 != s,
    ensures
        ({
            let e = edit_spec(s, cursor, None, command, kill);
            edit_spec(e.0, e.1, None, Command::Yank, e.2).0 == s
        }),
{
    let len = s.len() as int;
    let c = min_int(cursor, len);
    let (a, b) = if command == Command::UnixWordRubout {
        lemma_back_over_spaces_bounds(s, c, true);
        lemma_back_over_spaces_bounds(s, back_over_spaces(s, c, true), false);
        (backward_whitespace_word_start_spec(s, c), c)
    } else if command == Command::BackwardKillWord {
        lemma_back_over_words_bounds(s, c, false);
        lemma_back_over_words_bounds(s, back_over_words(s, c, false), true);
        (backward_word_start_spec(s, c), c)
    } else if command == Command::KillWord {
        lemma_forward_over_words_bounds(s, c, false);
        lemma_forward_over_words_bounds(s, forward_over_words(s, c, false), true);
        (c, forward_word_end_spec(s, c))
    } else if command == Command::UnixLineDiscard {
        (0, c)
    } else {
        (c, len)
    };
    assert(0 <= a <= b <= len);
    let e = edit_spec(s, cursor, None, command, kill);
    assert(e.0 == cut(s, a, b) && e.1 == a && e.2 == s.subrange(a, b));
    let t = e.0;
    assert(t.len() == len - (b - a));
    assert(min_int(a, t.len() as int) == a);
    assert(t.subrange(0, a) + s.subrange(a, b) + t.subrange(a, t.len() as int) =~= s);
}

proof fn lemma_edit_kill_bounded(
    s: Seq<char>,
    cursor: int,
    selection: Option<(usize, usize)>,
    command: Command,
    kill: Seq<char>,
)
    requires
        0 <= cursor,
    ensures
        ({
            let k = edit_spec(s, cursor, selection, command, kill).2;
            k == kill || k.len() <= s.len()
        }),
{
    let len = s.len() as int;
    let c = min_int(cursor, len);
    lemma_back_over_spaces_bounds(s, c, true);
    lemma_back_over_spaces_bounds(s, back_over_spaces(s, c, true), false);
    lemma_back_over_words_bounds(s, c, false);
    lemma_back_over_words_bounds(s, back_over_words(s, c, false), true);
    lemma_forward_over_words_bounds(s, c, false);
    lemma_forward_over_words_bounds(s, forward_over_words(s, c, false), true);
}

/// Whether `command` only moves the cursor.
pub open spec fn is_motion_command(command: Command) -> bool {
    ||| command == Command::BeginningOfLine
    ||| command == Command::EndOfLine
    ||| command == Command::BackwardChar
    ||| command == Command::ForwardChar
    ||| command == Command::BackwardWord
    ||| command == Command::ForwardWord
}

/// The range a kill command removes from `s` with the cursor at `cursor`:
/// the selection when there is one, else the command's own range.
pub open spec fn kill_range(
    s: Seq<char>,
    cursor: int,
    selection: Option<(usize, usize)>,
    command: Command,
) -> (int, int) {
    let len = s.len() as int;
    let c = min_int(cursor, len);
    match normalized_selection_spec(selection, len) {
        Some(r) => r,
        None => if command == Command::UnixWordRubout {
            (backward_whitespace_word_start_spec(s, c), c)
        } else if command == Command::BackwardKillWord {
            (backward_word_start_spec(s, c), c)
        } else if command == Command::KillWord {
            (c, forward_word_end_spec(s, c))
        } else if command == Command::UnixLineDiscard {
            (0, c)
        } else {
            (c, len)
        },
    }
}

proof fn lemma_word_bounds(s: Seq<char>, c: int)
    requires
        0 <= c <= s.len(),
    ensures
        0 <= backward_whitespace_word_start_spec(s, c) <= c,
        0 <= backward_word_start_spec(s, c) <= c,
        c <= forward_word_end_spec(s, c) <= s.len(),
{
    lemma_back_over_spaces_bounds(s, c, true);
    lemma_back_over_spaces_bounds(s, back_over_spaces(s, c, true), false);
    lemma_back_over_words_bounds(s, c, false);
    lemma_back_over_words_bounds(s, back_over_words(s, c, false), true);
    lemma_forward_over_words_bounds(s, c, false);
    lemma_forward_over_words_bounds(s, forward_over_words(s, c, false), true);
}

/// Whether `c` belongs to a word for the word motions: a letter or digit
/// (as `char::is_alphanumeric`) or `_`.
pub open spec fn in_word(c: char) -> bool {
    alphanumeric(c) || c == '_'
}

proof fn lemma_back_over_words_shape(s: Seq<char>, i: int, word: bool)
    requires
        0 <= i <= s.len(),
    ensures
        ({
            let j = back_over_words(s, i, word);
            &&& 0 <= j <= i
            &&& forall|k: int| j <= k < i ==> in_word(#[trigger] s[k]) == word
            &&& (j == 0 || in_word(s[j - 1]) != word)
        }),
    decreases i,
{
    if 0 < i && is_word_char_spec(s[i - 1]) == word {
        lemma_back_over_words_shape(s, i - 1, word);
    }
}

proof fn lemma_forward_over_words_shape(s: Seq<char>, i: int, word: bool)
    requires
        0 <= i <= s.len(),
    ensures
        ({
            let j = forward_over_words(s, i, word);
            &&& i <= j <= s.len()
            &&& forall|k: int| i <= k < j ==> in_word(#[trigger] s[k]) == word
            &&& (j == s.len() || in_word(s[j]) != word)
        }),
    decreases s.len() - i,
{
    if i < s.len() && is_word_char_spec(s[i]) == word {
        lemma_forward_over_words_shape(s, i + 1, word);
    }
}

/// Whether `[n, c)` splits at `m` into a maximal run of word characters
/// `[n, m)` followed by the run of non-word characters `[m, c)` that ends
/// at `c` and starts right after a word character (or at the start).
pub open spec fn word_before(s: Seq<char>, n: int, m: int, c: int) -> bool {
    &&& n <= m <= c
    &&& (forall|k: int| m <= k < c ==> !in_word(#[trigger] s[k]))
    &&& (m == 0 || in_word(s[m - 1]))
    &&& (forall|k: int| n <= k < m ==> in_word(#[trigger] s[k]))
    &&& (n == 0 || !in_word(s[n - 1]))
}

/// Whether `[c, n)` splits at `m` into the run of non-word characters
/// `[c, m)` (ending at a word character or the end) followed by a maximal
/// run of word characters `[m, n)`.
pub open spec fn word_after(s: Seq<char>, c: int, m: int, n: int) -> bool {
    &&& c <= m <= n
    &&& (forall|k: int| c <= k < m ==> !in_word(#[trigger] s[k]))
    &&& (m == s.len() || in_word(s[m]))
    &&& (forall|k: int| m <= k < n ==> in_word(#[trigger] s[k]))
    &&& (n == s.len() || !in_word(s[n]))
}

/// Moving back a word leaves the text as it is and puts the cursor at the
/// start of the word before it: back over the run of non-word characters
/// just before the cursor, then over the whole run of word characters
/// (letters, digits and `_`) before that.
pub proof fn backward_word_moves_to_word_start(
    s: Seq<char>,
    cursor: int,
    selection: Option<(usize, usize)>,
    kill: Seq<char>,
)
    requires
        0 <= cursor,
    ensures
        ({
            let c = min_int(cursor, s.len() as int);
            let e = edit_spec(s, cursor, selection, Command::BackwardWord, kill);
            let n = e.1;
            &&& e.0 == s && e.2 == kill
            &&& exists|m: int| #[trigger] word_before(s, n, m, c)
        }),
{
    let c = min_int(cursor, s.len() as int);
    lemma_back_over_words_shape(s, c, false);
    let m = back_over_words(s, c, false);
    lemma_back_over_words_shape(s, m, true);
    let n = edit_spec(s, cursor, selection, Command::BackwardWord, kill).1;
    assert(n == back_over_words(s, m, true));
    assert(word_before(s, n, m, c));
}

/// Moving forward a word leaves the text as it is and puts the cursor at
/// the end of the next word: over the run of non-word characters after the
/// cursor, then over the whole run of word characters after that.
pub proof fn forward_word_moves_to_word_end(
    s: Seq<char>,
    cursor: int,
    selection: Option<(usize, usize)>,
    kill: Seq<char>,
)
    requires
        0 <= cursor,
    ensures
        ({
            let c = min_int(cursor, s.len() as int);
            let e = edit_spec(s, cursor, selection, Command::ForwardWord, kill);
            let n = e.1;
            &&& e.0 == s && e.2 == kill
            &&& exists|m: int| #[trigger] word_after(s, c, m, n)
        }),
{
    let c = min_int(cursor, s.len() as int);
    lemma_forward_over_words_shape(s, c, false);
    let m = forward_over_words(s, c, false);
    lemma_forward_over_words_shape(s, m, true);
    let n = edit_spec(s, cursor, selection, Command::ForwardWord, kill).1;
    assert(n == forward_over_words(s, m, true));
    assert(word_after(s, c, m, n));
}

/// Every editing command leaves the cursor within the text it produces, and
/// the motion commands leave the text as it was.
pub proof fn edit_keeps_cursor_in_text(
    s: Seq<char>,
    cursor: int,
    selection: Option<(usize, usize)>,
    command: Command,
    kill: Seq<char>,
)
    requires
        is_edit_command(command),
        0 <= cursor,
    ensures
        ({
            let e = edit_spec(s, cursor, selection, command, kill);
            &&& 0 <= e.1 <= e.0.len()
            &&& is_motion_command(command) ==> e.0 == s
        }),
{
    let len = s.len() as int;
    let c = min_int(cursor, len);
    lemma_word_bounds(s, c);
    let e = edit_spec(s, cursor, selection, command, kill);
    if is_kill_command(command) {
        let (a, b) = kill_range(s, cursor, selection, command);
        assert(0 <= a <= b <= len);
        if a < b {
            assert(e.0 == cut(s, a, b) && e.1 == a);
            assert(cut(s, a, b).len() == len - (b - a));
        }
    } else if command == Command::Yank && kill.len() > 0 {
        let (a, b) = match normalized_selection_spec(selection, len) {
            Some(r) => r,
            None => (c, c),
        };
        assert(0 <= a <= b <= len);
        assert(e.0.len() == a + kill.len() + (len - b));
    } else if command == Command::BackwardDeleteChar || command == Command::DeleteChar {
        match normalized_selection_spec(selection, len) {
            Some((a, b)) => {
                assert(0 <= a < b <= len);
                assert(cut(s, a, b).len() == len - (b - a));
            },
            None => {},
        }
    }
}

/// A kill command with a non-empty range replaces the kill buffer with the
/// characters it removes; every other editing command, and a kill with an
/// empty range, leaves the kill buffer as it was.
pub proof fn only_kills_fill_the_kill_buffer(
    s: Seq<char>,
    cursor: int,
    selection: Option<(usize, usize)>,
    command: Command,
    kill: Seq<char>,
)
    requires
        is_edit_command(command),
        0 <= cursor,
    ensures
        ({
            let k = edit_spec(s, cursor, selection, command, kill).2;
            let (a, b) = kill_range(s, cursor, selection, command);
            if is_kill_command(command) && a < b {
                k == s.subrange(a, b)
            } else {
                k == kill
            }
        }),
{
}

/// Character position of the entry position `position` in a text of `len`
/// characters.
pub open spec fn char_position_spec(position: i32, len: int) -> int {
    if position < 0 {
        0
    } else {
        min_int(position as int, len)
    }
}

/// Character position of the entry position `position` in a text of `len` characters.
pub fn char_position(position: i32, len: usize) -> (r: usize)
    ensures
        r == char_position_spec(position, len as int),
{
    if position < 0 {
        0
    } else if (position as usize) < len {
        position as usize
    } else {
        len
    }
}

/// What the search entry holds when a key is pressed: its text, its cursor
/// position and its selection bounds (entry positions, in characters).
pub struct EntryState {
    pub text: String,
    pub position: i32,
    pub selection: Option<(i32, i32)>,
}

/// How the search entry changes after a key press: whether the key was
/// consumed, the text to show (if it changes) and the cursor position to
/// set (if any).
#[derive(Debug, PartialEq, Eq)]
pub struct EntryUpdate {
    pub handled: bool,
    pub text: Option<String>,
    pub position: Option<i32>,
}

/// Abstract view of an entry update.
pub open spec fn update_view(u: &EntryUpdate) -> (bool, Option<Seq<char>>, Option<i32>) {
    (
        u.handled,
        match u.text {
            Some(t) => Some(t@),
            None => None,
        },
        u.position,
    )
}

/// Editor state: the kill buffer, the position in the recent searches while
/// browsing them, and the text the entry held before browsing started.
pub struct ReadlineEditor {
    kill_buffer: String,
    history_index: Option<usize>,
    history_draft: String,
}

/// Abstract editor state: (kill buffer, history position, draft).
pub type EditorView = (Seq<char>, Option<usize>, Seq<char>);

impl View for ReadlineEditor {
    type V = EditorView;

    closed spec fn view(&self) -> EditorView {
        (self.kill_buffer@, self.history_index, self.history_draft@)
    }
}

/// Entry update that replaces the text with `t` and puts the cursor at its end.
pub open spec fn replace_update(t: Seq<char>) -> (bool, Option<Seq<char>>, Option<i32>) {
    (true, Some(t), Some(t.len() as i32))
}

/// The selection bounds in characters.
pub open spec fn char_selection(selection: Option<(i32, i32)>, len: int) -> Option<(usize, usize)> {
    match selection {
        Some((a, b)) => Some(
            (char_position_spec(a, len) as usize, char_position_spec(b, len) as usize),
        ),
        None => None,
    }
}

/// Effect of stepping back to an older recent search: the text before
/// browsing is kept as the draft, and the entry shows the older search
/// (staying on the oldest). Nothing happens without recent searches.
pub open spec fn previous_history_spec(st: EditorView, text: Seq<char>, history: Seq<Seq<char>>) -> (
    EditorView,
    (bool, Option<Seq<char>>, Option<i32>),
) {
    let (kill, index, draft) = st;
    if history.len() == 0 {
        (st, (true, None, None))
    } else {
        match index {
            Some(i) => {
                let j = min_int(i + 1, history.len() - 1);
                ((kill, Some(j as usize), draft), replace_update(history[j]))
            },
            None => ((kill, Some(0), text), replace_update(history[0])),
        }
    }
}

/// Effect of stepping forward to a newer recent search: past the newest the
/// entry shows the draft again and browsing ends. Nothing happens when not
/// browsing.
pub open spec fn next_history_spec(st: EditorView, history: Seq<Seq<char>>) -> (
    EditorView,
    (bool, Option<Seq<char>>, Option<i32>),
) {
    let (kill, index, draft) = st;
    match index {
        None => (st, (true, None, None)),
        Some(i) => if i == 0 {
            ((kill, None, draft), replace_update(draft))
        } else if i - 1 < history.len() {
            ((kill, Some((i - 1) as usize), draft), replace_update(history[i - 1]))
        } else {
            ((kill, None, seq![]), (true, None, None))
        },
    }
}

/// Effect of a key press on the editor state and on the entry.
pub open spec fn handle_key_spec(
    st: EditorView,
    key: u32,
    modifiers: u32,
    text: Seq<char>,
    position: i32,
    selection: Option<(i32, i32)>,
    history: Seq<Seq<char>>,
) -> (EditorView, (bool, Option<Seq<char>>, Option<i32>)) {
    let kill = st.0;
    match command_for_key_spec(key, modifiers) {
        None => ((kill, None, seq![]), (false, None, None)),
        Some(Command::PreviousHistory) => previous_history_spec(st, text, history),
        Some(Command::NextHistory) => next_history_spec(st, history),
        Some(command) => {
            let len = text.len() as int;
            let e = edit_spec(
                text,
                char_position_spec(position, len),
                char_selection(selection, len),
                command,
                kill,
            );
            (
                (e.2, None, seq![]),
                (true, if e.0 != text { Some(e.0) } else { None }, Some(e.1 as i32)),
            )
        },
    }
}

impl ReadlineEditor {
    #[verifier::type_invariant]
    spec fn bounded(self) -> bool {
        self.kill_buffer@.len() <= isize::MAX
    }

    /// A fresh editor: empty kill buffer, not browsing recent searches.
    pub fn new() -> (r: Self)
        ensures
            r@ == (Seq::<char>::empty(), None::<usize>, Seq::<char>::empty()),
    {
        ReadlineEditor {
            kill_buffer: String::new(),
            history_index: None,
            history_draft: String::new(),
        }
    }

    /// Handles a key press (lower-cased key value and modifier bits) on the
    /// entry, with `history` the recent searches, newest first.
    pub fn handle_key(
        &mut self,
        key: u32,
        modifiers: u32,
        entry: &EntryState,
        history: &[String],
    ) -> (r: EntryUpdate)
        requires
            entry.text@.len() <= isize::MAX,
        ensures
            (final(self)@, update_view(&r)) == handle_key_spec(
                old(self)@,
                key,
                modifiers,
                entry.text@,
                entry.position,
                entry.selection,
                history@.map_values(|h: String| h@),
            ),
    {
        proof {
            use_type_invariant(&*self);
        }
        let command = match command_for_key(key, modifiers) {
            None => {
                self.reset_history_navigation();
                return EntryUpdate { handled: false, text: None, position: None };
            },
            Some(c) => c,
        };
        match command {
            Command::PreviousHistory => self.previous_history(&entry.text, history),
            Command::NextHistory => self.next_history(history),
            command => {
                self.reset_history_navigation();
                self.apply_edit(entry, command)
            },
        }
    }

    /// Steps back to an older recent search (see `previous_history_spec`).
    fn previous_history(&mut self, text: &String, history: &[String]) -> (r: EntryUpdate)
        ensures
            (final(self)@, update_view(&r)) == previous_history_spec(
                old(self)@,
                text@,
                history@.map_values(|h: String| h@),
            ),
    {
        proof {
            use_type_invariant(&*self);
        }
        if history.len() == 0 {
            return EntryUpdate { handled: true, text: None, position: None };
        }
        let index = match self.history_index {
            Some(i) => if i < history.len() - 1 {
                i + 1
            } else {
                history.len() - 1
            },
            None => {
                self.history_draft = text.clone();
                0
            },
        };
        self.history_index = Some(index);
        Self::replace_text(&history[index])
    }

    /// Steps forward to a newer recent search (see `next_history_spec`).
    fn next_history(&mut self, history: &[String]) -> (r: EntryUpdate)
        ensures
            (final(self)@, update_view(&r)) == next_history_spec(
                old(self)@,
                history@.map_values(|h: String| h@),
            ),
    {
        proof {
            use_type_invariant(&*self);
        }
        let index = match self.history_index {
            None => {
                return EntryUpdate { handled: true, text: None, position: None };
            },
            Some(i) => i,
        };
        if index == 0 {
            self.history_index = None;
            Self::replace_text(&self.history_draft)
        } else {
            let next = index - 1;
            if next < history.len() {
                self.history_index = Some(next);
                Self::replace_text(&history[next])
            } else {
                self.reset_history_navigation();
                EntryUpdate { handled: true, text: None, position: None }
            }
        }
    }

    fn reset_history_navigation(&mut self)
        ensures
            final(self)@ == (old(self)@.0, None::<usize>, Seq::<char>::empty()),
    {
        proof {
            use_type_invariant(&*self);
        }
        self.history_index = None;
        self.history_draft = String::new();
    }

    fn replace_text(text: &String) -> (r: EntryUpdate)
        ensures
            update_view(&r) == replace_update(text@),
    {
        let n = to_chars(text.as_str()).len();
        EntryUpdate { handled: true, text: Some(text.clone()), position: Some(n as i32) }
    }

    fn apply_edit(&mut self, entry: &EntryState, command: Command) -> (r: EntryUpdate)
        requires
            is_edit_command(command),
            entry.text@.len() <= isize::MAX,
            old(self)@.1 is None,
        ensures
            ({
                let len = entry.text@.len() as int;
                let e = edit_spec(
                    entry.text@,
                    char_position_spec(entry.position, len),
                    char_selection(entry.selection, len),
                    command,
                    old(self)@.0,
                );
                &&& final(self)@ == (e.2, old(self)@.1, old(self)@.2)
                &&& update_view(&r) == (
                    true,
                    if e.0 != entry.text@ {
                        Some(e.0)
                    } else {
                        None
                    },
                    Some(e.1 as i32),
                )
            }),
    {
        proof {
            use_type_invariant(&*self);
        }
        let text = entry.text.as_str();
        let len = to_chars(text).len();
        let cursor = char_position(entry.position, len);
        let selection = match entry.selection {
            Some((a, b)) => Some((char_position(a, len), char_position(b, len))),
            None => None,
        };
        let mut kill = self.kill_buffer.clone();
        let edited = edit(text, cursor, selection, command, &mut kill);
        proof {
            let ghost e = edit_spec(
                entry.text@,
                cursor as int,
                selection,
                command,
                old(self)@.0,
            );
            lemma_edit_kill_bounded(entry.text@, cursor as int, selection, command, old(self)@.0);
        }
        self.kill_buffer = kill;
        let changed = !chars_eq(to_chars(edited.text.as_str()).as_slice(), to_chars(text).as_slice());
        EntryUpdate {
            handled: true,
            text: if changed {
                Some(edited.text)
            } else {
                None
            },
            position: Some(edited.cursor as i32),
        }
    }
}

/// Browsing back into the recent searches and then forward again restores
/// the text the entry held before browsing began.
pub proof fn previous_then_next_restores_entry(
    kill: Seq<char>,
    key_modifiers: u32,
    text: Seq<char>,
    position: i32,
    selection: Option<(i32, i32)>,
    history: Seq<Seq<char>>,
)
    requires
        key_modifiers == CONTROL_MASK,
        history.len() > 0,
    ensures
        ({
            let st = (kill, None::<usize>, Seq::<char>::empty());
            let (st1, u1) = handle_key_spec(
                st,
                letter('p'),
                key_modifiers,
                text,
                position,
                selection,
                history,
            );
            let (st2, u2) = handle_key_spec(
                st1,
                letter('n'),
                key_modifiers,
                u1.1.unwrap(),
                u1.2.unwrap(),
                None,
                history,
            );
            u2.1 == Some(text) && st2 == (kill, None::<usize>, text)
        }),
{
    assert(CONTROL_MASK & CONTROL_MASK != 0) by (bit_vector);
    assert(CONTROL_MASK & (ALT_MASK | META_MASK) == 0) by (bit_vector);
}

} // verus!
