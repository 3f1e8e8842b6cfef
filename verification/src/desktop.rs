//! Search items for desktop applications (from `.desktop` entries),
//! executable commands and filesystem entries.

use vstd::prelude::*;
use vstd::hash_map::StringHashMap;
use crate::search::{ItemKind, ItemView, SearchItem, opt_view};
use crate::text::{
    ascii_lowercase_spec, chars_eq, copy_range, find_spec, is_ascii_text, lemma_occurrence_is_found, from_chars, lowercase, owned, push_chars, push_str, split_whitespace,
    starts_with, starts_with_spec, to_chars, to_lowercase, trim, trim_bounds, trim_spec, words,
};

verus! {

/// The pieces of `s` between newline characters (at least one piece).
pub open spec fn split_newlines(s: Seq<char>) -> Seq<Seq<char>>
    decreases s.len(),
{
    if s.len() == 0 {
        seq![seq![]]
    } else {
        let prev = split_newlines(s.drop_last());
        if s.last() == '\n' {
            prev.push(seq![])
        } else {
            prev.update(prev.len() - 1, prev.last().push(s.last()))
        }
    }
}

/// `line` without one trailing carriage return.
pub open spec fn strip_cr(line: Seq<char>) -> Seq<char> {
    if line.len() > 0 && line.last() == '\r' {
        line.drop_last()
    } else {
        line
    }
}

/// The lines of `s` (as `str::lines`): split at newlines, one trailing
/// carriage return removed from each, no empty line after a final newline.
pub open spec fn lines_spec(s: Seq<char>) -> Seq<Seq<char>> {
    let p = split_newlines(s);
    let q = if p.last().len() == 0 {
        p.drop_last()
    } else {
        p
    };
    q.map_values(|l: Seq<char>| strip_cr(l))
}

/// The index of the first `=` in `line`, if any.
pub open spec fn first_equals_from(line: Seq<char>, i: int) -> Option<int>
    decreases line.len() - i,
{
    if i < 0 || i >= line.len() {
        None
    } else if line[i] == '=' {
        Some(i)
    } else {
        first_equals_from(line, i + 1)
    }
}

/// The value stored under `key` among `fields`, if any.
pub open spec fn field_get(fields: Seq<(Seq<char>, Seq<char>)>, key: Seq<char>) -> Option<Seq<char>>
    decreases fields.len(),
{
    if fields.len() == 0 {
        None
    } else if fields[0].0 == key {
        Some(fields[0].1)
    } else {
        field_get(fields.drop_first(), key)
    }
}

/// The key-value fields of the `[Desktop Entry]` group, from line `i` on,
/// added to `acc`; the first value of each key wins.
pub open spec fn fields_from(
    lines: Seq<Seq<char>>,
    i: int,
    in_entry: bool,
    acc: Seq<(Seq<char>, Seq<char>)>,
) -> Seq<(Seq<char>, Seq<char>)>
    decreases lines.len() - i,
{
    if i < 0 || i >= lines.len() {
        acc
    } else {
        let line = trim_spec(lines[i]);
        if line == "[Desktop Entry]"@ {
            fields_from(lines, i + 1, true, acc)
        } else if in_entry && line.len() > 0 && line[0] == '[' {
            acc
        } else if !in_entry || line.len() == 0 || line[0] == '#' {
            fields_from(lines, i + 1, in_entry, acc)
        } else {
            match first_equals_from(line, 0) {
                None => fields_from(lines, i + 1, in_entry, acc),
                Some(j) => {
                    let key = line.take(j);
                    let value = line.skip(j + 1);
                    let next = if field_get(acc, key) is Some {
                        acc
                    } else {
                        acc.push((key, value))
                    };
                    fields_from(lines, i + 1, in_entry, next)
                },
            }
        }
    }
}

/// The key-value fields of the `[Desktop Entry]` group of `content`.
pub open spec fn desktop_fields_spec(content: Seq<char>) -> Seq<(Seq<char>, Seq<char>)> {
    fields_from(lines_spec(content), 0, false, seq![])
}

/// The fields as a map from key to value.
pub open spec fn fields_map(fields: Seq<(Seq<char>, Seq<char>)>) -> Map<Seq<char>, Seq<char>> {
    Map::new(|k: Seq<char>| field_get(fields, k) is Some, |k: Seq<char>| field_get(fields, k)->0)
}

/// The key-value fields of a desktop entry.
pub struct DesktopFields {
    fields: StringHashMap<String>,
}

impl View for DesktopFields {
    type V = Map<Seq<char>, Seq<char>>;

    closed spec fn view(&self) -> Map<Seq<char>, Seq<char>> {
        self.fields@.map_values(|v: String| v@)
    }
}

proof fn lemma_field_get_push(fields: Seq<(Seq<char>, Seq<char>)>, p: (Seq<char>, Seq<char>), key: Seq<char>)
    ensures
        field_get(fields.push(p), key) == match field_get(fields, key) {
            Some(v) => Some(v),
            None => if p.0 == key {
                Some(p.1)
            } else {
                None
            },
        },
    decreases fields.len(),
{
    if fields.len() > 0 {
        let q = fields.push(p);
        assert(q.drop_first() =~= fields.drop_first().push(p));
        assert(q[0] == fields[0]);
        lemma_field_get_push(fields.drop_first(), p, key);
        if fields[0].0 == key {
            assert(field_get(q, key) == Some(fields[0].1));
            assert(field_get(fields, key) == Some(fields[0].1));
        } else {
            assert(field_get(q, key) == field_get(q.drop_first(), key));
            assert(field_get(fields, key) == field_get(fields.drop_first(), key));
        }
    } else {
        let q = fields.push(p);
        assert(q[0] == p);
        assert(q.drop_first() =~= Seq::<(Seq<char>, Seq<char>)>::empty());
        assert(field_get(q.drop_first(), key) is None);
        assert(field_get(fields, key) is None);
        if p.0 == key {
            assert(field_get(q, key) == Some(p.1));
        } else {
            assert(field_get(q, key) is None);
        }
    }
}

impl DesktopFields {
    /// The value stored under `key`, if any.
    pub fn get(&self, key: &str) -> (r: Option<&String>)
        ensures
            opt_view_ref(r) == if self@.contains_key(key@) {
                Some(self@[key@])
            } else {
                None::<Seq<char>>
            },
    {
        self.fields.get(key)
    }
}

/// The view of an optional string reference.
pub open spec fn opt_view_ref(o: Option<&String>) -> Option<Seq<char>> {
    match o {
        Some(s) => Some(s@),
        None => None,
    }
}

/// The lines of `v` (as `str::lines`).
fn lines(v: &[char]) -> (r: Vec<Vec<char>>)
    ensures
        r@.len() == lines_spec(v@).len(),
        forall|k: int| 0 <= k < r@.len() ==> (#[trigger] r@[k])@ == lines_spec(v@)[k],
{
    let mut pieces: Vec<Vec<char>> = Vec::new();
    pieces.push(Vec::new());
    assert(pieces@.len() == 1 && pieces@[0]@ =~= split_newlines(v@.take(0))[0]);
    let mut i: usize = 0;
    while i < v.len()
        invariant
            i <= v@.len(),
            pieces@.len() == split_newlines(v@.take(i as int)).len(),
            pieces@.len() > 0,
            forall|k: int|
                0 <= k < pieces@.len() ==> (#[trigger] pieces@[k])@ == split_newlines(
                    v@.take(i as int),
                )[k],
        decreases v@.len() - i,
    {
        let c = v[i];
        assert(v@.take(i + 1).drop_last() =~= v@.take(i as int));
        assert(v@.take(i + 1).last() == c);
        if c == '\n' {
            pieces.push(Vec::new());
            assert(pieces@.last()@ =~= Seq::<char>::empty());
        } else {
            let mut last = pieces.pop().unwrap();
            last.push(c);
            pieces.push(last);
        }
        i = i + 1;
    }
    assert(v@.take(v@.len() as int) =~= v@);
    let ghost p = split_newlines(v@);
    let n = pieces.len();
    let keep = if pieces[n - 1].len() == 0 {
        n - 1
    } else {
        n
    };
    let mut out: Vec<Vec<char>> = Vec::new();
    let mut j: usize = 0;
    while j < keep
        invariant
            keep <= n == pieces@.len() == p.len(),
            keep == (if p.last().len() == 0 {
                n - 1
            } else {
                n as int
            }),
            j <= keep,
            forall|k: int| 0 <= k < n ==> (#[trigger] pieces@[k])@ == p[k],
            out@.len() == j,
            forall|k: int| 0 <= k < j ==> (#[trigger] out@[k])@ == strip_cr(p[k]),
        decreases keep - j,
    {
        let piece = &pieces[j];
        let m = piece.len();
        let line = if m > 0 && piece[m - 1] == '\r' {
            copy_range(piece.as_slice(), 0, m - 1)
        } else {
            copy_range(piece.as_slice(), 0, m)
        };
        assert(line@ =~= strip_cr(p[j as int]));
        out.push(line);
        j = j + 1;
    }
    out
}

/// The lines of `text` (as `str::lines`).
pub fn text_lines(text: &str) -> (r: Vec<String>)
    ensures
        r@.len() == lines_spec(text@).len(),
        forall|k: int| 0 <= k < r@.len() ==> (#[trigger] r@[k])@ == lines_spec(text@)[k],
{
    let ls = lines(to_chars(text).as_slice());
    let mut out: Vec<String> = Vec::new();
    let mut i: usize = 0;
    while i < ls.len()
        invariant
            i <= ls@.len() == lines_spec(text@).len(),
            forall|k: int| 0 <= k < ls@.len() ==> (#[trigger] ls@[k])@ == lines_spec(text@)[k],
            out@.len() == i,
            forall|k: int| 0 <= k < i ==> (#[trigger] out@[k])@ == lines_spec(text@)[k],
        decreases ls@.len() - i,
    {
        out.push(from_chars(ls[i].as_slice()));
        i = i + 1;
    }
    out
}

/// The index of the first `=` in `line`, if any.
fn first_equals(line: &[char]) -> (r: Option<usize>)
    ensures
        match r {
            Some(j) => first_equals_from(line@, 0) == Some(j as int) && j < line@.len(),
            None => first_equals_from(line@, 0) is None,
        },
{
    let mut i: usize = 0;
    while i < line.len()
        invariant
            i <= line@.len(),
            first_equals_from(line@, 0) == first_equals_from(line@, i as int),
        decreases line@.len() - i,
    {
        if line[i] == '=' {
            return Some(i);
        }
        i = i + 1;
    }
    None
}

/// The key-value fields of the `[Desktop Entry]` group of `content`; the
/// first value of each key wins.
pub fn parse_desktop_fields(content: &str) -> (r: DesktopFields)
    ensures
        r@ == fields_map(desktop_fields_spec(content@)),
{
    let ls = lines(to_chars(content).as_slice());
    let ghost lv = lines_spec(content@);
    let mut fields = DesktopFields { fields: StringHashMap::new() };
    let ghost mut acc: Seq<(Seq<char>, Seq<char>)> = Seq::empty();
    assert(fields@ =~= fields_map(acc));
    let mut in_entry = false;
    let header = to_chars("[Desktop Entry]");
    let mut i: usize = 0;
    while i < ls.len()
        invariant
            i <= ls@.len() == lv.len(),
            lv == lines_spec(content@),
            header@ == "[Desktop Entry]"@,
            forall|k: int| 0 <= k < ls@.len() ==> (#[trigger] ls@[k])@ == lv[k],
            desktop_fields_spec(content@) == fields_from(lv, i as int, in_entry, acc),
            fields@ == fields_map(acc),
        decreases ls@.len() - i,
    {
        let (a, b) = trim_bounds(ls[i].as_slice());
        let line = copy_range(ls[i].as_slice(), a, b);
        assert(line@ == trim_spec(lv[i as int]));
        if chars_eq(line.as_slice(), header.as_slice()) {
            in_entry = true;
        } else if in_entry && line.len() > 0 && line[0] == '[' {
            return fields;
        } else if !in_entry || line.len() == 0 || line[0] == '#' {
        } else {
            match first_equals(line.as_slice()) {
                None => {},
                Some(j) => {
                    let key = copy_range(line.as_slice(), 0, j);
                    let value = copy_range(line.as_slice(), j + 1, line.len());
                    assert(key@ =~= line@.take(j as int));
                    assert(value@ =~= line@.skip(j + 1));
                    let key_str = from_chars(key.as_slice());
                    if fields.get(key_str.as_str()).is_none() {
                        let ghost before = acc;
                        let ghost old_view = fields@;
                        let ghost old_map = fields.fields@;
                        assert(field_get(before, key@) is None);
                        let value_str = from_chars(value.as_slice());
                        fields.fields.insert(key_str, value_str);
                        assert(fields.fields@ == old_map.insert(key@, value_str));
                        assert(fields@ =~= old_view.insert(key@, value@));
                        proof {
                            acc = before.push((key@, value@));
                            assert forall|k: Seq<char>| true implies field_get(acc, k) == match field_get(
                                before,
                                k,
                            ) {
                                Some(v) => Some(v),
                                None => if key@ == k {
                                    Some(value@)
                                } else {
                                    None
                                },
                            } by {
                                lemma_field_get_push(before, (key@, value@), k);
                            }
                            assert(fields_map(acc) =~= fields_map(before).insert(key@, value@));
                        }
                    }
                },
            }
        }
        i = i + 1;
    }
    fields
}

/// `parts` joined with single spaces.
pub open spec fn join_spaces(parts: Seq<Seq<char>>) -> Seq<char>
    decreases parts.len(),
{
    if parts.len() == 0 {
        seq![]
    } else if parts.len() == 1 {
        parts[0]
    } else {
        join_spaces(parts.drop_last()) + seq![' '] + parts.last()
    }
}

/// The words of `s` that are not field codes (words starting with `%`).
pub open spec fn exec_words(ws: Seq<Seq<char>>) -> Seq<Seq<char>>
    decreases ws.len(),
{
    if ws.len() == 0 {
        seq![]
    } else {
        let prev = exec_words(ws.drop_last());
        if starts_with_spec(ws.last(), seq!['%']) {
            prev
        } else {
            prev.push(ws.last())
        }
    }
}

/// A desktop `Exec` command without its field codes (`%U`, `%f`, ...),
/// words joined by single spaces.
pub open spec fn clean_exec_spec(exec: Seq<char>) -> Seq<char> {
    join_spaces(exec_words(words(exec)))
}

/// A desktop `Exec` command without its field codes.
pub fn clean_desktop_exec(exec: &str) -> (r: String)
    ensures
        r@ == clean_exec_spec(exec@),
{
    let ws = split_whitespace(to_chars(exec).as_slice());
    let ghost wv = words(exec@);
    let percent = to_chars("%");
    assert(percent@ =~= seq!['%']) by {
        reveal_strlit("%");
    }
    let mut out = String::new();
    let mut count: usize = 0;
    let mut i: usize = 0;
    while i < ws.len()
        invariant
            i <= ws@.len() == wv.len(),
            wv == words(exec@),
            percent@ == seq!['%'],
            forall|k: int| 0 <= k < ws@.len() ==> (#[trigger] ws@[k])@ == wv[k],
            count == exec_words(wv.take(i as int)).len(),
            count <= i,
            out@ == join_spaces(exec_words(wv.take(i as int))),
        decreases ws@.len() - i,
    {
        assert(wv.take(i + 1).drop_last() =~= wv.take(i as int));
        assert(wv.take(i + 1).last() == ws@[i as int]@);
        if !starts_with(ws[i].as_slice(), percent.as_slice()) {
            if count > 0 {
                out.push(' ');
            }
            push_chars(&mut out, ws[i].as_slice());
            count = count + 1;
            proof {
                let e = exec_words(wv.take(i as int));
                if e.len() > 0 {
                    assert(e.push(wv[i as int]).drop_last() =~= e);
                } else {
                    assert(join_spaces(e.push(wv[i as int])) =~= wv[i as int]);
                }
            }
        }
        i = i + 1;
    }
    assert(wv.take(wv.len() as int) =~= wv);
    out
}

/// The search item for a desktop entry with the given fields.
pub open spec fn desktop_item_spec(f: Seq<(Seq<char>, Seq<char>)>) -> Option<ItemView> {
    if field_get(f, "NoDisplay"@) == Some("true"@) || field_get(f, "Hidden"@) == Some("true"@) {
        None
    } else {
        match (field_get(f, "Name"@), field_get(f, "Exec"@)) {
            (Some(name), Some(exec)) => {
                let comment = match field_get(f, "Comment"@) {
                    Some(c) => c,
                    None => seq![],
                };
                let icon = match field_get(f, "Icon"@) {
                    Some(i) => if trim_spec(i).len() > 0 {
                        Some(trim_spec(i))
                    } else {
                        None
                    },
                    None => None,
                };
                let target = clean_exec_spec(exec);
                Some(
                    ItemView {
                        title: name,
                        subtitle: if comment.len() == 0 {
                            target
                        } else {
                            comment
                        },
                        target,
                        kind: ItemKind::Application,
                        tokens: lowercase(name + seq![' '] + comment + seq![' '] + target),
                        desktop_icon: icon,
                    },
                )
            },
            _ => None,
        }
    }
}

/// The search tokens of an application hold its name, its comment and its
/// command, lower-cased and joined by spaces, in that order (stated for ASCII
/// text, whose lower-casing is known): so every piece of the comment, like
/// every piece of the name, is found by a query.
pub proof fn application_tokens_hold_name_comment_and_command(content: Seq<char>)
    ensures
        ({
            let f = desktop_fields_spec(content);
            match desktop_item_spec(f) {
                Some(item) => {
                    let name = item.title;
                    let comment = match field_get(f, "Comment"@) {
                        Some(c) => c,
                        None => seq![],
                    };
                    let command = item.target;
                    let n = name.len() as int;
                    let k = comment.len() as int;
                    is_ascii_text(name + seq![' '] + comment + seq![' '] + command) ==> {
                        &&& item.tokens.len() == n + k + command.len() + 2
                        &&& item.tokens.take(n) == ascii_lowercase_spec(name)
                        &&& item.tokens.subrange(n + 1, n + 1 + k) == ascii_lowercase_spec(comment)
                        &&& item.tokens.skip(n + k + 2) == ascii_lowercase_spec(command)
                        &&& forall|a: int, b: int|
                            0 <= a < b <= k ==> find_spec(
                                item.tokens,
                                #[trigger] ascii_lowercase_spec(comment).subrange(a, b),
                            ) is Some
                        &&& forall|a: int, b: int|
                            0 <= a < b <= n ==> find_spec(
                                item.tokens,
                                #[trigger] ascii_lowercase_spec(name).subrange(a, b),
                            ) is Some
                    }
                },
                None => true,
            }
        }),
{
    let f = desktop_fields_spec(content);
    if let Some(item) = desktop_item_spec(f) {
        let name = item.title;
        let comment = match field_get(f, "Comment"@) {
            Some(c) => c,
            None => seq![],
        };
        let command = item.target;
        let n = name.len() as int;
        let k = comment.len() as int;
        let text = name + seq![' '] + comment + seq![' '] + command;
        if is_ascii_text(text) {
            let low = ascii_lowercase_spec(text);
            assert(item.tokens == low);
            assert(low.take(n) =~= ascii_lowercase_spec(name));
            assert(low.subrange(n + 1, n + 1 + k) =~= ascii_lowercase_spec(comment));
            assert(low.skip(n + k + 2) =~= ascii_lowercase_spec(command));
            assert forall|a: int, b: int| 0 <= a < b <= k implies find_spec(
                item.tokens,
                #[trigger] ascii_lowercase_spec(comment).subrange(a, b),
            ) is Some by {
                let needle = ascii_lowercase_spec(comment).subrange(a, b);
                assert(low.subrange(n + 1 + a, n + 1 + a + needle.len()) =~= needle);
                lemma_occurrence_is_found(low, needle, n + 1 + a);
            }
            assert forall|a: int, b: int| 0 <= a < b <= n implies find_spec(
                item.tokens,
                #[trigger] ascii_lowercase_spec(name).subrange(a, b),
            ) is Some by {
                let needle = ascii_lowercase_spec(name).subrange(a, b);
                assert(low.subrange(a, a + needle.len()) =~= needle);
                lemma_occurrence_is_found(low, needle, a);
            }
        }
    }
}

fn is_true(value: Option<&String>) -> (r: bool)
    ensures
        r == (opt_view_ref(value) == Some("true"@)),
{
    match value {
        Some(v) => chars_eq(to_chars(v.as_str()).as_slice(), to_chars("true").as_slice()),
        None => false,
    }
}

/// The search item for the desktop entry `content`, unless it is hidden or
/// lacks a name or command.
pub fn parse_desktop_item(content: &str) -> (r: Option<SearchItem>)
    ensures
        match r {
            Some(item) => desktop_item_spec(desktop_fields_spec(content@)) == Some(item@),
            None => desktop_item_spec(desktop_fields_spec(content@)) is None,
        },
{
    let fields = parse_desktop_fields(content);
    if is_true(fields.get("NoDisplay")) || is_true(fields.get("Hidden")) {
        return None;
    }
    let name = match fields.get("Name") {
        Some(n) => n.clone(),
        None => return None,
    };
    let exec = match fields.get("Exec") {
        Some(e) => e.clone(),
        None => return None,
    };
    let comment = match fields.get("Comment") {
        Some(c) => c.clone(),
        None => String::new(),
    };
    let desktop_icon = match fields.get("Icon") {
        Some(i) => {
            let t = trim(i.as_str());
            if to_chars(t.as_str()).len() > 0 {
                Some(t)
            } else {
                None
            }
        },
        None => None,
    };
    let target = clean_desktop_exec(exec.as_str());
    let mut text = name.clone();
    text.push(' ');
    push_str(&mut text, comment.as_str());
    text.push(' ');
    push_str(&mut text, target.as_str());
    assert(text@ =~= name@ + seq![' '] + comment@ + seq![' '] + target@);
    let tokens = to_lowercase(text.as_str());
    let subtitle = if to_chars(comment.as_str()).len() == 0 {
        target.clone()
    } else {
        comment
    };
    Some(SearchItem::new(name, subtitle, target, ItemKind::Application, tokens, desktop_icon))
}

/// The search item for the executable `path` whose file name is `name`.
pub fn command_item(name: &str, path: &str) -> (r: SearchItem)
    ensures
        r@ == (ItemView {
            title: name@,
            subtitle: path@,
            target: path@,
            kind: ItemKind::Command,
            tokens: lowercase(name@),
            desktop_icon: None,
        }),
{
    let r = SearchItem::new(
        owned(name),
        owned(path),
        owned(path),
        ItemKind::Command,
        to_lowercase(name),
        None,
    );
    assert(r@.title == name@);
    assert(r@.tokens == lowercase(name@));
    assert(r@.desktop_icon is None);
    r
}

/// The search item for the file or directory `path` whose file name is
/// `name`.
pub fn filesystem_item(name: &str, path: &str, is_dir: bool) -> (r: SearchItem)
    ensures
        r@ == (ItemView {
            title: name@,
            subtitle: path@,
            target: path@,
            kind: if is_dir {
                ItemKind::Directory
            } else {
                ItemKind::File
            },
            tokens: lowercase(name@ + seq![' '] + path@),
            desktop_icon: None,
        }),
{
    let mut text = owned(name);
    text.push(' ');
    push_str(&mut text, path);
    assert(text@ =~= name@ + seq![' '] + path@);
    let r = SearchItem::new(
        owned(name),
        owned(path),
        owned(path),
        if is_dir {
            ItemKind::Directory
        } else {
            ItemKind::File
        },
        to_lowercase(text.as_str()),
        None,
    );
    assert(r@.title == name@);
    assert(r@.desktop_icon is None);
    r
}

/// Whether a directory entry named `name` is indexed when hidden entries
/// are not: names that cannot be read as text are, others unless they
/// start with `.`.
pub fn visible_entry(name: Option<&str>) -> (r: bool)
    ensures
        r == match name {
            Some(n) => !starts_with_spec(n@, seq!['.']),
            None => true,
        },
{
    match name {
        Some(n) => {
            let dot = to_chars(".");
            assert(dot@ =~= seq!['.']) by {
                reveal_strlit(".");
            }
            !starts_with(to_chars(n).as_slice(), dot.as_slice())
        },
        None => true,
    }
}

/// `base` joined with `rest` as `Path::join` does: an absolute `rest`
/// replaces `base`; otherwise a `/` separates them unless `base` is empty
/// or already ends with one.
pub open spec fn join_path_spec(base: Seq<char>, rest: Seq<char>) -> Seq<char> {
    if rest.len() > 0 && rest[0] == '/' {
        rest
    } else if base.len() == 0 || base.last() == '/' {
        base + rest
    } else {
        base + seq!['/'] + rest
    }
}

fn join_path(base: &str, rest: &str) -> (r: String)
    ensures
        r@ == join_path_spec(base@, rest@),
{
    let b = to_chars(base);
    let rs = to_chars(rest);
    if rs.len() > 0 && rs[0] == '/' {
        return owned(rest);
    }
    let mut out = owned(base);
    if !(b.len() == 0 || b[b.len() - 1] == '/') {
        out.push('/');
    }
    push_str(&mut out, rest);
    out
}

/// Where an indexed directory setting points: `~` is the home directory,
/// `~/x` and relative paths are under it, absolute paths stay as they are.
pub open spec fn expand_index_dir_spec(home: Seq<char>, value: Seq<char>) -> Seq<char> {
    if value == seq!['~'] {
        home
    } else if starts_with_spec(value, seq!['~', '/']) {
        join_path_spec(home, value.skip(2))
    } else if value.len() > 0 && value[0] == '/' {
        value
    } else {
        join_path_spec(home, value)
    }
}

/// Where the indexed directory setting `value` points, for the home
/// directory `home`.
pub fn expand_index_dir(home: &str, value: &str) -> (r: String)
    ensures
        r@ == expand_index_dir_spec(home@, value@),
{
    let v = to_chars(value);
    let tilde = to_chars("~");
    let tilde_slash = to_chars("~/");
    proof {
        reveal_strlit("~");
        reveal_strlit("~/");
        assert(tilde@ =~= seq!['~']);
        assert(tilde_slash@ =~= seq!['~', '/']);
    }
    if chars_eq(v.as_slice(), tilde.as_slice()) {
        return owned(home);
    }
    if starts_with(v.as_slice(), tilde_slash.as_slice()) {
        let rest = copy_range(v.as_slice(), 2, v.len());
        assert(rest@ =~= value@.skip(2));
        return join_path(home, from_chars(rest.as_slice()).as_str());
    }
    if v.len() > 0 && v[0] == '/' {
        return owned(value);
    }
    join_path(home, value)
}

} // verus!
