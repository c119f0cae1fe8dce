//! The session catalog: login session choices read from desktop entries and
//! from `Name=command` lists.
use vstd::prelude::*;

use crate::proto::{opt_view, opt_views, SessionChoice};
use crate::text::{
    chars_of, find_char, flush, is_whitespace_char, range_eq, range_eq_ignore_ascii_case,
    split_once, split_words_range, string_of, string_of_range, trim, trim_bounds, views, words,
};

verus! {

/// The words of a desktop `Exec` value, continuing a word `cur` already
/// begun, inside double quotes when `quoted` and after a backslash when
/// `escaped`. A backslash takes the next character literally, double quotes
/// group whitespace into a word and are dropped, and whitespace outside
/// quotes separates words.
pub open spec fn desktop_words_from(
    s: Seq<char>,
    cur: Seq<char>,
    quoted: bool,
    escaped: bool,
) -> Seq<Seq<char>>
    decreases s.len(),
{
    if s.len() == 0 {
        flush(cur)
    } else {
        let c = s[0];
        let rest = s.drop_first();
        if escaped {
            desktop_words_from(rest, cur.push(c), quoted, false)
        } else if c == '\\' {
            desktop_words_from(rest, cur, quoted, true)
        } else if c == '"' {
            desktop_words_from(rest, cur, !quoted, false)
        } else if crate::text::is_space(c) && !quoted {
            flush(cur) + desktop_words_from(rest, seq![], quoted, false)
        } else {
            desktop_words_from(rest, cur.push(c), quoted, false)
        }
    }
}

/// The words of a desktop `Exec` value.
pub open spec fn desktop_words(s: Seq<char>) -> Seq<Seq<char>> {
    desktop_words_from(s, seq![], false, false)
}

/// Splits a desktop `Exec` value into words, honouring double quotes and
/// backslash escapes.
pub fn split_desktop_words(value: &str) -> (out: Vec<String>)
    ensures
        views(out@) == desktop_words(value@),
{
    let v = chars_of(value);
    let mut out: Vec<String> = Vec::new();
    let mut cur: Vec<char> = Vec::new();
    let mut quoted = false;
    let mut escaped = false;
    let mut i: usize = 0;
    assert(v@.skip(0) =~= v@);
    assert(views(out@) =~= Seq::<Seq<char>>::empty());
    while i < v.len()
        invariant
            v@ == value@,
            i <= v@.len(),
            desktop_words(value@) == views(out@) + desktop_words_from(
                v@.skip(i as int),
                cur@,
                quoted,
                escaped,
            ),
        decreases v@.len() - i,
    {
        let ghost rest = v@.skip(i as int);
        assert(rest.drop_first() =~= v@.skip(i + 1));
        assert(rest[0] == v@[i as int]);
        let c = v[i];
        if escaped {
            cur.push(c);
            escaped = false;
        } else if c == '\\' {
            escaped = true;
        } else if c == '"' {
            quoted = !quoted;
        } else if is_whitespace_char(c) && !quoted {
            let ghost before = out@;
            if cur.len() > 0 {
                let w = string_of(&cur);
                out.push(w);
                assert(views(out@) =~= views(before) + flush(cur@));
            } else {
                assert(views(out@) =~= views(before) + flush(cur@));
            }
            cur = Vec::new();
        } else {
            cur.push(c);
        }
        i = i + 1;
    }
    if cur.len() > 0 {
        let ghost before = out@;
        let w = string_of(&cur);
        out.push(w);
        assert(views(out@) =~= views(before) + flush(cur@));
    } else {
        assert(views(out@) =~= views(out@) + flush(cur@));
    }
    out
}

/// A desktop field code standing alone as a word.
pub open spec fn is_field_code(w: Seq<char>) -> bool {
    w.len() == 2 && w[0] == '%' && (w[1] == 'f' || w[1] == 'F' || w[1] == 'u' || w[1] == 'U'
        || w[1] == 'd' || w[1] == 'D' || w[1] == 'n' || w[1] == 'N' || w[1] == 'i' || w[1]
        == 'c' || w[1] == 'k')
}

/// A word with its field codes expanded: `%%` is a literal `%`, a lone
/// trailing `%` stays, and `%` with any other character is removed.
pub open spec fn expand_field_codes(w: Seq<char>) -> Seq<char>
    decreases w.len(),
{
    if w.len() == 0 {
        seq![]
    } else if w[0] == '%' {
        if w.len() == 1 {
            seq!['%']
        } else if w[1] == '%' {
            seq!['%'] + expand_field_codes(w.skip(2))
        } else {
            expand_field_codes(w.skip(2))
        }
    } else {
        seq![w[0]] + expand_field_codes(w.drop_first())
    }
}

/// What a word of a desktop `Exec` value contributes to the command: nothing
/// for a field code or for a word that expands to nothing, else its expansion.
pub open spec fn clean_word(w: Seq<char>) -> Option<Seq<char>> {
    if is_field_code(w) {
        None
    } else {
        let c = expand_field_codes(w);
        if c.len() == 0 {
            None
        } else {
            Some(c)
        }
    }
}

/// Removes desktop field codes from one word of an `Exec` value.
pub fn clean_desktop_exec_word(word: &str) -> (r: Option<String>)
    ensures
        match clean_word(word@) {
            Some(c) => r matches Some(s) && s@ == c,
            None => r is None,
        },
{
    let v = chars_of(word);
    if v.len() == 2 && v[0] == '%' {
        let k = v[1];
        if k == 'f' || k == 'F' || k == 'u' || k == 'U' || k == 'd' || k == 'D' || k == 'n' || k
            == 'N' || k == 'i' || k == 'c' || k == 'k' {
            return None;
        }
    }
    let mut cleaned: Vec<char> = Vec::new();
    let mut i: usize = 0;
    assert(v@.skip(0) =~= v@);
    assert(cleaned@ + expand_field_codes(v@.skip(0)) =~= expand_field_codes(word@));
    while i < v.len()
        invariant
            v@ == word@,
            i <= v@.len(),
            expand_field_codes(word@) == cleaned@ + expand_field_codes(v@.skip(i as int)),
        decreases v@.len() - i,
    {
        let ghost rest = v@.skip(i as int);
        let ghost before = cleaned@;
        assert(rest[0] == v@[i as int]);
        if v[i] == '%' {
            if i + 1 >= v.len() {
                cleaned.push('%');
                assert(rest.len() == 1);
                assert(v@.skip(i + 1).len() == 0);
                assert(cleaned@ + expand_field_codes(v@.skip(i + 1)) =~= before + seq!['%']);
                i = i + 1;
            } else {
                assert(rest[1] == v@[i + 1]);
                assert(rest.skip(2) =~= v@.skip(i + 2));
                if v[i + 1] == '%' {
                    cleaned.push('%');
                    assert(cleaned@ + expand_field_codes(v@.skip(i + 2)) =~= before + (seq!['%']
                        + expand_field_codes(rest.skip(2))));
                } else {
                    assert(cleaned@ + expand_field_codes(v@.skip(i + 2)) =~= before
                        + expand_field_codes(rest.skip(2)));
                }
                i = i + 2;
            }
        } else {
            cleaned.push(v[i]);
            assert(rest.drop_first() =~= v@.skip(i + 1));
            assert(cleaned@ + expand_field_codes(v@.skip(i + 1)) =~= before + (seq![v@[i as int]]
                + expand_field_codes(rest.drop_first())));
            i = i + 1;
        }
    }
    assert(v@.skip(i as int).len() == 0);
    assert(cleaned@ =~= expand_field_codes(word@));
    if cleaned.len() == 0 {
        None
    } else {
        Some(string_of(&cleaned))
    }
}

/// The command words of `ws` after field-code removal, dropping words that
/// contribute nothing.
pub open spec fn clean_words(ws: Seq<Seq<char>>) -> Seq<Seq<char>>
    decreases ws.len(),
{
    if ws.len() == 0 {
        seq![]
    } else {
        (match clean_word(ws[0]) {
            Some(c) => seq![c],
            None => seq![],
        }) + clean_words(ws.drop_first())
    }
}

/// The command a desktop `Exec` value runs; none when nothing is left.
pub open spec fn desktop_command(line: Seq<char>) -> Option<Seq<Seq<char>>> {
    let c = clean_words(desktop_words(line));
    if c.len() == 0 {
        None
    } else {
        Some(c)
    }
}

/// Parses a desktop `Exec` value into a command without field codes.
pub fn parse_desktop_exec(exec_line: &str) -> (r: Option<Vec<String>>)
    ensures
        match desktop_command(exec_line@) {
            Some(c) => r matches Some(v) && views(v@) == c,
            None => r is None,
        },
{
    let ws = split_desktop_words(exec_line);
    let ghost wv = views(ws@);
    let mut command: Vec<String> = Vec::new();
    let mut i: usize = 0;
    assert(wv.skip(0) =~= wv);
    assert(views(command@) + clean_words(wv.skip(0)) =~= clean_words(wv));
    while i < ws.len()
        invariant
            wv == views(ws@),
            wv == desktop_words(exec_line@),
            i <= ws@.len(),
            clean_words(wv) == views(command@) + clean_words(wv.skip(i as int)),
        decreases ws@.len() - i,
    {
        let ghost before = command@;
        let ghost rest = wv.skip(i as int);
        assert(rest[0] == ws@[i as int]@);
        assert(rest.drop_first() =~= wv.skip(i + 1));
        match clean_desktop_exec_word(ws[i].as_str()) {
            Some(c) => {
                command.push(c);
                assert(views(command@) =~= views(before).push(c@));
            },
            None => {},
        }
        assert(views(command@) + clean_words(wv.skip(i + 1)) =~= views(before) + clean_words(rest));
        i = i + 1;
    }
    assert(wv.skip(i as int).len() == 0);
    assert(views(command@) =~= clean_words(wv));
    if command.len() == 0 {
        None
    } else {
        Some(command)
    }
}

/// The choice a `Name=command args` entry describes: the entry is trimmed,
/// split at its first `=`, and needs a non-blank name and at least one
/// command word; the name is kept trimmed.
pub open spec fn session_entry(value: Seq<char>) -> Option<(Seq<char>, Seq<Seq<char>>)> {
    let v = trim(value);
    if v.len() == 0 {
        None
    } else {
        match split_once(v, '=') {
            None => None,
            Some((name, command)) => {
                let w = words(command);
                if trim(name).len() == 0 || w.len() == 0 {
                    None
                } else {
                    Some((trim(name), w))
                }
            },
        }
    }
}

/// Whether `c` is the choice named `name` running `command`.
pub open spec fn is_choice(c: SessionChoice, name: Seq<char>, command: Seq<Seq<char>>) -> bool {
    c.name@ == name && opt_views(c.command) == Some(command)
}

/// Parses one `Name=command args` entry of a session list.
pub fn parse_session_entry(value: &str) -> (r: Option<SessionChoice>)
    ensures
        match session_entry(value@) {
            Some((name, command)) => r matches Some(c) && is_choice(c, name, command),
            None => r is None,
        },
{
    let v = chars_of(value);
    assert(v@.subrange(0, v@.len() as int) =~= v@);
    parse_session_entry_range(&v, 0, v.len())
}

fn parse_session_entry_range(v: &Vec<char>, lo: usize, hi: usize) -> (r: Option<SessionChoice>)
    requires
        lo <= hi <= v@.len(),
    ensures
        match session_entry(v@.subrange(lo as int, hi as int)) {
            Some((name, command)) => r matches Some(c) && is_choice(c, name, command),
            None => r is None,
        },
{
    let (a, b) = trim_bounds(v, lo, hi);
    if a == b {
        return None;
    }
    let ghost t = v@.subrange(a as int, b as int);
    let k = match find_char(v, a, b, '=') {
        Some(k) => k,
        None => {
            return None;
        },
    };
    assert(t.take(k as int) =~= v@.subrange(a as int, a + k));
    assert(t.skip(k + 1) =~= v@.subrange(a + k + 1, b as int));
    let command = split_words_range(v, a + k + 1, b);
    let (na, nb) = trim_bounds(v, a, a + k);
    if na == nb || command.len() == 0 {
        return None;
    }
    let name = string_of_range(v, na, nb);
    Some(SessionChoice { name, command: Some(command) })
}

/// Whether some choice in `sessions` is named `name`.
pub open spec fn has_name(sessions: Seq<SessionChoice>, name: Seq<char>) -> bool {
    exists|i: int| 0 <= i < sessions.len() && (#[trigger] sessions[i]).name@ == name
}

/// Adds `entry` unless a choice with its name is already listed.
pub fn push_session(sessions: &mut Vec<SessionChoice>, entry: SessionChoice)
    ensures
        final(sessions)@ == (if has_name(old(sessions)@, entry.name@) {
            old(sessions)@
        } else {
            old(sessions)@.push(entry)
        }),
{
    let mut i: usize = 0;
    while i < sessions.len()
        invariant
            i <= sessions@.len(),
            sessions@ == old(sessions)@,
            forall|j: int| 0 <= j < i ==> (#[trigger] sessions@[j]).name@ != entry.name@,
        decreases sessions@.len() - i,
    {
        if sessions[i].name == entry.name {
            return;
        }
        i = i + 1;
    }
    sessions.push(entry);
}

/// A choice taken by its view: its name and command.
pub type ChoiceView = (Seq<char>, Option<Seq<Seq<char>>>);

pub open spec fn choice_view(c: SessionChoice) -> ChoiceView {
    (c.name@, opt_views(c.command))
}

pub open spec fn choice_views(cs: Seq<SessionChoice>) -> Seq<ChoiceView> {
    cs.map_values(|c: SessionChoice| choice_view(c))
}

/// Whether some choice in `cs` is named `name`.
pub open spec fn lists_name(cs: Seq<ChoiceView>, name: Seq<char>) -> bool {
    exists|i: int| 0 <= i < cs.len() && (#[trigger] cs[i]).0 == name
}

/// `cs` with `c` added unless a choice of that name is listed.
pub open spec fn add_choice(cs: Seq<ChoiceView>, c: ChoiceView) -> Seq<ChoiceView> {
    if lists_name(cs, c.0) {
        cs
    } else {
        cs.push(c)
    }
}

/// `cs` with each of `more` added in turn.
pub open spec fn add_choices(cs: Seq<ChoiceView>, more: Seq<ChoiceView>) -> Seq<ChoiceView>
    decreases more.len(),
{
    if more.len() == 0 {
        cs
    } else {
        add_choices(add_choice(cs, more[0]), more.drop_first())
    }
}

/// `cs` with the choices of the `;`-separated entries of `list` added in
/// turn; entries that describe no choice are skipped.
pub open spec fn add_entries(cs: Seq<ChoiceView>, list: Seq<char>) -> Seq<ChoiceView>
    decreases list.len(),
{
    let k = crate::text::index_of(list, ';');
    let piece = if k < 0 {
        list
    } else {
        list.take(k)
    };
    let next = match session_entry(piece) {
        Some((name, command)) => add_choice(cs, (name, Some(command))),
        None => cs,
    };
    if k < 0 {
        next
    } else {
        proof {
            crate::text::lemma_index_of_bounds(list, ';');
        }
        add_entries(next, list.skip(k + 1))
    }
}

/// `cs` with the entries of each list added in turn.
pub open spec fn add_lists(cs: Seq<ChoiceView>, lists: Seq<Seq<char>>) -> Seq<ChoiceView>
    decreases lists.len(),
{
    if lists.len() == 0 {
        cs
    } else {
        add_lists(add_entries(cs, lists[0]), lists.drop_first())
    }
}

/// The catalog of login sessions: the desktop sessions, then the entries of
/// the session lists, each added unless its name is already listed; the
/// default session alone when nothing is listed.
pub open spec fn catalog(desktop: Seq<ChoiceView>, lists: Seq<Seq<char>>) -> Seq<ChoiceView> {
    let all = add_lists(add_choices(seq![], desktop), lists);
    if all.len() == 0 {
        seq![("Default session"@, None)]
    } else {
        all
    }
}

/// Whether no two choices of `cs` share a name.
pub open spec fn names_distinct(cs: Seq<ChoiceView>) -> bool {
    forall|i: int, j: int| 0 <= i < j < cs.len() ==> (#[trigger] cs[i]).0 != (#[trigger] cs[j]).0
}

proof fn lemma_add_choice_distinct(cs: Seq<ChoiceView>, c: ChoiceView)
    requires
        names_distinct(cs),
    ensures
        names_distinct(add_choice(cs, c)),
{
    if !lists_name(cs, c.0) {
        let r = cs.push(c);
        assert forall|i: int, j: int| 0 <= i < j < r.len() implies (#[trigger] r[i]).0 != (
        #[trigger] r[j]).0 by {
            if j == cs.len() {
                assert(r[i] == cs[i]);
            } else {
                assert(r[i] == cs[i] && r[j] == cs[j]);
            }
        }
    }
}

proof fn lemma_add_entries_distinct(cs: Seq<ChoiceView>, list: Seq<char>)
    requires
        names_distinct(cs),
    ensures
        names_distinct(add_entries(cs, list)),
    decreases list.len(),
{
    crate::text::lemma_index_of_bounds(list, ';');
    let k = crate::text::index_of(list, ';');
    let piece = if k < 0 {
        list
    } else {
        list.take(k)
    };
    match session_entry(piece) {
        Some((name, command)) => lemma_add_choice_distinct(cs, (name, Some(command))),
        None => {},
    }
    let next = match session_entry(piece) {
        Some((name, command)) => add_choice(cs, (name, Some(command))),
        None => cs,
    };
    if k >= 0 {
        lemma_add_entries_distinct(next, list.skip(k + 1));
    }
}

/// Adds the choices of the `;`-separated entries of `v[lo..hi]`.
fn add_list_entries(sessions: &mut Vec<SessionChoice>, v: &Vec<char>, lo: usize, hi: usize)
    requires
        lo <= hi <= v@.len(),
    ensures
        choice_views(final(sessions)@) == add_entries(
            choice_views(old(sessions)@),
            v@.subrange(lo as int, hi as int),
        ),
    decreases hi - lo,
{
    let ghost list = v@.subrange(lo as int, hi as int);
    proof {
        crate::text::lemma_index_of_bounds(list, ';');
    }
    let found = find_char(v, lo, hi, ';');
    let end = match found {
        Some(k) => lo + k,
        None => hi,
    };
    let ghost before = choice_views(sessions@);
    proof {
        if found is Some {
            assert(list.take(end - lo) =~= v@.subrange(lo as int, end as int));
        } else {
            assert(list =~= v@.subrange(lo as int, end as int));
        }
    }
    match parse_session_entry_range(v, lo, end) {
        Some(choice) => {
            let ghost c = choice_view(choice);
            push_session(sessions, choice);
            proof {
                lemma_has_name_views(old(sessions)@, c.0);
                if has_name(old(sessions)@, c.0) {
                } else {
                    assert(choice_views(sessions@) =~= before.push(c));
                }
            }
        },
        None => {},
    }
    if let Some(k) = found {
        assert(list.skip(k + 1) =~= v@.subrange(lo + k + 1, hi as int));
        add_list_entries(sessions, v, lo + k + 1, hi);
    }
}

proof fn lemma_has_name_views(cs: Seq<SessionChoice>, name: Seq<char>)
    ensures
        has_name(cs, name) == lists_name(choice_views(cs), name),
{
    if has_name(cs, name) {
        let i = choose|i: int| 0 <= i < cs.len() && (#[trigger] cs[i]).name@ == name;
        assert(choice_views(cs)[i].0 == name);
    }
    if lists_name(choice_views(cs), name) {
        let i = choose|i: int|
            0 <= i < choice_views(cs).len() && (#[trigger] choice_views(cs)[i]).0 == name;
        assert(cs[i].name@ == name);
    }
}

/// The login session catalog from the sessions found in desktop entries and
/// the `Name=command;...` lists of extra sessions, in order. Names never
/// repeat, and the catalog is never empty.
pub fn collect_sessions(desktop: Vec<SessionChoice>, lists: &Vec<String>) -> (out: Vec<
    SessionChoice,
>)
    ensures
        choice_views(out@) == catalog(choice_views(desktop@), views(lists@)),
        out@.len() > 0,
        names_distinct(choice_views(out@)),
{
    let ghost dv = choice_views(desktop@);
    let ghost lv = views(lists@);
    let mut sessions: Vec<SessionChoice> = Vec::new();
    let mut desktop = desktop;
    assert(choice_views(sessions@) =~= Seq::<ChoiceView>::empty());
    assert(choice_views(desktop@) =~= dv);
    while desktop.len() > 0
        invariant
            add_choices(seq![], dv) == add_choices(choice_views(sessions@), choice_views(desktop@)),
            names_distinct(choice_views(sessions@)),
        decreases desktop@.len(),
    {
        let ghost before = choice_views(sessions@);
        let ghost before_raw = sessions@;
        let ghost rest = desktop@;
        let d = desktop.remove(0);
        assert(choice_views(rest).drop_first() =~= choice_views(desktop@));
        assert(choice_views(rest)[0] == choice_view(d));
        proof {
            lemma_has_name_views(sessions@, d.name@);
            lemma_add_choice_distinct(before, choice_view(d));
        }
        push_session(&mut sessions, d);
        proof {
            if !has_name(before_raw, d.name@) {
                assert(choice_views(sessions@) =~= before.push(choice_view(d)));
            }
            assert(choice_views(sessions@) =~= add_choice(before, choice_view(d)));
        }
    }
    let mut i: usize = 0;
    assert(lv.skip(0) =~= lv);
    while i < lists.len()
        invariant
            lv == views(lists@),
            i <= lists@.len(),
            add_lists(add_choices(seq![], dv), lv) == add_lists(
                choice_views(sessions@),
                lv.skip(i as int),
            ),
            names_distinct(choice_views(sessions@)),
        decreases lists@.len() - i,
    {
        let ghost before = choice_views(sessions@);
        let v = chars_of(lists[i].as_str());
        assert(v@.subrange(0, v@.len() as int) =~= v@);
        assert(lv.skip(i as int)[0] == v@);
        assert(lv.skip(i as int).drop_first() =~= lv.skip(i + 1));
        proof {
            lemma_add_entries_distinct(before, v@);
        }
        add_list_entries(&mut sessions, &v, 0, v.len());
        i = i + 1;
    }
    assert(lv.skip(i as int).len() == 0);
    if sessions.len() == 0 {
        sessions.push(SessionChoice::default_session());
        assert(choice_views(sessions@) =~= seq![("Default session"@, None::<Seq<Seq<char>>>)]);
    }
    sessions
}

/// What the lines of a desktop file read so far have set.
pub struct DesktopFieldsView {
    pub in_entry: bool,
    pub name: Option<Seq<char>>,
    pub exec_value: Option<Seq<char>>,
    pub try_exec: Option<Seq<char>>,
    pub hidden: bool,
    pub no_display: bool,
}

pub open spec fn no_fields() -> DesktopFieldsView {
    DesktopFieldsView {
        in_entry: false,
        name: None,
        exec_value: None,
        try_exec: None,
        hidden: false,
        no_display: false,
    }
}

/// The effect of one line of a desktop file. Blank lines and `#` comments
/// change nothing; a `[...]` header starts a group, and only the
/// `[Desktop Entry]` group is read; inside it a `key=value` line (both sides
/// trimmed) sets `Name`, `Exec`, `TryExec`, `Hidden` or `NoDisplay`, the last
/// two true when the value is `true` in any case; other lines change nothing.
pub open spec fn scan_line(st: DesktopFieldsView, raw: Seq<char>) -> DesktopFieldsView {
    let l = trim(raw);
    if l.len() == 0 || l[0] == '#' {
        st
    } else if l[0] == '[' && l.last() == ']' {
        DesktopFieldsView { in_entry: l == "[Desktop Entry]"@, ..st }
    } else if !st.in_entry {
        st
    } else {
        match split_once(l, '=') {
            None => st,
            Some((k, v)) => {
                let key = trim(k);
                let value = trim(v);
                if key == "Name"@ {
                    DesktopFieldsView { name: Some(value), ..st }
                } else if key == "Exec"@ {
                    DesktopFieldsView { exec_value: Some(value), ..st }
                } else if key == "TryExec"@ {
                    DesktopFieldsView { try_exec: Some(value), ..st }
                } else if key == "Hidden"@ {
                    DesktopFieldsView {
                        hidden: crate::text::eq_ignore_ascii_case(value, "true"@),
                        ..st
                    }
                } else if key == "NoDisplay"@ {
                    DesktopFieldsView {
                        no_display: crate::text::eq_ignore_ascii_case(value, "true"@),
                        ..st
                    }
                } else {
                    st
                }
            },
        }
    }
}

/// The effect of the lines of `content`, in order. Lines end at `\n`; a
/// final line needs no `\n`, and an empty text has no line.
pub open spec fn scan_content(st: DesktopFieldsView, content: Seq<char>) -> DesktopFieldsView
    decreases content.len(),
{
    if content.len() == 0 {
        st
    } else {
        let k = crate::text::index_of(content, '\n');
        if k < 0 {
            scan_line(st, content)
        } else {
            proof {
                crate::text::lemma_index_of_bounds(content, '\n');
            }
            scan_content(scan_line(st, content.take(k)), content.skip(k + 1))
        }
    }
}

/// The session a desktop file describes, before its programs are checked:
/// its name (the file's stem, or `Session`, when it gives none), its command,
/// and the program its `TryExec` names. Hidden and not-displayed entries, and
/// entries without a command, describe none.
pub open spec fn desktop_session(content: Seq<char>, stem: Option<Seq<char>>) -> Option<
    (Seq<char>, Seq<Seq<char>>, Option<Seq<char>>),
> {
    let st = scan_content(no_fields(), content);
    if st.hidden || st.no_display {
        None
    } else {
        match st.exec_value {
            None => None,
            Some(e) => match desktop_command(e) {
                None => None,
                Some(command) => Some(
                    (
                        match st.name {
                            Some(n) => n,
                            None => match stem {
                                Some(s) => s,
                                None => "Session"@,
                            },
                        },
                        command,
                        st.try_exec,
                    ),
                ),
            },
        }
    }
}

/// A session read from a desktop file whose programs are still to be
/// checked.
pub struct DesktopSession {
    pub name: String,
    pub command: Vec<String>,
    pub try_exec: Option<String>,
}

struct DesktopFields {
    in_entry: bool,
    name: Option<String>,
    exec_value: Option<String>,
    try_exec: Option<String>,
    hidden: bool,
    no_display: bool,
}

impl View for DesktopFields {
    type V = DesktopFieldsView;

    closed spec fn view(&self) -> DesktopFieldsView {
        DesktopFieldsView {
            in_entry: self.in_entry,
            name: opt_view(self.name),
            exec_value: opt_view(self.exec_value),
            try_exec: opt_view(self.try_exec),
            hidden: self.hidden,
            no_display: self.no_display,
        }
    }
}

fn scan_line_range(st: &mut DesktopFields, v: &Vec<char>, lo: usize, hi: usize)
    requires
        lo <= hi <= v@.len(),
    ensures
        final(st)@ == scan_line(old(st)@, v@.subrange(lo as int, hi as int)),
{
    let (a, b) = trim_bounds(v, lo, hi);
    let ghost l = v@.subrange(a as int, b as int);
    if a == b || v[a] == '#' {
        return;
    }
    assert(l[0] == v@[a as int]);
    assert(l.last() == v@[b - 1]);
    if v[a] == '[' && v[b - 1] == ']' {
        st.in_entry = range_eq(v, a, b, "[Desktop Entry]");
        return;
    }
    if !st.in_entry {
        return;
    }
    let k = match find_char(v, a, b, '=') {
        Some(k) => k,
        None => {
            return;
        },
    };
    assert(l.take(k as int) =~= v@.subrange(a as int, a + k));
    assert(l.skip(k + 1) =~= v@.subrange(a + k + 1, b as int));
    let (ka, kb) = trim_bounds(v, a, a + k);
    let (va, vb) = trim_bounds(v, a + k + 1, b);
    if range_eq(v, ka, kb, "Name") {
        st.name = Some(string_of_range(v, va, vb));
    } else if range_eq(v, ka, kb, "Exec") {
        st.exec_value = Some(string_of_range(v, va, vb));
    } else if range_eq(v, ka, kb, "TryExec") {
        st.try_exec = Some(string_of_range(v, va, vb));
    } else if range_eq(v, ka, kb, "Hidden") {
        st.hidden = range_eq_ignore_ascii_case(v, va, vb, "true");
    } else if range_eq(v, ka, kb, "NoDisplay") {
        st.no_display = range_eq_ignore_ascii_case(v, va, vb, "true");
    }
}

/// Reads the session a desktop file describes from its content; `file_stem`
/// is the file's name without its extension.
pub fn parse_desktop_session_content(content: &str, file_stem: Option<&str>) -> (r: Option<
    DesktopSession,
>)
    ensures
        match desktop_session(content@, match file_stem {
            Some(s) => Some(s@),
            None => None,
        }) {
            Some((name, command, try_exec)) => r matches Some(d) && d.name@ == name && views(
                d.command@,
            ) == command && opt_view(d.try_exec) == try_exec,
            None => r is None,
        },
{
    let v = chars_of(content);
    let mut st = DesktopFields {
        in_entry: false,
        name: None,
        exec_value: None,
        try_exec: None,
        hidden: false,
        no_display: false,
    };
    let mut pos: usize = 0;
    assert(v@.subrange(0, v@.len() as int) =~= v@);
    while pos < v.len()
        invariant
            v@ == content@,
            pos <= v@.len(),
            scan_content(no_fields(), content@) == scan_content(
                st@,
                v@.subrange(pos as int, v@.len() as int),
            ),
        decreases v@.len() - pos,
    {
        let ghost rest = v@.subrange(pos as int, v@.len() as int);
        match find_char(&v, pos, v.len(), '\n') {
            Some(k) => {
                assert(rest.take(k as int) =~= v@.subrange(pos as int, pos + k));
                assert(rest.skip(k + 1) =~= v@.subrange(pos + k + 1, v@.len() as int));
                scan_line_range(&mut st, &v, pos, pos + k);
                pos = pos + k + 1;
            },
            None => {
                scan_line_range(&mut st, &v, pos, v.len());
                pos = v.len();
                assert(v@.subrange(pos as int, v@.len() as int).len() == 0);
            },
        }
    }
    if st.hidden || st.no_display {
        return None;
    }
    let exec_text = match &st.exec_value {
        Some(e) => e,
        None => {
            return None;
        },
    };
    let command = match parse_desktop_exec(exec_text.as_str()) {
        Some(c) => c,
        None => {
            return None;
        },
    };
    let name = match st.name {
        Some(n) => n,
        None => match file_stem {
            Some(s) => s.to_owned(),
            None => "Session".to_owned(),
        },
    };
    Some(DesktopSession { name, command, try_exec: st.try_exec })
}

impl DesktopSession {
    /// The choice this session becomes once its programs are checked: none
    /// when the `TryExec` program is missing (`try_exec_available` false) or
    /// when the command's program is (`program_available` false).
    pub fn into_choice(self, try_exec_available: bool, program_available: bool) -> (r: Option<
        SessionChoice,
    >)
        ensures
            (self.try_exec is Some && !try_exec_available) || !program_available ==> r is None,
            !((self.try_exec is Some && !try_exec_available) || !program_available) ==> (r
                matches Some(c) && c.name == self.name && c.command == Some(self.command)),
    {
        if self.try_exec.is_some() && !try_exec_available {
            return None;
        }
        if !program_available {
            return None;
        }
        Some(SessionChoice { name: self.name, command: Some(self.command) })
    }
}

} // verus!
