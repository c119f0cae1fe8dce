//! The directories searched for session `.desktop` files, worked out from the
//! XDG base-directory variables the caller read from the environment.
use vstd::prelude::*;

use crate::proto::opt_view;
use crate::text::{chars_of, push_char, range_eq, str_eq, string_of, string_of_range, views};

verus! {

/// `child` joined onto `base` as a path: an absolute `child` replaces
/// `base`, an empty `base` gives `child`, and otherwise one `/` separates
/// them unless `base` already ends with one.
pub open spec fn join_path(base: Seq<char>, child: Seq<char>) -> Seq<char> {
    if child.len() > 0 && child[0] == '/' {
        child
    } else if base.len() == 0 {
        child
    } else if base.last() == '/' {
        base + child
    } else {
        base + seq!['/'] + child
    }
}

/// Joins `child` onto `base` as a path.
pub fn join_path_str(base: &str, child: &str) -> (r: String)
    ensures
        r@ == join_path(base@, child@),
{
    let cv = chars_of(child);
    if cv.len() > 0 && cv[0] == '/' {
        return string_of(&cv);
    }
    let bv = chars_of(base);
    let mut out = string_of(&bv);
    if bv.len() > 0 && bv[bv.len() - 1] != '/' {
        push_char(&mut out, '/');
    }
    let ghost start = out@;
    let mut i: usize = 0;
    while i < cv.len()
        invariant
            i <= cv@.len(),
            out@ == start + cv@.subrange(0, i as int),
        decreases cv@.len() - i,
    {
        push_char(&mut out, cv[i]);
        i = i + 1;
        assert(out@ =~= start + cv@.subrange(0, i as int));
    }
    assert(cv@.subrange(0, cv@.len() as int) =~= cv@);
    assert(out@ =~= join_path(base@, child@));
    out
}

/// The parts of `s` between `:` separators, empty ones included, as a
/// colon-separated path list splits.
pub open spec fn split_colon_from(s: Seq<char>, cur: Seq<char>) -> Seq<Seq<char>>
    decreases s.len(),
{
    if s.len() == 0 {
        seq![cur]
    } else if s[0] == ':' {
        seq![cur] + split_colon_from(s.drop_first(), seq![])
    } else {
        split_colon_from(s.drop_first(), cur.push(s[0]))
    }
}

/// The entries of a colon-separated path list.
pub open spec fn split_colon(s: Seq<char>) -> Seq<Seq<char>> {
    split_colon_from(s, seq![])
}

/// Splits a colon-separated path list into its entries.
pub fn split_path_list(value: &str) -> (out: Vec<String>)
    ensures
        views(out@) == split_colon(value@),
{
    let v = chars_of(value);
    let mut out: Vec<String> = Vec::new();
    let mut start: usize = 0;
    let mut i: usize = 0;
    assert(views(out@) =~= Seq::<Seq<char>>::empty());
    assert(v@.skip(0) =~= v@);
    assert(v@.subrange(0, 0) =~= Seq::<char>::empty());
    while i < v.len()
        invariant
            start <= i <= v@.len(),
            v@ == value@,
            views(out@) + split_colon_from(
                v@.skip(i as int),
                v@.subrange(start as int, i as int),
            ) == split_colon(value@),
        decreases v@.len() - i,
    {
        let ghost before = views(out@);
        let ghost cur = v@.subrange(start as int, i as int);
        assert(v@.skip(i as int).drop_first() =~= v@.skip(i + 1));
        if v[i] == ':' {
            let part = string_of_range(&v, start, i);
            out.push(part);
            assert(views(out@) =~= before.push(cur));
            assert(before + split_colon_from(v@.skip(i as int), cur) =~= before.push(cur)
                + split_colon_from(v@.skip(i + 1), seq![]));
            start = i + 1;
            i = i + 1;
            assert(v@.subrange(start as int, i as int) =~= Seq::<char>::empty());
        } else {
            assert(cur.push(v[i as int]) =~= v@.subrange(start as int, i + 1));
            i = i + 1;
        }
    }
    let last = string_of_range(&v, start, i);
    let ghost before = views(out@);
    out.push(last);
    assert(views(out@) =~= before.push(last@));
    assert(v@.skip(i as int) =~= Seq::<char>::empty());
    out
}

/// The data roots searched, in order: `XDG_DATA_HOME`, or else
/// `$HOME/.local/share`; then each entry of `XDG_DATA_DIRS`, or else the
/// system, per-user profile and `/usr` share directories.
pub open spec fn data_roots(
    data_home: Option<Seq<char>>,
    home: Option<Seq<char>>,
    data_dirs: Option<Seq<char>>,
    user: Seq<char>,
) -> Seq<Seq<char>> {
    let first = match data_home {
        Some(h) => seq![h],
        None => match home {
            Some(h) => seq![join_path(h, ".local/share"@)],
            None => seq![],
        },
    };
    let rest = match data_dirs {
        Some(v) => split_colon(v),
        None => seq![
            "/run/current-system/sw/share"@,
            join_path(join_path("/etc/profiles/per-user"@, user), "share"@),
            "/usr/local/share"@,
            "/usr/share"@,
        ],
    };
    first + rest
}

/// `dirs` with `d` added at the end unless it is already there.
pub open spec fn add_dir(dirs: Seq<Seq<char>>, d: Seq<char>) -> Seq<Seq<char>> {
    if dirs.contains(d) {
        dirs
    } else {
        dirs.push(d)
    }
}

/// `dirs` followed by the `wayland-sessions` and `xsessions` directories of
/// each root in turn, each directory listed once.
pub open spec fn add_session_dirs(dirs: Seq<Seq<char>>, roots: Seq<Seq<char>>) -> Seq<Seq<char>>
    decreases roots.len(),
{
    if roots.len() == 0 {
        dirs
    } else {
        add_session_dirs(
            add_dir(
                add_dir(dirs, join_path(roots[0], "wayland-sessions"@)),
                join_path(roots[0], "xsessions"@),
            ),
            roots.drop_first(),
        )
    }
}

/// The session directories for the given environment values.
pub open spec fn session_dirs(
    data_home: Option<Seq<char>>,
    home: Option<Seq<char>>,
    data_dirs: Option<Seq<char>>,
    user: Seq<char>,
) -> Seq<Seq<char>> {
    add_session_dirs(seq![], data_roots(data_home, home, data_dirs, user))
}

/// The text of an optional string.
pub open spec fn opt_str_view(o: Option<&str>) -> Option<Seq<char>> {
    match o {
        Some(s) => Some(s@),
        None => None,
    }
}

fn push_dir(dirs: &mut Vec<String>, d: String)
    ensures
        views(final(dirs)@) == add_dir(views(old(dirs)@), d@),
{
    let ghost before = views(dirs@);
    let mut i: usize = 0;
    while i < dirs.len()
        invariant
            i <= dirs@.len(),
            views(dirs@) == before,
            forall|j: int| 0 <= j < i ==> dirs@[j]@ != d@,
        decreases dirs@.len() - i,
    {
        if str_eq(dirs[i].as_str(), d.as_str()) {
            assert(before[i as int] == d@);
            return;
        }
        i = i + 1;
    }
    assert(!before.contains(d@)) by {
        if before.contains(d@) {
            let j = choose|j: int| 0 <= j < before.len() && before[j] == d@;
            assert(dirs@[j]@ == d@);
        }
    }
    dirs.push(d);
    assert(views(dirs@) =~= before.push(d@));
}

/// The directories holding session `.desktop` files: the `wayland-sessions`
/// and `xsessions` directory of each data root (`data_home` standing for
/// `XDG_DATA_HOME`, `home` for `HOME`, `data_dirs` for `XDG_DATA_DIRS` and
/// `user` for `USER`, each as the environment gave it), in order, each
/// directory listed once.
pub fn session_desktop_dirs(
    data_home: Option<&str>,
    home: Option<&str>,
    data_dirs: Option<&str>,
    user: &str,
) -> (dirs: Vec<String>)
    ensures
        views(dirs@) == session_dirs(
            opt_str_view(data_home),
            opt_str_view(home),
            opt_str_view(data_dirs),
            user@,
        ),
{
    let mut roots: Vec<String> = Vec::new();
    match data_home {
        Some(h) => roots.push(h.to_owned()),
        None => match home {
            Some(h) => roots.push(join_path_str(h, ".local/share")),
            None => {},
        },
    }
    let ghost first = views(roots@);
    match data_dirs {
        Some(v) => {
            let parts = split_path_list(v);
            let mut k: usize = 0;
            while k < parts.len()
                invariant
                    k <= parts@.len(),
                    views(roots@) == first + views(parts@).subrange(0, k as int),
                decreases parts@.len() - k,
            {
                let ghost before = views(roots@);
                let part = parts[k].clone();
                roots.push(part);
                assert(views(roots@) =~= before.push(parts@[k as int]@));
                k = k + 1;
                assert(views(roots@) =~= first + views(parts@).subrange(0, k as int));
            }
            assert(views(parts@).subrange(0, parts@.len() as int) =~= views(parts@));
        },
        None => {
            roots.push("/run/current-system/sw/share".to_owned());
            let profile = join_path_str("/etc/profiles/per-user", user);
            roots.push(join_path_str(profile.as_str(), "share"));
            roots.push("/usr/local/share".to_owned());
            roots.push("/usr/share".to_owned());
        },
    }
    assert(views(roots@) =~= data_roots(
        opt_str_view(data_home),
        opt_str_view(home),
        opt_str_view(data_dirs),
        user@,
    ));
    let ghost all = views(roots@);
    let mut dirs: Vec<String> = Vec::new();
    let mut r: usize = 0;
    assert(views(dirs@) =~= Seq::<Seq<char>>::empty());
    assert(all.skip(0) =~= all);
    while r < roots.len()
        invariant
            r <= roots@.len(),
            views(roots@) == all,
            add_session_dirs(views(dirs@), all.skip(r as int)) == add_session_dirs(
                seq![],
                all,
            ),
        decreases roots@.len() - r,
    {
        assert(all.skip(r as int).drop_first() =~= all.skip(r + 1));
        assert(all.skip(r as int)[0] == roots@[r as int]@);
        let wayland = join_path_str(roots[r].as_str(), "wayland-sessions");
        push_dir(&mut dirs, wayland);
        let x11 = join_path_str(roots[r].as_str(), "xsessions");
        push_dir(&mut dirs, x11);
        r = r + 1;
    }
    assert(all.skip(r as int) =~= Seq::<Seq<char>>::empty());
    dirs
}

/// The index of the last `.` in `s`, or -1 when there is none.
pub open spec fn last_dot(s: Seq<char>) -> int
    decreases s.len(),
{
    if s.len() == 0 {
        -1
    } else if s.last() == '.' {
        s.len() - 1
    } else {
        last_dot(s.drop_last())
    }
}

/// The stem of a file name whose extension is `desktop`, none for any other
/// name. The extension follows the last `.`; a name whose only `.` leads it
/// has none.
pub open spec fn desktop_stem(name: Seq<char>) -> Option<Seq<char>> {
    let k = last_dot(name);
    if k > 0 && name.skip(k + 1) == "desktop"@ {
        Some(name.take(k))
    } else {
        None
    }
}

/// The stem of `file_name` when it names a `.desktop` file.
pub fn desktop_file_stem(file_name: &str) -> (r: Option<String>)
    ensures
        opt_view(r) == desktop_stem(file_name@),
{
    let v = chars_of(file_name);
    let mut k: usize = v.len();
    assert(v@.take(k as int) =~= v@);
    while k > 0 && v[k - 1] != '.'
        invariant
            v@ == file_name@,
            k <= v@.len(),
            last_dot(v@) == last_dot(v@.take(k as int)),
        decreases k,
    {
        assert(v@.take(k as int).drop_last() =~= v@.take(k - 1));
        k = k - 1;
    }
    if k == 0 {
        assert(v@.take(0) =~= Seq::<char>::empty());
        return None;
    }
    assert(v@.take(k as int).drop_last() =~= v@.take(k - 1));
    assert(last_dot(v@) == k - 1);
    let dot = k - 1;
    if dot == 0 {
        return None;
    }
    assert(v@.skip(dot + 1) =~= v@.subrange(dot + 1, v@.len() as int));
    if range_eq(&v, dot + 1, v.len(), "desktop") {
        let stem = string_of_range(&v, 0, dot);
        assert(v@.take(dot as int) =~= v@.subrange(0, dot as int));
        Some(stem)
    } else {
        None
    }
}

} // verus!
