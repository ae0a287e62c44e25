//! Which terminal emulator to open a command in, and how.
use crate::cast::id_views;
use crate::text::{owned, push_str, split_char, str_eq};
use crate::window::clone_range;
use vstd::prelude::*;

verus! {

/// One way to run a command in a terminal: the program, and its arguments
/// (the command last).
#[derive(Debug, Clone, PartialEq, Eq)]
pub struct TerminalLaunch {
    pub program: String,
    pub args: Vec<String>,
}

/// The fallback terminals after `xdg-terminal-exec` and `$TERMINAL`, with
/// the flags that precede the command for each.
pub open spec fn fallbacks() -> Seq<(Seq<char>, Seq<Seq<char>>)> {
    seq![
        ("kitty"@, seq!["-e"@]),
        ("ghostty"@, seq!["-e"@]),
        ("alacritty"@, seq!["-e"@]),
        ("foot"@, seq!["-e"@]),
        ("xterm"@, seq!["-e"@]),
        ("konsole"@, seq!["-e"@]),
        ("tilix"@, seq!["-e"@]),
        ("wezterm"@, seq!["start"@, "--"@]),
        ("gnome-terminal"@, seq!["--"@]),
        ("kgx"@, seq!["--"@]),
        ("ptyxis"@, seq!["--"@]),
        ("xfce4-terminal"@, seq!["-x"@]),
        ("mate-terminal"@, seq!["-x"@]),
    ]
}

/// The first fallback named `name`, if any.
pub open spec fn fallback_position(name: Seq<char>, from: int) -> Option<int>
    decreases 13 - from,
{
    if from < 0 || from >= 13 {
        None
    } else if fallbacks()[from].0 == name {
        Some(from)
    } else {
        fallback_position(name, from + 1)
    }
}

/// The flags a terminal called `basename` takes before the command: its
/// fallback entry's, else `-e`.
pub open spec fn exec_prefix_spec(basename: Seq<char>) -> Seq<Seq<char>> {
    match fallback_position(basename, 0) {
        Some(i) => fallbacks()[i].1,
        None => seq!["-e"@],
    }
}

fn fallback_table() -> (r: Vec<(&'static str, Vec<&'static str>)>)
    ensures
        r@.len() == 13,
        forall|i: int|
            0 <= i < 13 ==> (#[trigger] r@[i]).0@ == fallbacks()[i].0 && r@[i].1@.len()
                == fallbacks()[i].1.len() && forall|j: int|
                0 <= j < r@[i].1@.len() ==> r@[i].1@[j]@ == fallbacks()[i].1[j],
{
    let t = vec![
        ("kitty", vec!["-e"]),
        ("ghostty", vec!["-e"]),
        ("alacritty", vec!["-e"]),
        ("foot", vec!["-e"]),
        ("xterm", vec!["-e"]),
        ("konsole", vec!["-e"]),
        ("tilix", vec!["-e"]),
        ("wezterm", vec!["start", "--"]),
        ("gnome-terminal", vec!["--"]),
        ("kgx", vec!["--"]),
        ("ptyxis", vec!["--"]),
        ("xfce4-terminal", vec!["-x"]),
        ("mate-terminal", vec!["-x"]),
    ];
    proof {
        reveal_strlit("kitty");
        reveal_strlit("ghostty");
        reveal_strlit("alacritty");
        reveal_strlit("foot");
        reveal_strlit("xterm");
        reveal_strlit("konsole");
        reveal_strlit("tilix");
        reveal_strlit("wezterm");
        reveal_strlit("gnome-terminal");
        reveal_strlit("kgx");
        reveal_strlit("ptyxis");
        reveal_strlit("xfce4-terminal");
        reveal_strlit("mate-terminal");
        reveal_strlit("-e");
        reveal_strlit("start");
        reveal_strlit("--");
        reveal_strlit("-x");
    }
    t
}

fn strings(words: &Vec<&'static str>) -> (r: Vec<String>)
    ensures
        id_views(r@) == words@.map_values(|w: &str| w@),
{
    let mut out: Vec<String> = Vec::new();
    let mut i: usize = 0;
    while i < words.len()
        invariant
            i <= words@.len(),
            out@.len() == i,
            forall|j: int| 0 <= j < i ==> #[trigger] out@[j]@ == words@[j]@,
        decreases words@.len() - i,
    {
        out.push(owned(words[i]));
        i = i + 1;
    }
    assert(id_views(out@) =~= words@.map_values(|w: &str| w@));
    out
}

/// The flags before the command for a terminal called `basename`.
pub fn exec_prefix(basename: &str) -> (r: Vec<String>)
    ensures
        id_views(r@) == exec_prefix_spec(basename@),
{
    let table = fallback_table();
    let mut i: usize = 0;
    while i < 13
        invariant
            i <= 13,
            table@.len() == 13,
            forall|k: int|
                0 <= k < 13 ==> (#[trigger] table@[k]).0@ == fallbacks()[k].0 && table@[k].1@.len()
                    == fallbacks()[k].1.len() && forall|j: int|
                    0 <= j < table@[k].1@.len() ==> table@[k].1@[j]@ == fallbacks()[k].1[j],
            fallback_position(basename@, 0) == fallback_position(basename@, i as int),
        decreases 13 - i,
    {
        if str_eq(table[i].0, basename) {
            let r = strings(&table[i].1);
            assert(id_views(r@) =~= fallbacks()[i as int].1);
            return r;
        }
        i = i + 1;
    }
    proof {
        reveal_strlit("-e");
    }
    let r = strings(&vec!["-e"]);
    assert(id_views(r@) =~= seq!["-e"@]);
    r
}

/// Where `name` is found, by the lookup table `available` (the first entry
/// for it), if anywhere.
pub open spec fn found_at(available: Seq<(String, String)>, name: Seq<char>) -> Option<Seq<char>>
    decreases available.len(),
{
    if available.len() == 0 {
        None
    } else if available[0].0@ == name {
        Some(available[0].1@)
    } else {
        found_at(available.drop_first(), name)
    }
}

fn find_available(available: &Vec<(String, String)>, name: &str) -> (r: Option<String>)
    ensures
        crate::weburl::opt_chars(r) == found_at(available@, name@),
{
    let mut i: usize = 0;
    assert(available@.skip(0) == available@);
    while i < available.len()
        invariant
            i <= available@.len(),
            found_at(available@, name@) == found_at(available@.skip(i as int), name@),
        decreases available@.len() - i,
    {
        assert(available@.skip(i as int)[0] == available@[i as int]);
        if str_eq(available[i].0.as_str(), name) {
            return Some(available[i].1.clone());
        }
        assert(available@.skip(i as int).drop_first() == available@.skip(i + 1));
        i = i + 1;
    }
    None
}

/// The components of a Unix path that are names: what is between the `/`s,
/// without the empty pieces repeated or trailing slashes leave and without
/// the `.` that `Path` normalises away.
pub open spec fn path_names(path: Seq<char>) -> Seq<Seq<char>> {
    split_char(path, '/').filter(|c: Seq<char>| c.len() > 0 && c != "."@)
}

/// The last component of a path, as `Path::file_name` documents it: the
/// final component when it is a name, `None` when there is none (the root,
/// an empty path, `.`) or it is `..`.
pub open spec fn path_file_name(path: Seq<char>) -> Option<Seq<char>> {
    let names = path_names(path);
    if names.len() == 0 || names.last() == ".."@ {
        None
    } else {
        Some(names.last())
    }
}

/// `Path::new(path).file_name()`, which for a `str` path is always valid
/// UTF-8.
///
/// Trusted: the result is what the documentation of `Path::file_name` and
/// `Path::components` says, as `path_file_name` writes it out.
#[verifier::external_body]
fn file_name_of(path: &str) -> (r: Option<String>)
    ensures
        crate::weburl::opt_chars(r) == path_file_name(path@),
{
    std::path::Path::new(path).file_name().and_then(|n| n.to_str()).map(str::to_string)
}

/// The terminals to try, best first: `xdg-terminal-exec` with a window
/// title, then `$TERMINAL` (looked up as written, then by its file name),
/// then every available fallback in table order.
pub open spec fn candidates_spec(
    argv: Seq<Seq<char>>,
    available: Seq<(String, String)>,
    env_terminal: Option<Seq<char>>,
) -> Seq<(Seq<char>, Seq<Seq<char>>)> {
    let xdg = match found_at(available, "xdg-terminal-exec"@) {
        Some(p) => seq![(p, seq!["--title=jellysink"@, "--"@] + argv)],
        None => Seq::empty(),
    };
    let env = match env_terminal {
        Some(term) => {
            let by_name = match path_file_name(term) {
                Some(n) => n,
                None => Seq::empty(),
            };
            let program = match found_at(available, term) {
                Some(p) => Some(p),
                None => if by_name != term {
                    found_at(available, by_name)
                } else {
                    None
                },
            };
            match program {
                Some(p) => seq![(p, exec_prefix_spec(by_name) + argv)],
                None => Seq::empty(),
            }
        },
        None => Seq::empty(),
    };
    xdg + env + fallback_launches(argv, available, 0)
}

/// The launches of the available fallbacks from table position `from` on.
pub open spec fn fallback_launches(argv: Seq<Seq<char>>, available: Seq<(String, String)>, from: int) -> Seq<(Seq<char>, Seq<Seq<char>>)>
    decreases 13 - from,
{
    if from < 0 || from >= 13 {
        Seq::empty()
    } else {
        (match found_at(available, fallbacks()[from].0) {
            Some(p) => seq![(p, fallbacks()[from].1 + argv)],
            None => Seq::empty(),
        }) + fallback_launches(argv, available, from + 1)
    }
}

pub open spec fn launch_views(ls: Seq<TerminalLaunch>) -> Seq<(Seq<char>, Seq<Seq<char>>)> {
    ls.map_values(|l: TerminalLaunch| (l.program@, id_views(l.args@)))
}

fn launch(program: String, prefix: Vec<String>, argv: &Vec<String>) -> (r: TerminalLaunch)
    ensures
        r.program == program,
        id_views(r.args@) == id_views(prefix@) + id_views(argv@),
{
    let mut args = prefix;
    let mut tail = clone_range(argv, 0, argv.len());
    assert(argv@.subrange(0, argv@.len() as int) == argv@);
    let ghost before = args@;
    args.append(&mut tail);
    assert(id_views(args@) =~= id_views(before) + id_views(argv@));
    TerminalLaunch { program, args }
}

/// The ways to run `argv` in a terminal, best first; `available` says where
/// each terminal the caller looked up was found.
pub fn terminal_candidates(
    argv: &Vec<String>,
    available: &Vec<(String, String)>,
    env_terminal: Option<&str>,
) -> (r: Vec<TerminalLaunch>)
    ensures
        launch_views(r@) == candidates_spec(
            id_views(argv@),
            available@,
            crate::series::opt_str(env_terminal),
        ),
{
    proof {
        reveal_strlit("xdg-terminal-exec");
        reveal_strlit("--title=jellysink");
        reveal_strlit("--");
    }
    let ghost a = id_views(argv@);
    let mut out: Vec<TerminalLaunch> = Vec::new();
    match find_available(available, "xdg-terminal-exec") {
        Some(program) => {
            let mut prefix: Vec<String> = Vec::new();
            prefix.push(owned("--title=jellysink"));
            prefix.push(owned("--"));
            assert(id_views(prefix@) =~= seq!["--title=jellysink"@, "--"@]);
            out.push(launch(program, prefix, argv));
        },
        None => {},
    }
    let ghost after_xdg = launch_views(out@);
    match env_terminal {
        Some(term) => {
            let by_name = match file_name_of(term) {
                Some(n) => n,
                None => String::new(),
            };
            let program = match find_available(available, term) {
                Some(p) => Some(p),
                None => if !str_eq(by_name.as_str(), term) {
                    find_available(available, by_name.as_str())
                } else {
                    None
                },
            };
            match program {
                Some(p) => {
                    let prefix = exec_prefix(by_name.as_str());
                    out.push(launch(p, prefix, argv));
                },
                None => {},
            }
        },
        None => {},
    }
    let ghost after_env = launch_views(out@);
    let table = fallback_table();
    let mut i: usize = 0;
    assert(launch_views(out@) =~= after_env + fallback_launches(a, available@, 0).take(0)) by {
        assert(fallback_launches(a, available@, 0).take(0) =~= Seq::<(Seq<char>, Seq<Seq<char>>)>::empty());
    }
    while i < 13
        invariant
            i <= 13,
            table@.len() == 13,
            forall|k: int|
                0 <= k < 13 ==> (#[trigger] table@[k]).0@ == fallbacks()[k].0 && table@[k].1@.len()
                    == fallbacks()[k].1.len() && forall|j: int|
                    0 <= j < table@[k].1@.len() ==> table@[k].1@[j]@ == fallbacks()[k].1[j],
            a == id_views(argv@),
            launch_views(out@) + fallback_launches(a, available@, i as int) == after_env
                + fallback_launches(a, available@, 0),
        decreases 13 - i,
    {
        let ghost before = launch_views(out@);
        match find_available(available, table[i].0) {
            Some(p) => {
                let ghost pv = p@;
                let prefix = strings(&table[i].1);
                assert(id_views(prefix@) =~= fallbacks()[i as int].1);
                out.push(launch(p, prefix, argv));
                assert(launch_views(out@) =~= before.push((pv, fallbacks()[i as int].1 + a)));
            },
            None => {},
        }
        proof {
            let here = match found_at(available@, fallbacks()[i as int].0) {
                Some(p) => seq![(p, fallbacks()[i as int].1 + a)],
                None => Seq::<(Seq<char>, Seq<Seq<char>>)>::empty(),
            };
            assert(fallback_launches(a, available@, i as int) == here + fallback_launches(
                a,
                available@,
                i + 1,
            ));
            assert(launch_views(out@) =~= before + here);
            assert(launch_views(out@) + fallback_launches(a, available@, i + 1) =~= before
                + fallback_launches(a, available@, i as int));
        }
        i = i + 1;
    }
    assert(fallback_launches(a, available@, 13) =~= Seq::<(Seq<char>, Seq<Seq<char>>)>::empty());
    assert(launch_views(out@) =~= after_env + fallback_launches(a, available@, 0));
    out
}

} // verus!
