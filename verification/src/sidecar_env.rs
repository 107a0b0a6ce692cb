//! The environment that the sidecar server runs with.
//!
//! An app that the desktop launches inherits a minimal `PATH`, so the tools that the user
//! installed are out of the server's sight. The login shell is therefore asked once for its
//! environment, and the usual install directories are added to `PATH` on top. An app that was
//! launched from a shell, or on Windows, has the real environment already and needs nothing.
use vstd::prelude::*;

use crate::env_map::EnvMap;
use crate::platform::Platform;
use crate::probe::{parse_probe_output, probed_vars, LaunchContext, ProbeOutcome};
use crate::text::{
    chars_of, join_path, joined, law_first_entries_read_back, lemma_entries_plain,
    lemma_split_joined, opt_text, path_entries, piece, plain_entry, same_text, split_path, texts,
};

verus! {

/// Directories where user-installed tools live and where a desktop launch does not look. A
/// leading `~/` stands for the user's home.
pub open spec fn known_tool_dirs() -> Seq<Seq<char>> {
    seq![
        "/opt/homebrew/bin"@,
        "/opt/homebrew/sbin"@,
        "/usr/local/bin"@,
        "/usr/local/sbin"@,
        "/opt/local/bin"@,
        "/home/linuxbrew/.linuxbrew/bin"@,
        "/snap/bin"@,
        "~/.local/bin"@,
        "~/.cargo/bin"@,
        "~/go/bin"@,
        "~/.deno/bin"@,
    ]
}

/// Where a tool directory is for a user with this home. Without a home, one below it is
/// nowhere.
pub open spec fn resolved(dir: Seq<char>, home: Seq<char>) -> Option<Seq<char>> {
    if dir.len() >= 2 && dir[0] == '~' && dir[1] == '/' {
        if home.len() > 0 {
            Some(home + "/"@ + dir.skip(2))
        } else {
            None
        }
    } else {
        Some(dir)
    }
}

/// Where the directories of a list are, for those that are somewhere.
pub open spec fn resolved_dirs(dirs: Seq<Seq<char>>, home: Seq<char>) -> Seq<Seq<char>>
    decreases dirs.len(),
{
    if dirs.len() == 0 {
        seq![]
    } else {
        let before = resolved_dirs(dirs.drop_last(), home);
        match resolved(dirs.last(), home) {
            Some(dir) => before.push(dir),
            None => before,
        }
    }
}

/// `entries`, followed by those of `dirs` that exist and are not there yet.
pub open spec fn extended(
    entries: Seq<Seq<char>>,
    dirs: Seq<Seq<char>>,
    existing: Seq<Seq<char>>,
) -> Seq<Seq<char>>
    decreases dirs.len(),
{
    if dirs.len() == 0 {
        entries
    } else {
        let before = extended(entries, dirs.drop_last(), existing);
        if !before.contains(dirs.last()) && existing.contains(dirs.last()) {
            before.push(dirs.last())
        } else {
            before
        }
    }
}

/// The value of a variable: what the probe found, else the app's own, else empty.
pub open spec fn lookup(
    vars: Map<Seq<char>, Seq<char>>,
    name: Seq<char>,
    own: Option<Seq<char>>,
) -> Seq<char> {
    if vars.contains_key(name) {
        vars[name]
    } else {
        match own {
            Some(value) => value,
            None => seq![],
        }
    }
}

/// The variables of the user: what the probe found, without those that describe the probe's
/// own shell. None where the probe did not finish.
pub open spec fn user_vars(output: Option<Seq<char>>) -> Map<Seq<char>, Seq<char>> {
    match output {
        Some(text) => probed_vars(text).remove("SHLVL"@).remove("PWD"@).remove("OLDPWD"@).remove(
            "_"@,
        ),
        None => Map::empty(),
    }
}

/// The user's home.
pub open spec fn user_home(ctx: LaunchContext, output: Option<Seq<char>>) -> Seq<char> {
    lookup(user_vars(output), "HOME"@, opt_text(ctx.home))
}

/// The entries of the user's `PATH`.
pub open spec fn user_path(ctx: LaunchContext, output: Option<Seq<char>>) -> Seq<Seq<char>> {
    path_entries(lookup(user_vars(output), "PATH"@, opt_text(ctx.path)))
}

/// The entries of the server's `PATH`: the user's, and the tool directories that exist.
pub open spec fn server_path(
    ctx: LaunchContext,
    output: Option<Seq<char>>,
    existing: Seq<Seq<char>>,
) -> Seq<Seq<char>> {
    extended(
        user_path(ctx, output),
        resolved_dirs(known_tool_dirs(), user_home(ctx, output)),
        existing,
    )
}

/// The variables to set for the server, over those that it inherits.
pub open spec fn sidecar_vars(
    ctx: LaunchContext,
    output: Option<Seq<char>>,
    existing: Seq<Seq<char>>,
) -> Map<Seq<char>, Seq<char>> {
    if ctx.has_real_env() {
        Map::empty()
    } else {
        user_vars(output).insert("PATH"@, joined(server_path(ctx, output, existing)))
    }
}

fn tool_dirs() -> (r: Vec<&'static str>)
    ensures
        r@.map_values(|s: &'static str| s@) == known_tool_dirs(),
{
    let dirs = vec![
        "/opt/homebrew/bin",
        "/opt/homebrew/sbin",
        "/usr/local/bin",
        "/usr/local/sbin",
        "/opt/local/bin",
        "/home/linuxbrew/.linuxbrew/bin",
        "/snap/bin",
        "~/.local/bin",
        "~/.cargo/bin",
        "~/go/bin",
        "~/.deno/bin",
    ];
    assert(dirs@.map_values(|s: &'static str| s@) == known_tool_dirs());
    dirs
}

fn resolve(dir: &str, home: &str) -> (r: Option<String>)
    ensures
        opt_text(r) == resolved(dir@, home@),
{
    let chars = chars_of(dir);
    if chars.len() >= 2 && chars[0] == '~' && chars[1] == '/' {
        if home.is_empty() {
            None
        } else {
            let mut out = home.to_owned();
            out.append("/");
            assert(dir@.subrange(2, dir@.len() as int) == dir@.skip(2));
            out.append(piece(dir, 2, chars.len()).as_str());
            Some(out)
        }
    } else {
        Some(dir.to_owned())
    }
}

fn resolve_all(home: &str) -> (r: Vec<String>)
    ensures
        texts(r@) == resolved_dirs(known_tool_dirs(), home@),
{
    let dirs = tool_dirs();
    let ghost all = known_tool_dirs();
    let mut out: Vec<String> = Vec::new();
    let mut i: usize = 0;
    assert(all.take(0) == Seq::<Seq<char>>::empty());
    while i < dirs.len()
        invariant
            i <= dirs.len(),
            all == known_tool_dirs(),
            dirs@.map_values(|s: &'static str| s@) == all,
            texts(out@) == resolved_dirs(all.take(i as int), home@),
        decreases dirs.len() - i,
    {
        assert(all[i as int] == dirs@[i as int]@);
        assert(all.take(i + 1).drop_last() == all.take(i as int));
        let ghost before = texts(out@);
        if let Some(dir) = resolve(dirs[i], home) {
            out.push(dir);
            assert(texts(out@) == before.push(dir@));
        }
        i = i + 1;
    }
    assert(all.take(i as int) == all);
    out
}

/// Whether a list holds a text.
fn holds(list: &Vec<String>, text: &str) -> (r: bool)
    ensures
        r == texts(list@).contains(text@),
{
    let mut i: usize = 0;
    while i < list.len()
        invariant
            i <= list.len(),
            forall|j: int| 0 <= j < i ==> (#[trigger] texts(list@)[j]) != text@,
        decreases list.len() - i,
    {
        assert(texts(list@)[i as int] == list@[i as int]@);
        if same_text(list[i].as_str(), text) {
            return true;
        }
        i = i + 1;
    }
    false
}

fn add_dirs(entries: Vec<String>, dirs: &Vec<String>, existing: &Vec<String>) -> (r: Vec<String>)
    ensures
        texts(r@) == extended(texts(entries@), texts(dirs@), texts(existing@)),
{
    let ghost all = texts(dirs@);
    let ghost start = texts(entries@);
    let mut out = entries;
    let mut i: usize = 0;
    assert(all.take(0) == Seq::<Seq<char>>::empty());
    while i < dirs.len()
        invariant
            i <= dirs.len(),
            all == texts(dirs@),
            texts(out@) == extended(start, all.take(i as int), texts(existing@)),
        decreases dirs.len() - i,
    {
        assert(all[i as int] == dirs@[i as int]@);
        assert(all.take(i + 1).drop_last() == all.take(i as int));
        let ghost before = texts(out@);
        let dir = dirs[i].as_str();
        if !holds(&out, dir) && holds(existing, dir) {
            out.push(dir.to_owned());
            assert(texts(out@) == before.push(dir@));
        }
        i = i + 1;
    }
    assert(all.take(i as int) == all);
    out
}

fn user_env(probe: &ProbeOutcome) -> (r: EnvMap)
    ensures
        r@ == user_vars(probe.output()),
{
    match probe {
        ProbeOutcome::Finished(text) => {
            let mut vars = parse_probe_output(text.as_str());
            vars.remove("SHLVL");
            vars.remove("PWD");
            vars.remove("OLDPWD");
            vars.remove("_");
            vars
        },
        _ => EnvMap::new(),
    }
}

fn find_or_own(vars: &EnvMap, name: &str, own: &Option<String>) -> (r: String)
    ensures
        r@ == lookup(vars@, name@, opt_text(*own)),
{
    match vars.get(name) {
        Some(value) => value,
        None => match own {
            Some(value) => value.clone(),
            None => String::new(),
        },
    }
}

/// The directories to look for before the server's environment is made: the usual install
/// directories, for this user. None where the environment is real already.
pub fn tool_dir_candidates(ctx: &LaunchContext, probe: &ProbeOutcome) -> (r: Vec<String>)
    ensures
        texts(r@) == if ctx.has_real_env() {
            seq![]
        } else {
            resolved_dirs(known_tool_dirs(), user_home(*ctx, probe.output()))
        },
{
    if ctx.platform == Platform::Windows || ctx.from_shell {
        let none: Vec<String> = Vec::new();
        assert(texts(none@) == Seq::<Seq<char>>::empty());
        return none;
    }
    let vars = user_env(probe);
    let home = find_or_own(&vars, "HOME", &ctx.home);
    resolve_all(home.as_str())
}

/// The variables to set for the server, over those that it inherits. `existing_dirs` are the
/// candidates that are directories.
pub fn sidecar_env(ctx: &LaunchContext, probe: &ProbeOutcome, existing_dirs: &Vec<String>) -> (r:
    EnvMap)
    ensures
        r@ == sidecar_vars(*ctx, probe.output(), texts(existing_dirs@)),
{
    if ctx.platform == Platform::Windows || ctx.from_shell {
        return EnvMap::new();
    }
    let mut vars = user_env(probe);
    let base = find_or_own(&vars, "PATH", &ctx.path);
    let home = find_or_own(&vars, "HOME", &ctx.home);
    let dirs = resolve_all(home.as_str());
    let entries = add_dirs(split_path(base.as_str()), &dirs, existing_dirs);
    vars.insert("PATH".to_owned(), join_path(&entries));
    vars
}

/// What the probe found reaches the server unchanged, apart from `PATH` and the variables
/// that describe the probe's own shell, which do not reach it.
pub proof fn law_user_vars_reach_server(
    ctx: LaunchContext,
    text: Seq<char>,
    existing: Seq<Seq<char>>,
    name: Seq<char>,
)
    requires
        ctx.platform != Platform::Windows,
        !ctx.from_shell,
        name != "PATH"@,
    ensures
        ({
            let vars = sidecar_vars(ctx, Some(text), existing);
            if name == "SHLVL"@ || name == "PWD"@ || name == "OLDPWD"@ || name == "_"@ {
                !vars.contains_key(name)
            } else {
                &&& vars.contains_key(name) == probed_vars(text).contains_key(name)
                &&& vars.contains_key(name) ==> vars[name] == probed_vars(text)[name]
            }
        }),
{
}

/// Where the probe did not finish, the server gets a repaired `PATH` and nothing else.
pub proof fn law_failed_probe_repairs_path(ctx: LaunchContext, existing: Seq<Seq<char>>)
    requires
        ctx.platform != Platform::Windows,
        !ctx.from_shell,
    ensures
        sidecar_vars(ctx, None, existing) == map![
            "PATH"@ => joined(
                extended(
                    path_entries(
                        match opt_text(ctx.path) {
                            Some(path) => path,
                            None => seq![],
                        },
                    ),
                    resolved_dirs(
                        known_tool_dirs(),
                        match opt_text(ctx.home) {
                            Some(home) => home,
                            None => seq![],
                        },
                    ),
                    existing,
                ),
            )
        ],
{
}

/// The user's entries come first, in their order; each entry after them is a tool directory
/// that exists; and each tool directory that exists is there.
pub proof fn law_extended(
    entries: Seq<Seq<char>>,
    dirs: Seq<Seq<char>>,
    existing: Seq<Seq<char>>,
)
    ensures
        extended(entries, dirs, existing).len() >= entries.len(),
        extended(entries, dirs, existing).take(entries.len() as int) == entries,
        forall|i: int|
            entries.len() <= i < extended(entries, dirs, existing).len() ==> dirs.contains(
                #[trigger] extended(entries, dirs, existing)[i],
            ) && existing.contains(extended(entries, dirs, existing)[i]),
        forall|d: Seq<char>|
            dirs.contains(d) && existing.contains(d) ==> #[trigger] extended(
                entries,
                dirs,
                existing,
            ).contains(d),
    decreases dirs.len(),
{
    let all = extended(entries, dirs, existing);
    if dirs.len() == 0 {
        assert(all.take(entries.len() as int) == entries);
    } else {
        let init = dirs.drop_last();
        let before = extended(entries, init, existing);
        law_extended(entries, init, existing);
        assert(all.take(entries.len() as int) == before.take(entries.len() as int));
        assert forall|i: int| entries.len() <= i < all.len() implies dirs.contains(
            #[trigger] all[i],
        ) && existing.contains(all[i]) by {
            if i < before.len() {
                assert(all[i] == before[i]);
                let k = choose|k: int| 0 <= k < init.len() && init[k] == before[i];
                assert(dirs[k] == before[i]);
            } else {
                assert(dirs[dirs.len() - 1] == all[i]);
            }
        }
        assert forall|d: Seq<char>| dirs.contains(d) && existing.contains(d) implies
            #[trigger] all.contains(d) by {
            let k = choose|k: int| 0 <= k < dirs.len() && dirs[k] == d;
            if k < init.len() {
                assert(init[k] == d);
                assert(before.contains(d));
                let m = choose|m: int| 0 <= m < before.len() && before[m] == d;
                assert(all[m] == d);
            } else if before.contains(d) {
                let m = choose|m: int| 0 <= m < before.len() && before[m] == d;
                assert(all[m] == d);
            } else {
                assert(all[all.len() - 1] == d);
            }
        }
    }
}

/// No directory is added that is there already: an entry after the user's differs from every
/// entry before it.
pub proof fn law_nothing_added_twice(
    entries: Seq<Seq<char>>,
    dirs: Seq<Seq<char>>,
    existing: Seq<Seq<char>>,
    i: int,
    j: int,
)
    requires
        0 <= i < j < extended(entries, dirs, existing).len(),
        entries.len() <= j,
    ensures
        extended(entries, dirs, existing)[i] != extended(entries, dirs, existing)[j],
    decreases dirs.len(),
{
    if dirs.len() > 0 {
        let before = extended(entries, dirs.drop_last(), existing);
        if j < before.len() {
            law_nothing_added_twice(entries, dirs.drop_last(), existing, i, j);
        } else {
            assert(before.contains(before[i]));
        }
    }
}

/// Where each directory that exists is there already, nothing is added.
proof fn lemma_nothing_to_add(
    entries: Seq<Seq<char>>,
    dirs: Seq<Seq<char>>,
    existing: Seq<Seq<char>>,
)
    requires
        forall|d: Seq<char>|
            dirs.contains(d) && existing.contains(d) ==> #[trigger] entries.contains(d),
    ensures
        extended(entries, dirs, existing) == entries,
    decreases dirs.len(),
{
    if dirs.len() > 0 {
        let init = dirs.drop_last();
        assert forall|d: Seq<char>| init.contains(d) && existing.contains(d) implies
            #[trigger] entries.contains(d) by {
            let k = choose|k: int| 0 <= k < init.len() && init[k] == d;
            assert(dirs[k] == d);
        }
        lemma_nothing_to_add(entries, init, existing);
        assert(dirs[dirs.len() - 1] == dirs.last());
    }
}

/// Repairing a repaired `PATH` changes nothing.
pub proof fn law_repair_settles(
    entries: Seq<Seq<char>>,
    dirs: Seq<Seq<char>>,
    existing: Seq<Seq<char>>,
)
    ensures
        extended(extended(entries, dirs, existing), dirs, existing) == extended(
            entries,
            dirs,
            existing,
        ),
{
    law_extended(entries, dirs, existing);
    lemma_nothing_to_add(extended(entries, dirs, existing), dirs, existing);
}

/// Without a home, no directory below it is looked for: the candidates are the absolute ones,
/// and no literal `~` gets onto `PATH`.
pub proof fn law_no_home_no_tilde()
    ensures
        resolved_dirs(known_tool_dirs(), seq![]) == known_tool_dirs().take(7),
        forall|i: int|
            0 <= i < 7 ==> (#[trigger] known_tool_dirs()[i]).len() > 0 && known_tool_dirs()[i][0]
                == '/',
{
    let all = known_tool_dirs();
    reveal_tool_dirs();
    reveal_with_fuel(resolved_dirs, 12);
    assert(all.drop_last() == all.take(10));
    assert(all.take(10).drop_last() == all.take(9));
    assert(all.take(9).drop_last() == all.take(8));
    assert(all.take(8).drop_last() == all.take(7));
    assert(resolved_dirs(all, seq![]) == resolved_dirs(all.take(7), seq![]));
    lemma_absolute_dirs_stay(all.take(7), seq![]);
}

/// Directories that do not start with `~` are where they say.
proof fn lemma_absolute_dirs_stay(dirs: Seq<Seq<char>>, home: Seq<char>)
    requires
        forall|i: int| 0 <= i < dirs.len() ==> (#[trigger] dirs[i]).len() > 0 && dirs[i][0] != '~',
    ensures
        resolved_dirs(dirs, home) == dirs,
    decreases dirs.len(),
{
    if dirs.len() > 0 {
        let init = dirs.drop_last();
        assert forall|i: int| 0 <= i < init.len() implies (#[trigger] init[i]).len() > 0
            && init[i][0] != '~' by {
            assert(init[i] == dirs[i]);
        }
        lemma_absolute_dirs_stay(init, home);
        assert(dirs[dirs.len() - 1] == dirs.last());
        assert(init.push(dirs.last()) == dirs);
    }
}

proof fn reveal_tool_dirs()
    ensures
        known_tool_dirs().len() == 11,
        forall|i: int|
            0 <= i < 7 ==> (#[trigger] known_tool_dirs()[i]).len() > 0 && known_tool_dirs()[i][0]
                == '/',
        forall|i: int|
            7 <= i < 11 ==> (#[trigger] known_tool_dirs()[i]).len() > 2 && known_tool_dirs()[i][0]
                == '~' && known_tool_dirs()[i][1] == '/',
        forall|i: int, j: int|
            0 <= i < 11 && 0 <= j < known_tool_dirs()[i].len() ==> (
            #[trigger] known_tool_dirs()[i][j]) != ':',
{
    reveal_strlit("/opt/homebrew/bin");
    reveal_strlit("/opt/homebrew/sbin");
    reveal_strlit("/usr/local/bin");
    reveal_strlit("/usr/local/sbin");
    reveal_strlit("/opt/local/bin");
    reveal_strlit("/home/linuxbrew/.linuxbrew/bin");
    reveal_strlit("/snap/bin");
    reveal_strlit("~/.local/bin");
    reveal_strlit("~/.cargo/bin");
    reveal_strlit("~/go/bin");
    reveal_strlit("~/.deno/bin");
}

/// The tool directories are plain `PATH` entries where the home holds no colon.
proof fn lemma_resolved_dirs_plain(dirs: Seq<Seq<char>>, home: Seq<char>)
    requires
        !home.contains(':'),
        forall|i: int, j: int|
            0 <= i < dirs.len() && 0 <= j < dirs[i].len() ==> (#[trigger] dirs[i][j]) != ':',
        forall|i: int| 0 <= i < dirs.len() ==> (#[trigger] dirs[i]).len() > 0,
    ensures
        forall|i: int|
            0 <= i < resolved_dirs(dirs, home).len() ==> plain_entry(
                #[trigger] resolved_dirs(dirs, home)[i],
            ),
    decreases dirs.len(),
{
    if dirs.len() > 0 {
        let init = dirs.drop_last();
        assert forall|i: int, j: int| 0 <= i < init.len() && 0 <= j < init[i].len() implies (
        #[trigger] init[i][j]) != ':' by {
            assert(dirs[i][j] != ':');
        }
        assert forall|i: int| 0 <= i < init.len() implies (#[trigger] init[i]).len() > 0 by {
            assert(dirs[i].len() > 0);
        }
        lemma_resolved_dirs_plain(init, home);
        let last = dirs.last();
        assert(last == dirs[dirs.len() - 1]);
        match resolved(last, home) {
            Some(dir) => {
                reveal_strlit("/");
                assert forall|k: int| 0 <= k < dir.len() implies dir[k] != ':' by {
                    if dir == last {
                        assert(dirs[dirs.len() - 1][k] != ':');
                    } else if k < home.len() {
                        assert(dir[k] == home[k]);
                        assert(home.contains(home[k]));
                    } else if k > home.len() {
                        assert(dir[k] == dirs[dirs.len() - 1][k - home.len() - 1 + 2]);
                    }
                }
                assert(!dir.contains(':'));
                assert(plain_entry(dir));
            },
            None => {},
        }
        let before = resolved_dirs(init, home);
        assert forall|i: int| 0 <= i < resolved_dirs(dirs, home).len() implies plain_entry(
            #[trigger] resolved_dirs(dirs, home)[i],
        ) by {
            if i < before.len() {
                assert(resolved_dirs(dirs, home)[i] == before[i]);
            }
        }
    }
}

/// The server reads off its `PATH` exactly the user's entries and the tool directories that
/// were added, as long as the user's home holds no colon.
pub proof fn law_server_reads_path(
    ctx: LaunchContext,
    output: Option<Seq<char>>,
    existing: Seq<Seq<char>>,
)
    requires
        ctx.platform != Platform::Windows,
        !ctx.from_shell,
        !user_home(ctx, output).contains(':'),
    ensures
        sidecar_vars(ctx, output, existing).contains_key("PATH"@),
        path_entries(sidecar_vars(ctx, output, existing)["PATH"@]) == server_path(
            ctx,
            output,
            existing,
        ),
{
    let home = user_home(ctx, output);
    let dirs = resolved_dirs(known_tool_dirs(), home);
    let entries = user_path(ctx, output);
    let all = server_path(ctx, output, existing);
    lemma_entries_plain(lookup(user_vars(output), "PATH"@, opt_text(ctx.path)));
    reveal_tool_dirs();
    lemma_resolved_dirs_plain(known_tool_dirs(), home);
    law_extended(entries, dirs, existing);
    assert forall|i: int| 0 <= i < all.len() implies plain_entry(#[trigger] all[i]) by {
        if i < entries.len() {
            assert(all[i] == all.take(entries.len() as int)[i]);
            assert(plain_entry(entries[i]));
        } else {
            let k = choose|k: int| 0 <= k < dirs.len() && dirs[k] == all[i];
            assert(plain_entry(dirs[k]));
        }
    }
    lemma_split_joined(all);
}

/// An app that a shell launched, or on Windows, has the real environment, and nothing is set
/// over it; every other app sets `PATH`.
pub proof fn law_real_env_untouched(
    ctx: LaunchContext,
    output: Option<Seq<char>>,
    existing: Seq<Seq<char>>,
)
    ensures
        ctx.platform == Platform::Windows || ctx.from_shell ==> sidecar_vars(ctx, output, existing)
            == Map::<Seq<char>, Seq<char>>::empty(),
        ctx.platform != Platform::Windows && !ctx.from_shell ==> sidecar_vars(
            ctx,
            output,
            existing,
        ).contains_key("PATH"@),
{
}

/// The usual install directories of a user, those below the home last, where there is a home.
pub open spec fn install_dirs(home: Seq<char>) -> Seq<Seq<char>> {
    seq![
        "/opt/homebrew/bin"@,
        "/opt/homebrew/sbin"@,
        "/usr/local/bin"@,
        "/usr/local/sbin"@,
        "/opt/local/bin"@,
        "/home/linuxbrew/.linuxbrew/bin"@,
        "/snap/bin"@,
    ] + if home.len() == 0 {
        seq![]
    } else {
        seq![
            home + "/.local/bin"@,
            home + "/.cargo/bin"@,
            home + "/go/bin"@,
            home + "/.deno/bin"@,
        ]
    }
}

/// The candidates are the usual install directories, each where it is for this user.
pub proof fn law_candidates_are_install_dirs(home: Seq<char>)
    ensures
        resolved_dirs(known_tool_dirs(), home) == install_dirs(home),
{
    let all = known_tool_dirs();
    if home.len() == 0 {
        law_no_home_no_tilde();
        assert(home == Seq::<char>::empty());
        assert(known_tool_dirs().take(7) == install_dirs(home));
    } else {
        reveal_tool_dirs();
        lemma_absolute_dirs_stay(all.take(7), home);
        assert(all.take(8).drop_last() == all.take(7));
        assert(all.take(9).drop_last() == all.take(8));
        assert(all.take(10).drop_last() == all.take(9));
        assert(all.drop_last() == all.take(10));
        reveal_strlit("/");
        reveal_strlit("~/.local/bin");
        reveal_strlit("~/.cargo/bin");
        reveal_strlit("~/go/bin");
        reveal_strlit("~/.deno/bin");
        reveal_strlit("/.local/bin");
        reveal_strlit("/.cargo/bin");
        reveal_strlit("/go/bin");
        reveal_strlit("/.deno/bin");
        assert(home + "/"@ + all[7].skip(2) == home + "/.local/bin"@);
        assert(home + "/"@ + all[8].skip(2) == home + "/.cargo/bin"@);
        assert(home + "/"@ + all[9].skip(2) == home + "/go/bin"@);
        assert(home + "/"@ + all[10].skip(2) == home + "/.deno/bin"@);
        assert(all.take(8).last() == all[7]);
        assert(all.take(9).last() == all[8]);
        assert(all.take(10).last() == all[9]);
        assert(all.last() == all[10]);
        let seven = resolved_dirs(all.take(7), home);
        assert(seven == all.take(7));
        let eight = resolved_dirs(all.take(8), home);
        assert(eight == seven.push(home + "/.local/bin"@));
        let nine = resolved_dirs(all.take(9), home);
        assert(nine == eight.push(home + "/.cargo/bin"@));
        let ten = resolved_dirs(all.take(10), home);
        assert(ten == nine.push(home + "/go/bin"@));
        assert(resolved_dirs(all, home) == ten.push(home + "/.deno/bin"@));
        assert(resolved_dirs(all, home) == install_dirs(home));
    }
}

/// What is added to `PATH`: of the directories, in their order, those that exist and that the
/// user does not have.
pub proof fn law_added_dirs(
    entries: Seq<Seq<char>>,
    dirs: Seq<Seq<char>>,
    existing: Seq<Seq<char>>,
)
    requires
        dirs.no_duplicates(),
    ensures
        extended(entries, dirs, existing) == entries + dirs.filter(
            |d: Seq<char>| existing.contains(d) && !entries.contains(d),
        ),
    decreases dirs.len(),
{
    let wanted = |d: Seq<char>| existing.contains(d) && !entries.contains(d);
    reveal(Seq::filter);
    if dirs.len() == 0 {
        assert(entries + dirs.filter(wanted) == entries);
    } else {
        let init = dirs.drop_last();
        let last = dirs.last();
        assert(init.no_duplicates()) by {
            assert forall|i: int, j: int|
                0 <= i < init.len() && 0 <= j < init.len() && i != j implies init[i] != init[j] by {
                assert(dirs[i] != dirs[j]);
            }
        }
        law_added_dirs(entries, init, existing);
        let added = init.filter(wanted);
        let before = entries + added;
        assert forall|k: int| 0 <= k < added.len() implies added[k] != last by {
            init.lemma_filter_contains_rev(wanted, added[k]);
            let i = choose|i: int| 0 <= i < init.len() && init[i] == added[k];
            assert(dirs[i] != dirs[dirs.len() - 1]);
        }
        assert(before.contains(last) <==> entries.contains(last)) by {
            if entries.contains(last) {
                let i = choose|i: int| 0 <= i < entries.len() && entries[i] == last;
                assert(before[i] == last);
            }
            if before.contains(last) {
                let i = choose|i: int| 0 <= i < before.len() && before[i] == last;
                if i >= entries.len() {
                    assert(before[i] == added[i - entries.len()]);
                }
            }
        }
        if wanted(last) {
            assert(before.push(last) == entries + added.push(last));
        }
    }
}

/// No install directory is listed twice, whatever the home.
proof fn lemma_install_dirs_differ(home: Seq<char>)
    ensures
        install_dirs(home).no_duplicates(),
{
    reveal_strlit("/opt/homebrew/bin");
    reveal_strlit("/opt/homebrew/sbin");
    reveal_strlit("/usr/local/bin");
    reveal_strlit("/usr/local/sbin");
    reveal_strlit("/opt/local/bin");
    reveal_strlit("/home/linuxbrew/.linuxbrew/bin");
    reveal_strlit("/snap/bin");
    reveal_strlit("/.local/bin");
    reveal_strlit("/.cargo/bin");
    reveal_strlit("/go/bin");
    reveal_strlit("/.deno/bin");
    let dirs = install_dirs(home);
    assert(dirs[0].len() == 17 && dirs[1].len() == 18 && dirs[2].len() == 14);
    assert(dirs[3].len() == 15 && dirs[4].len() == 14 && dirs[5].len() == 30);
    assert(dirs[6].len() == 9);
    assert(dirs[2][1] == 'u' && dirs[4][1] == 'o');
    if home.len() > 0 {
        let n = home.len() as int;
        let local = home + "/.local/bin"@;
        let cargo = home + "/.cargo/bin"@;
        let go = home + "/go/bin"@;
        let deno = home + "/.deno/bin"@;
        assert(dirs[7] == local && dirs[8] == cargo && dirs[9] == go && dirs[10] == deno);
        assert(local[n + 2] == 'l' && cargo[n + 2] == 'c');
        assert(local[local.len() - 10] == '.');
        assert(cargo[cargo.len() - 5] == 'o');
        assert(go[go.len() - 5] == 'o');
        assert(deno[deno.len() - 5] == 'o');
        assert forall|i: int| 0 <= i < 7 implies dirs[i] != local && dirs[i] != cargo && dirs[i]
            != go && dirs[i] != deno by {
            assert(dirs[i].len() >= 10 ==> dirs[i][dirs[i].len() - 10] != '.');
            assert(dirs[i][dirs[i].len() - 5] != 'o');
        }
    }
}

/// The server's tools are the user's: where the login shell's answer sets `PATH`, what the
/// server reads off its `PATH` begins with exactly the entries of that, in their order, on
/// every platform; where it does not, with those of the app's own `PATH`; and where there is
/// none either, the install directories are all there is.
pub proof fn law_server_gets_users_path(
    ctx: LaunchContext,
    output: Option<Seq<char>>,
    existing: Seq<Seq<char>>,
)
    requires
        ctx.platform != Platform::Windows,
        !ctx.from_shell,
    ensures
        ({
            let vars = sidecar_vars(ctx, output, existing);
            let read = path_entries(vars["PATH"@]);
            let found = output is Some && probed_vars(output->0).contains_key("PATH"@);
            &&& vars.contains_key("PATH"@)
            &&& found ==> path_entries(probed_vars(output->0)["PATH"@]).is_prefix_of(read)
            &&& !found && ctx.path is Some ==> path_entries(ctx.path->0@).is_prefix_of(read)
        }),
{
    let base = user_base(output, "PATH"@, ctx.path);
    lemma_lookup(output, ctx.path);
    lemma_entries_plain(base);
    lemma_server_path(ctx, output, existing);
    let added = install_dirs(user_base(output, "HOME"@, ctx.home)).filter(
        |d: Seq<char>| existing.contains(d) && !path_entries(base).contains(d),
    );
    law_first_entries_read_back(path_entries(base), added);
}

/// What the login shell's answer sets a variable to, else what the app has, else nothing.
pub open spec fn user_base(
    output: Option<Seq<char>>,
    name: Seq<char>,
    own: Option<String>,
) -> Seq<char> {
    if output is Some && probed_vars(output->0).contains_key(name) {
        probed_vars(output->0)[name]
    } else if own is Some {
        own->0@
    } else {
        seq![]
    }
}

proof fn lemma_lookup(output: Option<Seq<char>>, own: Option<String>)
    ensures
        lookup(user_vars(output), "PATH"@, opt_text(own)) == user_base(output, "PATH"@, own),
        lookup(user_vars(output), "HOME"@, opt_text(own)) == user_base(output, "HOME"@, own),
{
    reveal_strlit("PATH");
    reveal_strlit("HOME");
    reveal_strlit("SHLVL");
    reveal_strlit("PWD");
    reveal_strlit("OLDPWD");
    reveal_strlit("_");
    assert("PATH"@.len() == 4 && "HOME"@.len() == 4);
    assert("SHLVL"@.len() == 5 && "PWD"@.len() == 3 && "OLDPWD"@.len() == 6 && "_"@.len() == 1);
}

proof fn lemma_server_path(
    ctx: LaunchContext,
    output: Option<Seq<char>>,
    existing: Seq<Seq<char>>,
)
    requires
        ctx.platform != Platform::Windows,
        !ctx.from_shell,
    ensures
        ({
            let base = path_entries(user_base(output, "PATH"@, ctx.path));
            sidecar_vars(ctx, output, existing)["PATH"@] == joined(
                base + install_dirs(user_base(output, "HOME"@, ctx.home)).filter(
                    |d: Seq<char>| existing.contains(d) && !base.contains(d),
                ),
            )
        }),
{
    let home = user_base(output, "HOME"@, ctx.home);
    let base = path_entries(user_base(output, "PATH"@, ctx.path));
    lemma_lookup(output, ctx.path);
    lemma_lookup(output, ctx.home);
    law_candidates_are_install_dirs(home);
    lemma_install_dirs_differ(home);
    law_added_dirs(base, install_dirs(home), existing);
}

/// The whole of the server's `PATH`: the user's entries, and after them, in their order, the
/// install directories that exist and that the user does not have. What is below the home goes
/// by the login shell's answer too. The server reads these off it, as long as the home holds
/// no colon.
pub proof fn law_server_path(
    ctx: LaunchContext,
    output: Option<Seq<char>>,
    existing: Seq<Seq<char>>,
)
    requires
        ctx.platform != Platform::Windows,
        !ctx.from_shell,
    ensures
        ({
            let base = path_entries(user_base(output, "PATH"@, ctx.path));
            let home = user_base(output, "HOME"@, ctx.home);
            let all = base + install_dirs(home).filter(
                |d: Seq<char>| existing.contains(d) && !base.contains(d),
            );
            let path = sidecar_vars(ctx, output, existing)["PATH"@];
            &&& path == joined(all)
            &&& !home.contains(':') ==> path_entries(path) == all
        }),
{
    lemma_server_path(ctx, output, existing);
    let home = user_base(output, "HOME"@, ctx.home);
    lemma_lookup(output, ctx.home);
    if !home.contains(':') {
        law_server_reads_path(ctx, output, existing);
        lemma_lookup(output, ctx.path);
        law_candidates_are_install_dirs(home);
        lemma_install_dirs_differ(home);
        law_added_dirs(
            path_entries(user_base(output, "PATH"@, ctx.path)),
            install_dirs(home),
            existing,
        );
    }
}

/// The home that decides the candidates is that of the login shell's answer, where it sets one.
pub proof fn law_home_of_candidates(ctx: LaunchContext, output: Option<Seq<char>>)
    ensures
        output is Some && probed_vars(output->0).contains_key("HOME"@) ==> user_home(ctx, output)
            == probed_vars(output->0)["HOME"@],
        !(output is Some && probed_vars(output->0).contains_key("HOME"@)) && ctx.home is Some
            ==> user_home(ctx, output) == ctx.home->0@,
        !(output is Some && probed_vars(output->0).contains_key("HOME"@)) && ctx.home is None
            ==> user_home(ctx, output).len() == 0,
{
    lemma_lookup(output, ctx.home);
}

/// Where the login shell gave no answer, only `PATH` is set.
pub proof fn law_nothing_else_without_answer(
    ctx: LaunchContext,
    existing: Seq<Seq<char>>,
    name: Seq<char>,
)
    ensures
        sidecar_vars(ctx, None, existing).contains_key(name) ==> name == "PATH"@,
{
}

} // verus!
