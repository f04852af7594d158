//! Naming GPU-consuming processes.
//!
//! A stable, human-meaningful name is derived for each process that holds a
//! GPU descriptor, with special handling for Wine/Proton-wrapped games
//! launched out of a Steam library. A static exclusion list keeps desktop
//! compositors, launchers and browsers from ever being tracked.

use vstd::prelude::*;
use vstd::string::StrSliceExecFns;
use vstd::string::StringExecFns;

verus! {

/// The characters after the last path separator; the whole name when it
/// holds no separator.
pub open spec fn basename(s: Seq<char>) -> Seq<char>
    decreases s.len(),
{
    if s.len() == 0 {
        s
    } else if s.last() == '/' {
        Seq::empty()
    } else {
        basename(s.drop_last()).push(s.last())
    }
}

/// Exact-basename matches that may never become the tracked process:
/// compositors, display servers, launchers, browsers and other desktop
/// utilities that hold GPU descriptors without being the workload.
pub open spec fn is_excluded_name(b: Seq<char>) -> bool {
    ||| b == "kwin_wayland"@
    ||| b == "kwin"@
    ||| b == "Xwayland"@
    ||| b == "ksmserver"@
    ||| b == "plasmashell"@
    ||| b == "kaccess"@
    ||| b == "plasma"@
    ||| b == "steam"@
    ||| b == "steamwebhelper"@
    ||| b == "Discord"@
    ||| b == "code"@
    ||| b == "electron"@
    ||| b == "chrome"@
    ||| b == "firefox"@
    ||| b == "chromium"@
    ||| b == "gnome-shell"@
    ||| b == "mutter"@
    ||| b == "xfwm4"@
    ||| b == "marco"@
    ||| b == "coolercontrol"@
    ||| b == "systemsettings"@
}

/// A run of separator-free characters ending at `n` and preceded by a
/// separator (or the start) is the basename.
proof fn lemma_basename_range(s: Seq<char>, start: int)
    requires
        0 <= start <= s.len(),
        forall|j: int| start <= j < s.len() ==> s[j] != '/',
        start == 0 || s[start - 1] == '/',
    ensures
        basename(s) == s.subrange(start, s.len() as int),
    decreases s.len(),
{
    if s.len() == 0 {
        assert(s.subrange(0, 0) =~= s);
    } else if start == s.len() {
        assert(s.last() == '/');
        assert(s.subrange(start, s.len() as int) =~= Seq::<char>::empty());
    } else {
        assert(s.last() != '/');
        lemma_basename_range(s.drop_last(), start);
        assert(s.drop_last().subrange(start, s.len() - 1).push(s.last()) =~= s.subrange(
            start,
            s.len() as int,
        ));
    }
}

/// Whether the characters `a..b` of `s` read the same as `t`.
fn range_eq(s: &str, a: usize, b: usize, t: &str) -> (r: bool)
    requires
        a <= b <= s@.len(),
    ensures
        r == (s@.subrange(a as int, b as int) == t@),
{
    let tn = t.unicode_len();
    if b - a != tn {
        proof {
            assert(s@.subrange(a as int, b as int).len() != t@.len());
        }
        return false;
    }
    let mut i: usize = 0;
    while i < tn
        invariant
            0 <= i <= tn,
            a <= b <= s@.len(),
            tn == t@.len(),
            b - a == tn,
            forall|j: int| 0 <= j < i ==> s@.subrange(a as int, b as int)[j] == t@[j],
        decreases tn - i,
    {
        let sc = s.get_char(a + i);
        let tc = t.get_char(i);
        if sc != tc {
            proof {
                assert(s@.subrange(a as int, b as int)[i as int] != t@[i as int]);
            }
            return false;
        }
        i = i + 1;
    }
    proof {
        assert(s@.subrange(a as int, b as int) =~= t@);
    }
    true
}

/// Index where the basename of `s` starts: one past the last separator.
fn basename_start(s: &str) -> (r: usize)
    ensures
        r <= s@.len(),
        basename(s@) == s@.subrange(r as int, s@.len() as int),
        r == 0 || s@[r - 1] == '/',
        forall|j: int| r <= j < s@.len() ==> s@[j] != '/',
{
    let n = s.unicode_len();
    let mut start: usize = 0;
    let mut i: usize = 0;
    while i < n
        invariant
            0 <= i <= n,
            n == s@.len(),
            start <= i,
            start == 0 || s@[start - 1] == '/',
            forall|j: int| start <= j < i ==> s@[j] != '/',
        decreases n - i,
    {
        if s.get_char(i) == '/' {
            start = i + 1;
        }
        i = i + 1;
    }
    proof {
        lemma_basename_range(s@, start as int);
    }
    start
}

/// Whether the process name, compared by its basename alone, is on the
/// exclusion list.
pub fn is_excluded_process(name: &str) -> (r: bool)
    ensures
        r == is_excluded_name(basename(name@)),
{
    let start = basename_start(name);
    let n = name.unicode_len();
    let r = range_eq(name, start, n, "kwin_wayland") || range_eq(name, start, n, "kwin")
        || range_eq(name, start, n, "Xwayland") || range_eq(name, start, n, "ksmserver")
        || range_eq(name, start, n, "plasmashell") || range_eq(name, start, n, "kaccess")
        || range_eq(name, start, n, "plasma") || range_eq(name, start, n, "steam") || range_eq(
        name,
        start,
        n,
        "steamwebhelper",
    ) || range_eq(name, start, n, "Discord") || range_eq(name, start, n, "code") || range_eq(
        name,
        start,
        n,
        "electron",
    ) || range_eq(name, start, n, "chrome") || range_eq(name, start, n, "firefox") || range_eq(
        name,
        start,
        n,
        "chromium",
    ) || range_eq(name, start, n, "gnome-shell") || range_eq(name, start, n, "mutter") || range_eq(
        name,
        start,
        n,
        "xfwm4",
    ) || range_eq(name, start, n, "marco") || range_eq(name, start, n, "coolercontrol")
        || range_eq(name, start, n, "systemsettings");
    r
}


/// One process seen holding a GPU descriptor during a scan.
#[derive(Debug, Clone)]
pub struct GpuProcess {
    pub pid: u32,
    pub name: String,
    pub total_cycles: u64,
}

/// Position of the first path separator at or after `i`, or the length.
pub open spec fn slash_from(s: Seq<char>, i: nat) -> nat
    decreases s.len() - i when i <= s.len()
{
    if i >= s.len() {
        s.len()
    } else if s[i as int] == '/' {
        i
    } else {
        slash_from(s, i + 1)
    }
}

/// The marker directory of a Steam library.
pub open spec fn common_chars() -> Seq<char> {
    seq!['c', 'o', 'm', 'm', 'o', 'n']
}

/// Steam convention: walking the path components (empty and `.` components
/// dropped), the first component after a `common` component that is not
/// `..` names the game.
pub open spec fn spec_steam_game(s: Seq<char>, found: bool) -> Option<Seq<char>>
    decreases s.len(),
{
    if s.len() == 0 {
        None
    } else {
        let e = slash_from(s, 0);
        let comp = s.subrange(0, e as int);
        let skip = comp.len() == 0 || comp == seq!['.'];
        if !skip && found && comp != seq!['.', '.'] {
            Some(comp)
        } else if e < s.len() {
            spec_steam_game(
                s.subrange(e as int + 1, s.len() as int),
                found || comp == common_chars(),
            )
        } else {
            None
        }
    }
}

/// Name of the game a Steam library path points into, if any.
pub fn extract_steam_game_name(path: &str) -> (r: Option<String>)
    ensures
        r.deep_view() == spec_steam_game(path@, false),
{
    let n = path.unicode_len();
    let mut pos: usize = 0;
    let mut found: bool = false;
    proof {
        assert(path@.subrange(0, n as int) =~= path@);
    }
    while pos < n
        invariant
            0 <= pos <= n,
            n == path@.len(),
            spec_steam_game(path@, false) == spec_steam_game(
                path@.subrange(pos as int, n as int),
                found,
            ),
        decreases n - pos,
    {
        let ghost su = path@.subrange(pos as int, n as int);
        let mut e: usize = pos;
        while e < n && (path.get_char(e) != '/')
            invariant
                pos <= e <= n,
                n == path@.len(),
                su == path@.subrange(pos as int, n as int),
                slash_from(su, 0) == slash_from(su, (e - pos) as nat),
            decreases n - e,
        {
            proof {
                assert(su[(e - pos) as int] == path@[e as int]);
            }
            e = e + 1;
        }
        proof {
            if e < n {
                assert(su[(e - pos) as int] == path@[e as int]);
            }
            assert(slash_from(su, 0) == (e - pos) as nat);
            assert(su.subrange(0, (e - pos) as int) =~= path@.subrange(pos as int, e as int));
        }
        let ghost comp = su.subrange(0, (e - pos) as int);
        let clen = e - pos;
        let skip = clen == 0 || (clen == 1 && path.get_char(pos) == '.');
        proof {
            if clen == 1 && path@[pos as int] == '.' {
                assert(comp =~= seq!['.']);
            }
            if comp == seq!['.'] {
                assert(comp[0] == '.' && comp.len() == 1);
            }
            assert(skip == (comp.len() == 0 || comp == seq!['.']));
        }
        if !skip && found {
            let is_dotdot = clen == 2 && path.get_char(pos) == '.' && path.get_char(pos + 1)
                == '.';
            proof {
                if clen == 2 && path@[pos as int] == '.' && path@[pos as int + 1] == '.' {
                    assert(comp =~= seq!['.', '.']);
                }
                if comp == seq!['.', '.'] {
                    assert(comp[0] == '.' && comp[1] == '.' && comp.len() == 2);
                }
            }
            if !is_dotdot {
                let g = path.substring_char(pos, e).to_owned();
                return Some(g);
            }
        }
        let is_common = clen == 6 && path.get_char(pos) == 'c' && path.get_char(pos + 1) == 'o'
            && path.get_char(pos + 2) == 'm' && path.get_char(pos + 3) == 'm' && path.get_char(
            pos + 4,
        ) == 'o' && path.get_char(pos + 5) == 'n';
        proof {
            if clen == 6 && path@[pos as int] == 'c' && path@[pos as int + 1] == 'o' && path@[pos
                as int + 2] == 'm' && path@[pos as int + 3] == 'm' && path@[pos as int + 4] == 'o'
                && path@[pos as int + 5] == 'n' {
                assert(comp =~= common_chars());
            }
            if comp == common_chars() {
                assert(comp[0] == 'c' && comp[1] == 'o' && comp[2] == 'm' && comp[3] == 'm'
                    && comp[4] == 'o' && comp[5] == 'n' && comp.len() == 6);
            }
        }
        if is_common {
            found = true;
        }
        if e < n {
            proof {
                assert(su.subrange((e - pos) as int + 1, su.len() as int) =~= path@.subrange(
                    e as int + 1,
                    n as int,
                ));
            }
            pos = e + 1;
        } else {
            return None;
        }
    }
    proof {
        assert(path@.subrange(n as int, n as int) =~= Seq::<char>::empty());
    }
    None
}

/// The suffix that marks a Windows executable.
pub open spec fn exe_suffix() -> Seq<char> {
    seq!['.', 'e', 'x', 'e']
}

/// The name ends in `.exe`.
pub open spec fn ends_with_exe(s: Seq<char>) -> bool {
    s.len() >= 4 && s.subrange(s.len() - 4, s.len() as int) == exe_suffix()
}

/// The first argument that names a Windows executable.
pub open spec fn first_exe_arg(args: Seq<Seq<char>>) -> Option<Seq<char>>
    decreases args.len(),
{
    if args.len() == 0 {
        None
    } else if ends_with_exe(args[0]) {
        Some(args[0])
    } else {
        first_exe_arg(args.drop_first())
    }
}

/// Position of the last dot, or -1 when there is none.
pub open spec fn last_dot(b: Seq<char>) -> int
    decreases b.len(),
{
    if b.len() == 0 {
        -1
    } else if b.last() == '.' {
        b.len() - 1
    } else {
        last_dot(b.drop_last())
    }
}

/// The name before its extension; names without one, and names whose only
/// dot leads, are kept whole.
pub open spec fn file_stem_of(b: Seq<char>) -> Seq<char> {
    if last_dot(b) > 0 {
        b.subrange(0, last_dot(b))
    } else {
        b
    }
}

/// The name holds a path separator.
pub open spec fn has_slash(s: Seq<char>) -> bool {
    exists|i: int| 0 <= i < s.len() && s[i] == '/'
}

/// Name of the directory right above the basename.
pub open spec fn parent_name(s: Seq<char>) -> Seq<char> {
    basename(s.subrange(0, s.len() - basename(s).len() - 1))
}

/// Marker of a Wine loader binary.
pub open spec fn wine_chars() -> Seq<char> {
    seq!['w', 'i', 'n', 'e']
}

/// Marker of a Proton loader binary.
pub open spec fn proton_chars() -> Seq<char> {
    seq!['p', 'r', 'o', 't', 'o', 'n']
}

/// `p` occurs somewhere in `s`.
pub open spec fn contains_sub(s: Seq<char>, p: Seq<char>) -> bool {
    exists|i: int| 0 <= i && i + p.len() <= s.len() && #[trigger] s.subrange(i, i + p.len()) == p
}

/// The executable's basename reads as a Wine or Proton loader.
pub open spec fn names_wine_tool(b: Seq<char>) -> bool {
    contains_sub(b, wine_chars()) || contains_sub(b, proton_chars())
}

/// Position of the first ` (` at or after `i`, or the length.
pub open spec fn paren_from(s: Seq<char>, i: nat) -> nat
    decreases s.len() - i when i <= s.len()
{
    if i + 1 >= s.len() {
        s.len()
    } else if s[i as int] == ' ' && s[i as int + 1] == '(' {
        i
    } else {
        paren_from(s, i + 1)
    }
}

/// The link target up to a ` (` marker, dropping the kernel's
/// ` (deleted)` style suffixes.
pub open spec fn strip_deleted(s: Seq<char>) -> Seq<char> {
    s.subrange(0, paren_from(s, 0) as int)
}

/// ASCII whitespace in a `comm` name.
pub open spec fn is_space(c: char) -> bool {
    c == ' ' || c == '\t' || c == '\n' || c == '\r' || c == '\u{b}' || c == '\u{c}'
}

/// Position of the first non-whitespace character at or after `i`.
pub open spec fn skip_space_from(s: Seq<char>, i: nat) -> nat
    decreases s.len() - i when i <= s.len()
{
    if i >= s.len() {
        s.len()
    } else if is_space(s[i as int]) {
        skip_space_from(s, i + 1)
    } else {
        i
    }
}

/// Position just after the last non-whitespace character; 0 when all
/// characters are whitespace.
pub open spec fn rskip_space(s: Seq<char>) -> nat
    decreases s.len(),
{
    if s.len() == 0 {
        0
    } else if is_space(s.last()) {
        rskip_space(s.drop_last())
    } else {
        s.len()
    }
}

/// The characters with leading and trailing whitespace removed.
pub open spec fn trim_chars(s: Seq<char>) -> Seq<char> {
    let b = rskip_space(s);
    if b == 0 {
        Seq::empty()
    } else {
        s.subrange(skip_space_from(s, 0) as int, b as int)
    }
}

/// The name derived from a `.exe` argument: the Steam game and the
/// executable's stem when the path runs through a library, else the parent
/// directory and the stem, else the stem alone.
pub open spec fn spec_exe_arg_name(arg: Seq<char>) -> Seq<char> {
    let stem = file_stem_of(basename(arg));
    if spec_steam_game(arg, false) is Some {
        spec_steam_game(arg, false)->Some_0 + seq!['/'] + stem
    } else if has_slash(arg) && parent_name(arg).len() > 0 {
        parent_name(arg) + seq!['/'] + stem
    } else {
        stem
    }
}

/// The name derived from the working directory: the Steam game it lies
/// under, joined with the executable's basename when that basename reads
/// as a Wine or Proton loader; without a game, the last directory of the
/// working directory joined with such a loader basename.
pub open spec fn spec_cwd_name(cwd: Seq<char>, exe: Option<Seq<char>>) -> Option<Seq<char>> {
    if spec_steam_game(cwd, false) is Some {
        let g = spec_steam_game(cwd, false)->Some_0;
        if exe is Some && names_wine_tool(basename(exe->Some_0)) {
            Some(g + seq!['/'] + basename(exe->Some_0))
        } else {
            Some(g)
        }
    } else if exe is Some && names_wine_tool(basename(exe->Some_0)) && basename(cwd).len() > 0 {
        Some(basename(cwd) + seq!['/'] + basename(exe->Some_0))
    } else {
        None
    }
}

/// The whole naming precedence: a `.exe` argument first, then the working
/// directory, then the executable link target stripped of a ` (deleted)`
/// suffix, then the trimmed `comm` name.
pub open spec fn spec_resolve_name(
    args: Seq<Seq<char>>,
    cwd: Option<Seq<char>>,
    exe: Option<Seq<char>>,
    comm: Option<Seq<char>>,
) -> Option<Seq<char>> {
    if first_exe_arg(args) is Some {
        Some(spec_exe_arg_name(first_exe_arg(args)->Some_0))
    } else if cwd is Some && (spec_cwd_name(cwd->Some_0, exe) is Some) {
        spec_cwd_name(cwd->Some_0, exe)
    } else if exe is Some && strip_deleted(exe->Some_0).len() > 0 {
        Some(strip_deleted(exe->Some_0))
    } else if comm is Some {
        Some(trim_chars(comm->Some_0))
    } else {
        None
    }
}

/// A dot at `q` with none after it is the last dot; `q == -1` stands for a
/// name without one.
proof fn lemma_last_dot_range(b: Seq<char>, q: int)
    requires
        -1 <= q < b.len(),
        q >= 0 ==> b[q] == '.',
        forall|j: int| q < j < b.len() ==> b[j] != '.',
    ensures
        last_dot(b) == q,
    decreases b.len(),
{
    if b.len() == 0 {
    } else if q == b.len() - 1 {
    } else {
        assert(b.last() != '.');
        lemma_last_dot_range(b.drop_last(), q);
    }
}

/// Whether the name ends in `.exe`.
fn ends_with_exe_exec(s: &str) -> (r: bool)
    ensures
        r == ends_with_exe(s@),
{
    let n = s.unicode_len();
    if n < 4 {
        return false;
    }
    let r = s.get_char(n - 4) == '.' && s.get_char(n - 3) == 'e' && s.get_char(n - 2) == 'x'
        && s.get_char(n - 1) == 'e';
    proof {
        if r {
            assert(s@.subrange(n - 4, n as int) =~= exe_suffix());
        } else {
            if s@.subrange(n - 4, n as int) == exe_suffix() {
                assert(s@[n - 4] == '.' && s@[n - 3] == 'e' && s@[n - 2] == 'x' && s@[n - 1]
                    == 'e');
            }
        }
    }
    r
}

/// End of the file stem inside `s`, whose basename starts at `bs`.
fn file_stem_end(s: &str, bs: usize) -> (e: usize)
    requires
        bs <= s@.len(),
    ensures
        bs <= e <= s@.len(),
        s@.subrange(bs as int, e as int) == file_stem_of(s@.subrange(bs as int, s@.len() as int)),
{
    let n = s.unicode_len();
    let ghost b = s@.subrange(bs as int, n as int);
    let mut ld: usize = 0;
    let mut i: usize = bs;
    while i < n
        invariant
            bs <= i <= n,
            n == s@.len(),
            ld == 0 || (bs < ld && ld <= i && s@[ld - 1] == '.'),
            forall|j: int| bs <= j < i && j >= ld ==> s@[j] != '.',
        decreases n - i,
    {
        if s.get_char(i) == '.' {
            ld = i + 1;
        }
        i = i + 1;
    }
    proof {
        if ld == 0 {
            assert forall|j: int| -1 < j < b.len() implies b[j] != '.' by {
                assert(b[j] == s@[bs + j]);
            }
            lemma_last_dot_range(b, -1);
        } else {
            assert(b[ld - 1 - bs] == s@[ld - 1]);
            assert forall|j: int| ld - 1 - bs < j < b.len() implies b[j] != '.' by {
                assert(b[j] == s@[bs + j]);
            }
            lemma_last_dot_range(b, ld - 1 - bs);
        }
    }
    let e = if ld >= 1 && ld - 1 > bs {
        ld - 1
    } else {
        n
    };
    proof {
        if last_dot(b) > 0 {
            assert(s@.subrange(bs as int, e as int) =~= b.subrange(0, last_dot(b)));
        } else {
            assert(s@.subrange(bs as int, e as int) =~= b);
        }
    }
    e
}

/// Append a path separator.
fn push_slash(out: &mut String)
    ensures
        final(out)@ == old(out)@ + seq!['/'],
{
    proof {
        reveal_strlit("/");
    }
    out.append("/");
    proof {
        assert(final(out)@ =~= old(out)@ + seq!['/']);
    }
}

/// Whether `p` occurs in `s`.
fn contains_substr(s: &str, p: &str) -> (r: bool)
    ensures
        r == contains_sub(s@, p@),
{
    let n = s.unicode_len();
    let m = p.unicode_len();
    if m > n {
        return false;
    }
    if m == 0 {
        proof {
            assert(s@.subrange(0, 0 + p@.len() as int) =~= p@);
            assert(contains_sub(s@, p@));
        }
        return true;
    }
    let mut i: usize = 0;
    while i <= n - m
        invariant
            m <= n,
            n == s@.len(),
            m == p@.len(),
            0 < m,
            0 <= i <= n - m + 1,
            forall|k: int| 0 <= k < i ==> #[trigger] s@.subrange(k, k + m) != p@,
        decreases n - i,
    {
        let mut j: usize = 0;
        let mut eq: bool = true;
        while j < m && eq
            invariant
                0 <= j <= m,
                i + m <= n,
                n == s@.len(),
                m == p@.len(),
                eq ==> forall|jj: int| 0 <= jj < j ==> s@[i + jj] == p@[jj],
                !eq ==> s@.subrange(i as int, i + m) != p@,
            decreases m - j + (if eq { 1int } else { 0int }),
        {
            if s.get_char(i + j) != p.get_char(j) {
                proof {
                    assert(s@.subrange(i as int, i + m)[j as int] == s@[i + j]);
                }
                eq = false;
            } else {
                j = j + 1;
            }
        }
        if eq {
            proof {
                assert(s@.subrange(i as int, i + m) =~= p@);
            }
            return true;
        }
        i = i + 1;
    }
    proof {
        assert forall|k: int| 0 <= k && k + m <= n implies #[trigger] s@.subrange(k, k + m) != p@ by {
            assert(k < i);
        }
    }
    false
}

/// Whether the basename reads as a Wine or Proton loader.
fn names_wine_tool_exec(b: &str) -> (r: bool)
    ensures
        r == names_wine_tool(b@),
{
    proof {
        reveal_strlit("wine");
        reveal_strlit("proton");
        assert(("wine")@ =~= wine_chars());
        assert(("proton")@ =~= proton_chars());
    }
    contains_substr(b, "wine") || contains_substr(b, "proton")
}

/// Position of the first ` (` marker, or the length.
fn find_paren(s: &str) -> (r: usize)
    ensures
        r == paren_from(s@, 0),
        r <= s@.len(),
{
    let n = s.unicode_len();
    if n == 0 {
        return 0;
    }
    let mut i: usize = 0;
    while i + 1 < n && !(s.get_char(i) == ' ' && s.get_char(i + 1) == '(')
        invariant
            0 <= i < n,
            n == s@.len(),
            paren_from(s@, 0) == paren_from(s@, i as nat),
        decreases n - i,
    {
        i = i + 1;
    }
    if i + 1 < n {
        i
    } else {
        n
    }
}


/// Whitespace test on one character.
fn is_space_exec(c: char) -> (r: bool)
    ensures
        r == is_space(c),
{
    c == ' ' || c == '\t' || c == '\n' || c == '\r' || c == '\u{b}' || c == '\u{c}'
}

/// The name with surrounding whitespace removed.
fn trim_exec(s: &str) -> (r: String)
    ensures
        r@ == trim_chars(s@),
{
    let n = s.unicode_len();
    let mut b: usize = n;
    proof {
        assert(s@.subrange(0, n as int) =~= s@);
    }
    while b > 0 && is_space_exec(s.get_char(b - 1))
        invariant
            0 <= b <= n,
            n == s@.len(),
            rskip_space(s@) == rskip_space(s@.subrange(0, b as int)),
        decreases b,
    {
        proof {
            assert(s@.subrange(0, b as int).last() == s@[b - 1]);
            assert(s@.subrange(0, b as int).drop_last() =~= s@.subrange(0, b as int - 1));
        }
        b = b - 1;
    }
    proof {
        if b > 0 {
            assert(s@.subrange(0, b as int).last() == s@[b - 1]);
        }
        assert(rskip_space(s@) == b);
    }
    if b == 0 {
        return String::new();
    }
    let mut a: usize = 0;
    while a < n && is_space_exec(s.get_char(a))
        invariant
            0 <= a <= n,
            n == s@.len(),
            skip_space_from(s@, 0) == skip_space_from(s@, a as nat),
            forall|j: int| 0 <= j < a ==> is_space(s@[j]),
        decreases n - a,
    {
        a = a + 1;
    }
    proof {
        assert(skip_space_from(s@, 0) == a as nat);
        if a >= b {
            assert(is_space(s@[b - 1]));
        }
    }
    s.substring_char(a, b).to_owned()
}

/// The name for a `.exe` argument.
fn exe_arg_name(arg: &str) -> (r: String)
    ensures
        r@ == spec_exe_arg_name(arg@),
{
    let n = arg.unicode_len();
    let bs = basename_start(arg);
    let se = file_stem_end(arg, bs);
    match extract_steam_game_name(arg) {
        Some(g) => {
            let mut out = g;
            push_slash(&mut out);
            out.append(arg.substring_char(bs, se));
            out
        },
        None => {
            if bs > 0 {
                let parent = arg.substring_char(0, bs - 1);
                proof {
                    assert(basename(arg@).len() == n - bs);
                    assert(parent@ == arg@.subrange(0, n - basename(arg@).len() - 1));
                }
                let pn = parent.unicode_len();
                let pbs = basename_start(parent);
                if pbs < pn {
                    let mut out = parent.substring_char(pbs, pn).to_owned();
                    push_slash(&mut out);
                    out.append(arg.substring_char(bs, se));
                    proof {
                        assert(has_slash(arg@));
                    }
                    return out;
                }
                proof {
                    assert(parent_name(arg@).len() == 0);
                }
            }
            proof {
                if bs == 0 && has_slash(arg@) {
                    let wi = choose|wi: int| 0 <= wi < arg@.len() && arg@[wi] == '/';
                    assert(false);
                }
            }
            arg.substring_char(bs, se).to_owned()
        },
    }
}

/// Derive a stable name for a process out of what procfs shows of it:
/// its argument list, working directory, executable link target and
/// `comm` name, each already read as text.
pub fn resolve_process_name(
    args: &Vec<String>,
    cwd: Option<&str>,
    exe: Option<&str>,
    comm: Option<&str>,
) -> (r: Option<String>)
    ensures
        r.deep_view() == spec_resolve_name(
            args.deep_view(),
            cwd.deep_view(),
            exe.deep_view(),
            comm.deep_view(),
        ),
{
    let ghost argsv = args.deep_view();
    let mut i: usize = 0;
    proof {
        assert(argsv.skip(0) =~= argsv);
    }
    while i < args.len()
        invariant
            0 <= i <= args@.len(),
            argsv == args.deep_view(),
            argsv.len() == args@.len(),
            first_exe_arg(argsv) == first_exe_arg(argsv.skip(i as int)),
            forall|k: int| 0 <= k < argsv.len() ==> argsv[k] == args@[k]@,
        decreases args@.len() - i,
    {
        let a: &String = &args[i];
        proof {
            assert(argsv.skip(i as int)[0] == argsv[i as int]);
            assert(argsv.skip(i as int).drop_first() =~= argsv.skip(i as int + 1));
        }
        if ends_with_exe_exec(a.as_str()) {
            return Some(exe_arg_name(a.as_str()));
        }
        i = i + 1;
    }
    proof {
        assert(argsv.skip(argsv.len() as int) =~= Seq::<Seq<char>>::empty());
    }
    if let Some(cwdw) = cwd {
        match extract_steam_game_name(cwdw) {
            Some(g) => {
                if let Some(exew) = exe {
                    let en = exew.unicode_len();
                    let ebs = basename_start(exew);
                    let ebase = exew.substring_char(ebs, en);
                    if names_wine_tool_exec(ebase) {
                        let mut out = g;
                        push_slash(&mut out);
                        out.append(ebase);
                        return Some(out);
                    }
                }
                return Some(g);
            },
            None => {
                if let Some(exew) = exe {
                    let en = exew.unicode_len();
                    let ebs = basename_start(exew);
                    let ebase = exew.substring_char(ebs, en);
                    if names_wine_tool_exec(ebase) {
                        let cn = cwdw.unicode_len();
                        let cbs = basename_start(cwdw);
                        if cbs < cn {
                            let mut out = cwdw.substring_char(cbs, cn).to_owned();
                            push_slash(&mut out);
                            out.append(ebase);
                            return Some(out);
                        }
                    }
                }
            },
        }
    }
    if let Some(exew) = exe {
        let p = find_paren(exew);
        if p > 0 {
            return Some(exew.substring_char(0, p).to_owned());
        }
    }
    if let Some(commw) = comm {
        return Some(trim_exec(commw));
    }
    None
}

} // verus!
