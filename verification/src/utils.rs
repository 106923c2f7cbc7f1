//! Shared helpers: extracting integers from subprocess output, and the
//! candidate directory list for desktop files.
//!
//! Running the subprocess and reading its output is the transport's job;
//! the parsing of that output is verified here.  Whitespace here is the
//! ASCII whitespace set.

use vstd::prelude::*;

use crate::numfmt::parse_int_spec;
use crate::numfmt::parse_i64;

verus! {

/// ASCII whitespace.
pub open spec fn is_ascii_ws(c: char) -> bool {
    c == ' ' || c == '\t' || c == '\n' || c == '\r' || (c as u32) == 11 || (c as u32) == 12
}

/// The first index at or after `i` that does not hold whitespace.
pub open spec fn spec_skip_ws(s: Seq<char>, i: int) -> int
    decreases s.len() - i,
{
    if i < 0 || i >= s.len() || !is_ascii_ws(s[i]) {
        i
    } else {
        spec_skip_ws(s, i + 1)
    }
}

/// The first index at or after `i` that holds whitespace.
pub open spec fn spec_token_end(s: Seq<char>, i: int) -> int
    decreases s.len() - i,
{
    if i < 0 || i >= s.len() || is_ascii_ws(s[i]) {
        i
    } else {
        spec_token_end(s, i + 1)
    }
}

/// The first whitespace-separated token of `s`; empty when there is none.
pub open spec fn spec_first_token(s: Seq<char>) -> Seq<char> {
    let a = spec_skip_ws(s, 0);
    let b = spec_token_end(s, a);
    s.subrange(a, b)
}

/// The integer the first whitespace-separated token of a command's output
/// denotes: what reading one number out of the output yields.  `None` when
/// there is no token, the token is not a plain decimal integer, or it does
/// not fit.
pub open spec fn spec_int_of_output(s: Seq<char>) -> Option<i64> {
    match parse_int_spec(spec_first_token(s)) {
        None => None,
        Some(v) => if i64::MIN <= v <= i64::MAX {
            Some(v as i64)
        } else {
            None
        },
    }
}

/// Parse the first whitespace-separated token of a command's output as a
/// signed integer.
pub fn int_from_output(s: &str) -> (r: Option<i64>)
    ensures
        r == spec_int_of_output(s@),
{
    let len = s.unicode_len();
    let mut a: usize = 0;
    while a < len && is_ws_char(s.get_char(a))
        invariant
            0 <= a <= len,
            len == s@.len(),
            spec_skip_ws(s@, 0) == spec_skip_ws(s@, a as int),
        decreases len - a,
    {
        a = a + 1;
    }
    proof {
        assert(spec_skip_ws(s@, a as int) == a as int);
    }
    let mut b: usize = a;
    while b < len && !is_ws_char(s.get_char(b))
        invariant
            a <= b <= len,
            len == s@.len(),
            spec_token_end(s@, a as int) == spec_token_end(s@, b as int),
        decreases len - b,
    {
        b = b + 1;
    }
    proof {
        assert(spec_token_end(s@, b as int) == b as int);
    }
    let token = s.substring_char(a, b);
    parse_i64(token)
}

/// Whitespace test on one character.
fn is_ws_char(c: char) -> (r: bool)
    ensures
        r == is_ascii_ws(c),
{
    let u = c as u32;
    u == 32 || u == 9 || u == 10 || u == 13 || u == 11 || u == 12
}

/// The first index at or after `i` holding a newline.
pub open spec fn spec_find_nl(s: Seq<char>, i: int) -> int
    decreases s.len() - i,
{
    if i < 0 || i >= s.len() || s[i] == '\n' {
        i
    } else {
        spec_find_nl(s, i + 1)
    }
}

/// Where the first line of `s` ends: the first newline, or the end of the
/// text.
pub open spec fn spec_line_break(s: Seq<char>) -> int {
    let k = spec_find_nl(s, 0);
    if 0 <= k <= s.len() {
        k
    } else {
        s.len() as int
    }
}

/// A line without its trailing carriage return.
pub open spec fn strip_cr(l: Seq<char>) -> Seq<char> {
    if l.len() > 0 && l.last() == '\r' {
        l.drop_last()
    } else {
        l
    }
}

/// The token of one line: everything before the first space.
pub open spec fn spec_line_token(l: Seq<char>) -> Seq<char> {
    let b = spec_find_sp(l, 0);
    l.subrange(0, b)
}

/// The first index at or after `i` holding a space.
pub open spec fn spec_find_sp(s: Seq<char>, i: int) -> int
    decreases s.len() - i,
{
    if i < 0 || i >= s.len() || s[i] == ' ' {
        i
    } else {
        spec_find_sp(s, i + 1)
    }
}

/// The integer one line denotes, or `None`.
pub open spec fn spec_int_of_line(l: Seq<char>) -> Option<i64> {
    match parse_int_spec(spec_line_token(l)) {
        None => None,
        Some(v) => if i64::MIN <= v <= i64::MAX {
            Some(v as i64)
        } else {
            None
        },
    }
}

/// The integers a command's output denotes, one per line, each line's
/// leading token read as a number: what listing numbered records yields.
/// Lines are split at newlines, a carriage return before a newline is
/// dropped, and a final newline ends the last line.  `None` as soon as any
/// line does not start with a number.
pub open spec fn spec_ints_of_lines(s: Seq<char>) -> Option<Seq<i64>>
    decreases s.len(),
{
    if s.len() == 0 {
        Some(Seq::empty())
    } else {
        let k = spec_line_break(s);
        let line = if k < s.len() {
            strip_cr(s.subrange(0, k))
        } else {
            s.subrange(0, k)
        };
        match spec_int_of_line(line) {
            None => None,
            Some(v) => if k >= s.len() {
                Some(seq![v])
            } else {
                match spec_ints_of_lines(s.skip(k + 1)) {
                    None => None,
                    Some(rest) => Some(seq![v] + rest),
                }
            },
        }
    }
}

/// Parse each line's leading token as a signed integer.
pub fn ints_from_lines(s: &str) -> (r: Option<Vec<i64>>)
    ensures
        match r {
            None => spec_ints_of_lines(s@) is None,
            Some(v) => spec_ints_of_lines(s@) == Some(v@),
        },
{
    let len = s.unicode_len();
    let mut out: Vec<i64> = Vec::new();
    let mut pos: usize = 0;
    proof {
        assert(s@.skip(0) =~= s@);
    }
    while pos < len
        invariant
            0 <= pos <= len,
            len == s@.len(),
            match spec_ints_of_lines(s@) {
                None => spec_ints_of_lines(s@.skip(pos as int)) is None,
                Some(all) => spec_ints_of_lines(s@.skip(pos as int)) matches Some(rest) && all
                    == out@ + rest,
            },
        decreases len - pos,
    {
        let ghost tail = s@.skip(pos as int);
        // find the end of this line
        let mut k: usize = pos;
        while k < len && s.get_char(k) != '\n'
            invariant
                pos <= k <= len,
                len == s@.len(),
                spec_find_nl(s@, pos as int) == spec_find_nl(s@, k as int),
            decreases len - k,
        {
            k = k + 1;
        }
        proof {
            assert(spec_find_nl(s@, k as int) == k as int);
            assert(spec_find_nl(s@, pos as int) == k as int);
            lemma_find_nl_skip(s@, pos as int, k as int);
            assert(spec_line_break(tail) == k - pos);
        }
        // the line, without a carriage return before the newline
        let mut line_end: usize = k;
        if k < len && line_end > pos && s.get_char(line_end - 1) == '\r' {
            line_end = line_end - 1;
        }
        let line = s.substring_char(pos, line_end);
        let ghost seg = tail.subrange(0, k - pos);
        proof {
            assert(seg =~= s@.subrange(pos as int, k as int));
            if k < len {
                if k > pos {
                    assert(seg.last() == s@[k - 1]);
                }
                assert(line@ =~= strip_cr(seg));
            } else {
                assert(line@ =~= seg);
            }
        }
        // the token before the first space
        let llen = line.unicode_len();
        let mut b: usize = 0;
        while b < llen && line.get_char(b) != ' '
            invariant
                0 <= b <= llen,
                llen == line@.len(),
                spec_find_sp(line@, 0) == spec_find_sp(line@, b as int),
            decreases llen - b,
        {
            b = b + 1;
        }
        proof {
            assert(spec_find_sp(line@, b as int) == b as int);
        }
        let token = line.substring_char(0, b);
        proof {
            assert(token@ =~= spec_line_token(line@));
        }
        proof {
            assert(tail.len() > 0);
            assert(spec_find_nl(tail, 0) == k - pos);
            if k < len {
                assert(spec_ints_of_lines(tail) == (match spec_int_of_line(line@) {
                    None => None::<Seq<i64>>,
                    Some(v) => match spec_ints_of_lines(tail.skip(k - pos + 1)) {
                        None => None::<Seq<i64>>,
                        Some(rest) => Some(seq![v] + rest),
                    },
                }));
                assert(tail.skip(k - pos + 1) =~= s@.skip(k + 1));
            } else {
                assert(spec_ints_of_lines(tail) == (match spec_int_of_line(line@) {
                    None => None::<Seq<i64>>,
                    Some(v) => Some(seq![v]),
                }));
            }
        }
        let ghost out0 = out@;
        match parse_i64(token) {
            None => {
                proof {
                    assert(spec_int_of_line(line@) is None);
                    assert(spec_ints_of_lines(tail) is None);
                }
                return None;
            },
            Some(v) => {
                out.push(v);
                proof {
                    assert(spec_int_of_line(line@) == Some(v));
                    if k < len {
                        if spec_ints_of_lines(s@) is Some {
                            let all = spec_ints_of_lines(s@)->Some_0;
                            let rest = spec_ints_of_lines(tail)->Some_0;
                            let rest2 = spec_ints_of_lines(s@.skip(k + 1))->Some_0;
                            assert(rest == seq![v] + rest2);
                            assert(all == out0 + rest);
                            assert(out@ + rest2 =~= out0 + rest);
                        }
                    } else {
                        if spec_ints_of_lines(s@) is Some {
                            let all = spec_ints_of_lines(s@)->Some_0;
                            assert(spec_ints_of_lines(tail) == Some(seq![v]));
                            assert(all == out0 + seq![v]);
                            assert(s@.skip(len as int) =~= Seq::<char>::empty());
                            assert(out@ + Seq::<i64>::empty() =~= out0 + seq![v]);
                        }
                    }
                }
            },
        }
        pos = if k < len {
            k + 1
        } else {
            k
        };
    }
    proof {
        assert(s@.skip(len as int) =~= Seq::<char>::empty());
        if spec_ints_of_lines(s@) is Some {
            let all = spec_ints_of_lines(s@)->Some_0;
            assert(all == out@ + Seq::<i64>::empty());
            assert(out@ + Seq::<i64>::empty() =~= out@);
        }
    }
    Some(out)
}

proof fn lemma_find_nl_skip(s: Seq<char>, pos: int, k: int)
    requires
        0 <= pos <= k <= s.len(),
        spec_find_nl(s, pos) == k,
    ensures
        spec_find_nl(s.skip(pos), 0) == k - pos,
    decreases k - pos,
{
    let t = s.skip(pos);
    if pos == k {
        if k < s.len() {
            if s[pos] != '\n' {
                lemma_find_nl_ge(s, pos + 1);
                assert(false);
            }
            assert(t[0] == s[pos]);
        }
    } else {
        assert(s[pos] != '\n');
        assert(t[0] == s[pos]);
        lemma_find_nl_skip(s, pos + 1, k);
        assert(s.skip(pos + 1) =~= t.skip(1));
        lemma_find_nl_step(t, k - pos);
    }
}

/// The found index never lies before the start of the search.
proof fn lemma_find_nl_ge(s: Seq<char>, i: int)
    requires
        0 <= i,
    ensures
        spec_find_nl(s, i) >= i,
    decreases s.len() - i,
{
    if i < s.len() && s[i] != '\n' {
        lemma_find_nl_ge(s, i + 1);
    }
}

proof fn lemma_find_nl_step(t: Seq<char>, r: int)
    requires
        t.len() > 0,
        t[0] != '\n',
        spec_find_nl(t.skip(1), 0) == r - 1,
    ensures
        spec_find_nl(t, 0) == r,
    decreases t.len(),
{
    lemma_find_nl_shift(t, 0);
}

proof fn lemma_find_nl_shift(t: Seq<char>, i: int)
    requires
        0 <= i,
        t.len() > 0,
        t[0] != '\n',
    ensures
        spec_find_nl(t, i + 1) == spec_find_nl(t.skip(1), i) + 1,
    decreases t.len() - i,
{
    let u = t.skip(1);
    if i >= u.len() {
    } else {
        assert(u[i] == t[i + 1]);
        if u[i] != '\n' {
            lemma_find_nl_shift(t, i + 1);
        }
    }
}


/// A path with one more segment appended, as the path type's `push` does
/// when the segment is relative.
pub open spec fn path_join(a: Seq<char>, b: Seq<char>) -> Seq<char> {
    if a.len() > 0 && a.last() == '/' {
        a + b
    } else {
        a + "/"@ + b
    }
}

/// Append one relative segment to a path.
pub fn join_path(a: &str, b: &str) -> (r: String)
    ensures
        r@ == path_join(a@, b@),
{
    let mut r = String::from_str(a);
    let alen = a.unicode_len();
    if alen == 0 || a.get_char(alen - 1) != '/' {
        r.append("/");
        proof {
            reveal_strlit("/");
        }
    }
    r.append(b);
    r
}

/// The expanded user directories the desktop-file search is rooted in.
#[derive(Debug)]
pub struct XdgDirs {
    pub home: String,
    pub config: String,
    pub config_dirs: Vec<String>,
    pub data: String,
    pub data_dirs: Vec<String>,
}

/// Consecutive duplicates removed, as the vector `dedup` does.
pub open spec fn spec_dedup(s: Seq<Seq<char>>) -> Seq<Seq<char>>
    decreases s.len(),
{
    if s.len() <= 1 {
        s
    } else if s.last() == s[s.len() - 2] {
        spec_dedup(s.drop_last())
    } else {
        spec_dedup(s.drop_last()).push(s.last())
    }
}

/// The candidate directories for desktop files, in search order: the
/// configuration directories, the data directories' `applications`
/// subdirectories, the fixed system locations, and the user's flatpak
/// exports, with consecutive duplicates removed.  Filtering out the
/// candidates that do not exist on disk is the caller's concern.
pub open spec fn spec_desktop_file_dirs(
    home: Seq<char>,
    config: Seq<char>,
    config_dirs: Seq<Seq<char>>,
    data: Seq<char>,
    data_dirs: Seq<Seq<char>>,
) -> Seq<Seq<char>> {
    spec_dedup(spec_desktop_file_dirs_input(home, config, config_dirs, data, data_dirs))
}

/// The raw candidate list, before duplicates are removed.
pub open spec fn spec_desktop_file_dirs_input(
    home: Seq<char>,
    config: Seq<char>,
    config_dirs: Seq<Seq<char>>,
    data: Seq<char>,
    data_dirs: Seq<Seq<char>>,
) -> Seq<Seq<char>> {
    let apps = data_dirs.map_values(|d: Seq<char>| path_join(d, "applications"@));
    let fixed = seq![
        "/usr/share/xsessions"@,
        "/etc/xdg/autostart"@,
        "/var/lib/snapd/desktop/applications"@,
        "/var/lib/flatpak/exports/share/"@,
    ];
    let flatpak = path_join(home, ".local/share/flatpak/exports/share"@);
    seq![config] + config_dirs + seq![path_join(data, "applications"@)] + apps + fixed + seq![
        flatpak
    ]
}

/// Build the candidate directory list for desktop files.
#[verifier::rlimit(80)]
pub fn desktop_file_dirs(dirs: &XdgDirs) -> (r: Vec<String>)
    ensures
        r@.map_values(|p: String| p@) == spec_desktop_file_dirs(
            dirs.home@,
            dirs.config@,
            dirs.config_dirs@.map_values(|d: String| d@),
            dirs.data@,
            dirs.data_dirs@.map_values(|d: String| d@),
        ),
{
    let mut all: Vec<String> = Vec::new();
    all.push(dirs.config.clone());
    let mut i: usize = 0;
    let cn = dirs.config_dirs.len();
    while i < cn
        invariant
            0 <= i <= cn,
            cn == dirs.config_dirs@.len(),
            all@.len() == 1 + i,
            all@[0] == dirs.config,
            forall|j: int| 0 <= j < i ==> all@[1 + j] == dirs.config_dirs@[j],
        decreases cn - i,
    {
        all.push(dirs.config_dirs[i].clone());
        i = i + 1;
    }
    let ghost front0 = seq![dirs.config@] + dirs.config_dirs@.map_values(|d: String| d@);
    proof {
        assert(all@.map_values(|p: String| p@) =~= front0);
    }
    all.push(join_path(dirs.data.as_str(), "applications"));
    let ghost front1 = front0 + seq![path_join(dirs.data@, "applications"@)];
    proof {
        assert(all@.map_values(|p: String| p@) =~= front1);
    }
    let mut i2: usize = 0;
    let dn = dirs.data_dirs.len();
    let ghost base = all@;
    while i2 < dn
        invariant
            0 <= i2 <= dn,
            dn == dirs.data_dirs@.len(),
            all@.len() == base.len() + i2,
            all@.subrange(0, base.len() as int) =~= base,
            forall|j: int|
                0 <= j < i2 ==> all@[base.len() + j]@ == path_join(
                    dirs.data_dirs@[j]@,
                    "applications"@,
                ),
        decreases dn - i2,
    {
        all.push(join_path(dirs.data_dirs[i2].as_str(), "applications"));
        i2 = i2 + 1;
    }
    let ghost front2 = front1 + dirs.data_dirs@.map_values(|d: String| d@).map_values(
        |d: Seq<char>| path_join(d, "applications"@),
    );
    proof {
        assert(forall|j: int| 0 <= j < base.len() ==> #[trigger] all@[j] == base[j]);
        assert(base.map_values(|p: String| p@) == front1);
        assert(all@.map_values(|p: String| p@).len() == front2.len());
        assert forall|j: int| #![trigger front2[j]] 0 <= j < front2.len() implies all@.map_values(
            |p: String| p@,
        )[j] == front2[j] by {
            if j < base.len() {
                assert(all@[j] == base[j]);
            }
        }
        assert(all@.map_values(|p: String| p@) =~= front2);
    }
    all.push("/usr/share/xsessions".to_owned());
    all.push("/etc/xdg/autostart".to_owned());
    all.push("/var/lib/snapd/desktop/applications".to_owned());
    all.push("/var/lib/flatpak/exports/share/".to_owned());
    all.push(join_path(dirs.home.as_str(), ".local/share/flatpak/exports/share"));
    proof {
        let fixed = seq![
            "/usr/share/xsessions"@,
            "/etc/xdg/autostart"@,
            "/var/lib/snapd/desktop/applications"@,
            "/var/lib/flatpak/exports/share/"@,
        ];
        let flatpak = path_join(dirs.home@, ".local/share/flatpak/exports/share"@);
        assert(all@.map_values(|p: String| p@) =~= front2 + fixed + seq![flatpak]);
        assert(front2 + fixed + seq![flatpak] =~= spec_desktop_file_dirs_input(
            dirs.home@,
            dirs.config@,
            dirs.config_dirs@.map_values(|d: String| d@),
            dirs.data@,
            dirs.data_dirs@.map_values(|d: String| d@),
        ));
    }
    dedup_strings(all)
}


/// The path of the usage-frequency cache file under the cache directory.
/// Creating the directory and reading or writing the file is the caller's
/// concern.
pub fn frequency_cache_path(cache_dir: &str) -> (r: String)
    ensures
        r@ == path_join(path_join(cache_dir@, "apps"@), "apps_frequency.json"@),
{
    let d = join_path(cache_dir, "apps");
    join_path(d.as_str(), "apps_frequency.json")
}

/// Remove consecutive duplicate paths.
fn dedup_strings(v: Vec<String>) -> (r: Vec<String>)
    ensures
        r@.map_values(|p: String| p@) == spec_dedup(v@.map_values(|p: String| p@)),
{
    let n = v.len();
    let mut r: Vec<String> = Vec::new();
    let mut i: usize = 0;
    proof {
        assert(v@.map_values(|p: String| p@).take(0) =~= Seq::<Seq<char>>::empty());
        assert(r@.map_values(|p: String| p@) =~= Seq::<Seq<char>>::empty());
    }
    while i < n
        invariant
            0 <= i <= n,
            n == v@.len(),
            r@.map_values(|p: String| p@) == spec_dedup(v@.map_values(|p: String| p@).take(i as int)),
        decreases n - i,
    {
        let ghost vs = v@.map_values(|p: String| p@);
        proof {
            assert(vs.take(i + 1).drop_last() =~= vs.take(i as int));
            assert(vs.take(i + 1).last() == vs[i as int]);
        }
        let keep = if r.len() == 0 {
            true
        } else {
            !crate::text::str_eq(r[r.len() - 1].as_str(), v[i].as_str())
        };
        proof {
            let rs = r@.map_values(|p: String| p@);
            if i > 0 {
                lemma_dedup_last(vs.take(i as int));
            }
            if rs.len() > 0 {
                assert(rs.last() == r@[r@.len() - 1]@);
            }
        }
        if keep {
            r.push(v[i].clone());
            proof {
                assert(r@.map_values(|p: String| p@) =~= spec_dedup(vs.take(i as int)).push(
                    vs[i as int],
                ));
            }
        }
        i = i + 1;
    }
    proof {
        assert(v@.map_values(|p: String| p@).take(n as int) =~= v@.map_values(|p: String| p@));
    }
    r
}

/// A deduplicated list ends with the last element of its source, and is
/// empty only when the source is.
proof fn lemma_dedup_last(s: Seq<Seq<char>>)
    requires
        s.len() > 0,
    ensures
        spec_dedup(s).len() > 0,
        spec_dedup(s).last() == s.last(),
    decreases s.len(),
{
    if s.len() > 1 {
        lemma_dedup_last(s.drop_last());
    }
}

} // verus!
