//! Reading the Microsoft Flight Simulator 2024 install layout.
//!
//! Candidate propdefs directories come from the Microsoft Store / Xbox
//! layout, from Steam libraries (listed in `libraryfolders.vdf`), and from
//! relocated installs recorded as `InstalledPackagesPath` in `UserCfg.opt`.
//! Each candidate is confirmed by the presence of `propbase.xml` by the caller.

use vstd::prelude::*;

use crate::scan::{find_char, find_from, lemma_find_from, occurs_at, subrange_chars};
use crate::text::{chars_of, string_from_chars, trim_chars, trim_end_seq, trim_start_seq};

verus! {

/// The line of `s` that starts at `from` runs up to the next `\n` (or the end);
/// a `\r` just before that `\n` is not part of it.
pub open spec fn lines_from(s: Seq<char>, from: int) -> Seq<Seq<char>>
    decreases s.len() - from,
{
    if from < 0 || from >= s.len() {
        Seq::empty()
    } else {
        let e = match find_from(s, seq!['\n'], from) {
            Some(e) => e,
            None => s.len() as int,
        };
        let raw = s.subrange(from, e);
        let line = if e < s.len() && raw.len() > 0 && raw.last() == '\r' {
            raw.drop_last()
        } else {
            raw
        };
        seq![line] + if from < e + 1 <= s.len() {
            lines_from(s, e + 1)
        } else {
            Seq::empty()
        }
    }
}

/// The lines of a text, as `str::lines` yields them.
pub open spec fn text_lines(s: Seq<char>) -> Seq<Seq<char>> {
    lines_from(s, 0)
}

/// A text without leading and trailing white space.
pub open spec fn trimmed(s: Seq<char>) -> Seq<char> {
    trim_start_seq(trim_end_seq(s))
}

/// What follows `prefix` in `s`, when `s` starts with it.
pub open spec fn after_prefix(s: Seq<char>, prefix: Seq<char>) -> Option<Seq<char>> {
    if s.len() >= prefix.len() && s.take(prefix.len() as int) == prefix {
        Some(s.skip(prefix.len() as int))
    } else {
        None
    }
}

/// A text with each doubled backslash, taken left to right, made single.
pub open spec fn unescaped(s: Seq<char>) -> Seq<char>
    decreases s.len(),
{
    if s.len() == 0 {
        Seq::empty()
    } else if s.len() >= 2 && s[0] == '\\' && s[1] == '\\' {
        seq!['\\'] + unescaped(s.skip(2))
    } else {
        seq![s[0]] + unescaped(s.skip(1))
    }
}

/// The first double quoted substring of `text`, unescaped.
pub open spec fn quoted(text: Seq<char>) -> Option<Seq<char>> {
    match find_from(text, seq!['"'], 0) {
        None => None,
        Some(i) => match find_from(text, seq!['"'], i + 1) {
            None => None,
            Some(j) => Some(unescaped(text.subrange(i + 1, j))),
        },
    }
}

/// The remainder of the first of `lines` (from index `i`) that, trimmed,
/// starts with `prefix`.
pub open spec fn first_after_prefix(lines: Seq<Seq<char>>, prefix: Seq<char>, i: int) -> Option<
    Seq<char>,
>
    decreases lines.len() - i,
{
    if i < 0 || i >= lines.len() {
        None
    } else {
        match after_prefix(trimmed(lines[i]), prefix) {
            Some(r) => Some(r),
            None => first_after_prefix(lines, prefix, i + 1),
        }
    }
}

/// The `InstalledPackagesPath` recorded in a `UserCfg.opt` text.
pub open spec fn installed_packages_path(config: Seq<char>) -> Option<Seq<char>> {
    match first_after_prefix(text_lines(config), "InstalledPackagesPath"@, 0) {
        Some(rest) => quoted(rest),
        None => None,
    }
}

/// The quoted values of the lines that, trimmed, start with `"path"`.
pub open spec fn library_paths(lines: Seq<Seq<char>>) -> Seq<Seq<char>>
    decreases lines.len(),
{
    if lines.len() == 0 {
        Seq::empty()
    } else {
        library_paths(lines.drop_last()) + match after_prefix(
            trimmed(lines.last()),
            "\"path\""@,
        ) {
            Some(rest) => match quoted(rest) {
                Some(v) => seq![v],
                None => Seq::empty(),
            },
            None => Seq::empty(),
        }
    }
}

/// Split a text into lines.
pub fn lines_of(s: &Vec<char>) -> (r: Vec<Vec<char>>)
    ensures
        r@.map_values(|l: Vec<char>| l@) == text_lines(s@),
{
    let n = s.len();
    let mut out: Vec<Vec<char>> = Vec::new();
    let mut from: usize = 0;
    assert(out@.map_values(|l: Vec<char>| l@) =~= Seq::<Seq<char>>::empty());
    while from < n
        invariant
            from <= n,
            n == s@.len(),
            out@.map_values(|l: Vec<char>| l@) + lines_from(s@, from as int) == text_lines(s@),
        decreases n - from,
    {
        let ghost prev = out@.map_values(|l: Vec<char>| l@);
        let found = find_char(s, '\n', from);
        proof {
            lemma_find_from(s@, seq!['\n'], from as int);
        }
        let e = match found {
            Some(e) => {
                assert(occurs_at(s@, seq!['\n'], e as int));
                e
            },
            None => n,
        };
        let mut line = subrange_chars(s, from, e);
        if e < n && line.len() > 0 && line[line.len() - 1] == '\r' {
            let ghost raw = line@;
            line.pop();
            assert(line@ =~= raw.drop_last());
        }
        let ghost lv = line@;
        out.push(line);
        assert(out@.map_values(|l: Vec<char>| l@) =~= prev.push(lv));
        if e >= n {
            assert(out@.map_values(|l: Vec<char>| l@) + lines_from(s@, n as int) =~= text_lines(s@));
            from = n;
        } else {
            from = e + 1;
            assert(out@.map_values(|l: Vec<char>| l@) + lines_from(s@, from as int) =~= text_lines(
                s@,
            ));
        }
    }
    assert(out@.map_values(|l: Vec<char>| l@) =~= text_lines(s@));
    out
}

/// What follows `prefix` in `s`, when `s` starts with it.
pub fn strip_prefix(s: &Vec<char>, prefix: &str) -> (r: Option<Vec<char>>)
    ensures
        match after_prefix(s@, prefix@) {
            Some(v) => r is Some && r->Some_0@ == v,
            None => r is None,
        },
{
    let p = chars_of(prefix);
    if s.len() < p.len() {
        return None;
    }
    let head = subrange_chars(s, 0, p.len());
    assert(head@ =~= s@.take(p@.len() as int));
    if !crate::text::chars_eq(&head, &p) {
        return None;
    }
    let rest = subrange_chars(s, p.len(), s.len());
    assert(rest@ =~= s@.skip(p@.len() as int));
    Some(rest)
}

fn unescape(s: &Vec<char>) -> (r: Vec<char>)
    ensures
        r@ == unescaped(s@),
{
    let mut out: Vec<char> = Vec::new();
    let mut i: usize = 0;
    assert(s@.skip(0) =~= s@);
    while i < s.len()
        invariant
            i <= s@.len(),
            out@ + unescaped(s@.skip(i as int)) == unescaped(s@),
        decreases s.len() - i,
    {
        let ghost t = s@.skip(i as int);
        if i + 1 < s.len() && s[i] == '\\' && s[i + 1] == '\\' {
            out.push('\\');
            assert(t.skip(2) =~= s@.skip(i + 2));
            i = i + 2;
        } else {
            out.push(s[i]);
            assert(t.skip(1) =~= s@.skip(i + 1));
            i = i + 1;
        }
    }
    assert(s@.skip(i as int) =~= Seq::<char>::empty());
    assert(out@ =~= unescaped(s@));
    out
}

/// Extract the first double quoted substring, unescaping the doubled
/// backslashes that the VDF and config formats use.
pub fn quoted_value(text: &Vec<char>) -> (r: Option<Vec<char>>)
    ensures
        match quoted(text@) {
            Some(v) => r is Some && r->Some_0@ == v,
            None => r is None,
        },
{
    let n = text.len();
    let first = find_char(text, '"', 0);
    proof {
        lemma_find_from(text@, seq!['"'], 0);
    }
    let start = match first {
        Some(i) => {
            assert(occurs_at(text@, seq!['"'], i as int));
            assert(i < n);
            i + 1
        },
        None => return None,
    };
    let second = find_char(text, '"', start);
    proof {
        lemma_find_from(text@, seq!['"'], start as int);
    }
    let end = match second {
        Some(j) => {
            assert(occurs_at(text@, seq!['"'], j as int));
            j
        },
        None => return None,
    };
    Some(unescape(&subrange_chars(text, start, end)))
}

/// Read `InstalledPackagesPath` from a `UserCfg.opt` text.
pub fn parse_installed_packages_path(config: &str) -> (r: Option<String>)
    ensures
        match installed_packages_path(config@) {
            Some(v) => r is Some && r->Some_0@ == v,
            None => r is None,
        },
{
    let lines = lines_of(&chars_of(config));
    let ghost lv = lines@.map_values(|l: Vec<char>| l@);
    let mut i: usize = 0;
    while i < lines.len()
        invariant
            i <= lines@.len(),
            lv == lines@.map_values(|l: Vec<char>| l@),
            lv == text_lines(config@),
            first_after_prefix(lv, "InstalledPackagesPath"@, 0) == first_after_prefix(
                lv,
                "InstalledPackagesPath"@,
                i as int,
            ),
        decreases lines.len() - i,
    {
        let line = trim_chars(&lines[i]);
        assert(lv[i as int] == lines@[i as int]@);
        match strip_prefix(&line, "InstalledPackagesPath") {
            Some(rest) => {
                return match quoted_value(&rest) {
                    Some(v) => Some(string_from_chars(&v)),
                    None => None,
                };
            },
            None => {},
        }
        i = i + 1;
    }
    None
}

/// The Steam library roots listed in a `libraryfolders.vdf` text.
pub fn parse_library_paths(vdf: &str) -> (r: Vec<String>)
    ensures
        r@.map_values(|s: String| s@) == library_paths(text_lines(vdf@)),
{
    let lines = lines_of(&chars_of(vdf));
    let ghost lv = lines@.map_values(|l: Vec<char>| l@);
    let mut out: Vec<String> = Vec::new();
    let mut i: usize = 0;
    assert(out@.map_values(|s: String| s@) =~= library_paths(lv.take(0)));
    while i < lines.len()
        invariant
            i <= lines@.len(),
            lv == lines@.map_values(|l: Vec<char>| l@),
            out@.map_values(|s: String| s@) == library_paths(lv.take(i as int)),
        decreases lines.len() - i,
    {
        let ghost prev = out@.map_values(|s: String| s@);
        assert(lv.take(i + 1).drop_last() =~= lv.take(i as int));
        assert(lv.take(i + 1).last() == lines@[i as int]@);
        let line = trim_chars(&lines[i]);
        match strip_prefix(&line, "\"path\"") {
            Some(rest) => match quoted_value(&rest) {
                Some(v) => {
                    let ghost vv = v@;
                    out.push(string_from_chars(&v));
                    assert(out@.map_values(|s: String| s@) =~= prev + seq![vv]);
                },
                None => {
                    assert(prev + Seq::<Seq<char>>::empty() =~= prev);
                },
            },
            None => {
                assert(prev + Seq::<Seq<char>>::empty() =~= prev);
            },
        }
        i = i + 1;
    }
    assert(lv.take(i as int) =~= lv);
    out
}

} // verus!

verus! {

pub open spec fn game() -> Seq<char> {
    "Microsoft Flight Simulator 2024"@
}

pub open spec fn content_propdefs() -> Seq<char> {
    "Content/Propdefs/1.0/Common"@
}

/// The candidates a relocated install base gives, in order.
pub open spec fn base_candidates(base: Seq<char>) -> Seq<(Seq<char>, Seq<Seq<char>>)> {
    seq![
        (base, seq!["Official/OneStore/fs-base-propdefs/Propdefs/1.0/Common"@]),
        (base, seq!["Official/Steam/fs-base-propdefs/Propdefs/1.0/Common"@]),
        (base, seq![content_propdefs()]),
        (base, seq!["Propdefs/1.0/Common"@]),
    ]
}

/// Candidate propdefs directories, each a base path and the path components
/// to join onto it: the Microsoft Store / Xbox layout on each drive root, the
/// Steam layout in each Steam library, then four layouts under each install
/// base recorded in `UserCfg.opt`.
pub open spec fn candidate_dirs(
    drives: Seq<Seq<char>>,
    libraries: Seq<Seq<char>>,
    bases: Seq<Seq<char>>,
) -> Seq<(Seq<char>, Seq<Seq<char>>)> {
    drives.map_values(|d: Seq<char>| (d, seq!["XboxGames"@, game(), content_propdefs()]))
        + libraries.map_values(
        |l: Seq<char>| (l, seq!["steamapps"@, "common"@, game(), content_propdefs()]),
    ) + bases_candidates(bases)
}

pub open spec fn bases_candidates(bases: Seq<Seq<char>>) -> Seq<(Seq<char>, Seq<Seq<char>>)>
    decreases bases.len(),
{
    if bases.len() == 0 {
        Seq::empty()
    } else {
        bases_candidates(bases.drop_last()) + base_candidates(bases.last())
    }
}

pub open spec fn candidates_view(v: Seq<(String, Vec<String>)>) -> Seq<(Seq<char>, Seq<Seq<char>>)> {
    v.map_values(|c: (String, Vec<String>)| (c.0@, crate::cli::strings_view(c.1@)))
}

fn text(s: &str) -> (r: String)
    ensures
        r@ == s@,
{
    string_from_chars(&chars_of(s))
}

fn push_candidate(out: &mut Vec<(String, Vec<String>)>, base: &String, parts: &[&str])
    ensures
        candidates_view(final(out)@) == candidates_view(old(out)@).push(
            (base@, parts@.map_values(|p: &str| p@)),
        ),
{
    let mut v: Vec<String> = Vec::new();
    let mut i: usize = 0;
    while i < parts.len()
        invariant
            i <= parts@.len(),
            crate::cli::strings_view(v@) == parts@.take(i as int).map_values(|p: &str| p@),
        decreases parts.len() - i,
    {
        let part = parts[i];
        assert(part == parts@[i as int]);
        let ghost prev = crate::cli::strings_view(v@);
        let t = text(part);
        v.push(t);
        assert(crate::cli::strings_view(v@) =~= prev.push(part@));
        assert(parts@.take(i + 1).map_values(|p: &str| p@) =~= parts@.take(i as int).map_values(|p: &str| p@).push(part@));
        i = i + 1;
        assert(crate::cli::strings_view(v@) =~= parts@.take(i as int).map_values(|p: &str| p@));
    }
    assert(parts@.take(i as int) =~= parts@);
    let ghost prev = candidates_view(out@);
    out.push((text(base.as_str()), v));
    assert(candidates_view(out@) =~= prev.push((base@, parts@.map_values(|p: &str| p@))));
}

/// Candidate propdefs directories for the given drive roots, Steam library
/// roots and recorded install bases.
pub fn candidates(drives: &Vec<String>, libraries: &Vec<String>, bases: &Vec<String>) -> (r: Vec<
    (String, Vec<String>),
>)
    ensures
        candidates_view(r@) == candidate_dirs(
            crate::cli::strings_view(drives@),
            crate::cli::strings_view(libraries@),
            crate::cli::strings_view(bases@),
        ),
{
    let ghost dv = crate::cli::strings_view(drives@);
    let ghost lv = crate::cli::strings_view(libraries@);
    let ghost bv = crate::cli::strings_view(bases@);
    let mut out: Vec<(String, Vec<String>)> = Vec::new();
    let xbox = ["XboxGames", "Microsoft Flight Simulator 2024", "Content/Propdefs/1.0/Common"];
    assert(xbox@.map_values(|p: &str| p@) =~= seq!["XboxGames"@, game(), content_propdefs()]);
    let mut i: usize = 0;
    assert(candidates_view(out@) =~= Seq::<(Seq<char>, Seq<Seq<char>>)>::empty());
    while i < drives.len()
        invariant
            i <= drives@.len(),
            dv == crate::cli::strings_view(drives@),
            xbox@.map_values(|p: &str| p@) == seq!["XboxGames"@, game(), content_propdefs()],
            candidates_view(out@) == dv.take(i as int).map_values(
                |d: Seq<char>| (d, seq!["XboxGames"@, game(), content_propdefs()]),
            ),
        decreases drives.len() - i,
    {
        push_candidate(&mut out, &drives[i], &xbox);
        i = i + 1;
        assert(candidates_view(out@) =~= dv.take(i as int).map_values(
            |d: Seq<char>| (d, seq!["XboxGames"@, game(), content_propdefs()]),
        ));
    }
    assert(dv.take(i as int) =~= dv);
    let ghost after_drives = candidates_view(out@);
    let steam = ["steamapps", "common", "Microsoft Flight Simulator 2024", "Content/Propdefs/1.0/Common"];
    assert(steam@.map_values(|p: &str| p@) =~= seq!["steamapps"@, "common"@, game(), content_propdefs()]);
    let mut j: usize = 0;
    while j < libraries.len()
        invariant
            j <= libraries@.len(),
            lv == crate::cli::strings_view(libraries@),
            steam@.map_values(|p: &str| p@) == seq!["steamapps"@, "common"@, game(), content_propdefs()],
            candidates_view(out@) == after_drives + lv.take(j as int).map_values(
                |l: Seq<char>| (l, seq!["steamapps"@, "common"@, game(), content_propdefs()]),
            ),
        decreases libraries.len() - j,
    {
        push_candidate(&mut out, &libraries[j], &steam);
        j = j + 1;
        assert(candidates_view(out@) =~= after_drives + lv.take(j as int).map_values(
            |l: Seq<char>| (l, seq!["steamapps"@, "common"@, game(), content_propdefs()]),
        ));
    }
    assert(lv.take(j as int) =~= lv);
    let ghost after_libraries = candidates_view(out@);
    let onestore = ["Official/OneStore/fs-base-propdefs/Propdefs/1.0/Common"];
    let steam_base = ["Official/Steam/fs-base-propdefs/Propdefs/1.0/Common"];
    let content = ["Content/Propdefs/1.0/Common"];
    let plain = ["Propdefs/1.0/Common"];
    assert(onestore@.map_values(|p: &str| p@) =~= seq!["Official/OneStore/fs-base-propdefs/Propdefs/1.0/Common"@]);
    assert(steam_base@.map_values(|p: &str| p@) =~= seq!["Official/Steam/fs-base-propdefs/Propdefs/1.0/Common"@]);
    assert(content@.map_values(|p: &str| p@) =~= seq![content_propdefs()]);
    assert(plain@.map_values(|p: &str| p@) =~= seq!["Propdefs/1.0/Common"@]);
    let mut k: usize = 0;
    while k < bases.len()
        invariant
            k <= bases@.len(),
            bv == crate::cli::strings_view(bases@),
            onestore@.map_values(|p: &str| p@) == seq!["Official/OneStore/fs-base-propdefs/Propdefs/1.0/Common"@],
            steam_base@.map_values(|p: &str| p@) == seq!["Official/Steam/fs-base-propdefs/Propdefs/1.0/Common"@],
            content@.map_values(|p: &str| p@) == seq![content_propdefs()],
            plain@.map_values(|p: &str| p@) == seq!["Propdefs/1.0/Common"@],
            candidates_view(out@) == after_libraries + bases_candidates(bv.take(k as int)),
        decreases bases.len() - k,
    {
        let ghost prev = candidates_view(out@);
        push_candidate(&mut out, &bases[k], &onestore);
        push_candidate(&mut out, &bases[k], &steam_base);
        push_candidate(&mut out, &bases[k], &content);
        push_candidate(&mut out, &bases[k], &plain);
        assert(bv.take(k + 1).drop_last() =~= bv.take(k as int));
        assert(bv.take(k + 1).last() == bases@[k as int]@);
        k = k + 1;
        assert(candidates_view(out@) =~= after_libraries + bases_candidates(bv.take(k as int)));
    }
    assert(bv.take(k as int) =~= bv);
    out
}

} // verus!
