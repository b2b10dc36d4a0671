//! Manpage discovery and parsing: which files count as manpages, how a
//! file name yields tool and section, and how a rendered page yields the
//! short description used for indexing.

use vstd::prelude::*;
use crate::text;

verus! {

/// What an indexed manpage contributes: the tool, its section, and the
/// short description drawn from its NAME and DESCRIPTION sections.
#[derive(Debug, Clone)]
pub struct ManpageContent {
    /// Tool name, e.g. `ls`.
    pub tool_name: String,
    /// Manual section, e.g. `1`.
    pub section: String,
    /// NAME line joined with the first DESCRIPTION paragraph.
    pub description: String,
}

/// True for a file name with a manpage suffix of the sections covered:
/// user commands and administration commands, plain or gzipped.
pub open spec fn spec_is_manpage_name(name: Seq<char>) -> bool {
    text::spec_has_suffix(name, ".1"@) || text::spec_has_suffix(name, ".8"@)
        || text::spec_has_suffix(name, ".1.gz"@) || text::spec_has_suffix(name, ".8.gz"@)
}

/// A file name with one trailing `.gz` removed.
pub open spec fn spec_strip_gz(name: Seq<char>) -> Seq<char> {
    if text::spec_has_suffix(name, ".gz"@) {
        name.take(name.len() - 3)
    } else {
        name
    }
}

/// Index of the last dot of `s`, or -1 when there is none.
pub open spec fn spec_last_dot(s: Seq<char>) -> int
    decreases s.len(),
{
    if s.len() == 0 {
        -1
    } else if s.last() == '.' {
        s.len() - 1
    } else {
        spec_last_dot(s.drop_last())
    }
}

/// The tool a manpage file name belongs to: the name up to its last dot,
/// once a trailing `.gz` is gone.
pub open spec fn spec_tool_of_filename(name: Seq<char>) -> Seq<char> {
    let s = spec_strip_gz(name);
    if spec_last_dot(s) >= 0 {
        s.take(spec_last_dot(s))
    } else {
        s
    }
}

/// The section a manpage file name names: its last character once a
/// trailing `.gz` is gone, or `1` for an empty name.
pub open spec fn spec_section_of_filename(name: Seq<char>) -> Seq<char> {
    let s = spec_strip_gz(name);
    if s.len() == 0 {
        seq!['1']
    } else {
        seq![s.last()]
    }
}

/// Finds manpage files under the configured manual roots.
#[derive(Debug, Clone)]
pub struct ManpageScanner {
    /// The manual roots to look under.
    pub paths: Vec<String>,
}

/// A snapshot of the directories that exist, each with the file names in
/// it, as handed in by whatever read the file system.
#[derive(Debug, Clone)]
pub struct DirectoryListing {
    /// Each existing directory with its file names.
    pub dirs: Vec<(String, Vec<String>)>,
}

/// The files of the first listed directory named `d`, when one is listed.
pub open spec fn spec_listing_lookup(
    dirs: Seq<(Seq<char>, Seq<Seq<char>>)>,
    d: Seq<char>,
) -> Option<Seq<Seq<char>>>
    decreases dirs.len(),
{
    if dirs.len() == 0 {
        None
    } else if dirs[0].0 == d {
        Some(dirs[0].1)
    } else {
        spec_listing_lookup(dirs.drop_first(), d)
    }
}

/// The full paths of the manpage files among `files` in directory `d`, in
/// order.
pub open spec fn spec_manpage_paths(d: Seq<char>, files: Seq<Seq<char>>) -> Seq<Seq<char>>
    decreases files.len(),
{
    if files.len() == 0 {
        Seq::empty()
    } else {
        let rest = spec_manpage_paths(d, files.drop_last());
        if spec_is_manpage_name(files.last()) {
            rest.push(d + "/"@ + files.last())
        } else {
            rest
        }
    }
}

/// The manpage files of one section directory: none when the directory is
/// not listed (it does not exist), else its manpage files.
pub open spec fn spec_scan_dir(
    dirs: Seq<(Seq<char>, Seq<Seq<char>>)>,
    d: Seq<char>,
) -> Seq<Seq<char>> {
    match spec_listing_lookup(dirs, d) {
        None => Seq::empty(),
        Some(files) => spec_manpage_paths(d, files),
    }
}

/// Every manpage file under the roots `paths`: for each root in order,
/// first its user-command section, then its administration section.
pub open spec fn spec_scan(
    paths: Seq<Seq<char>>,
    dirs: Seq<(Seq<char>, Seq<Seq<char>>)>,
) -> Seq<Seq<char>>
    decreases paths.len(),
{
    if paths.len() == 0 {
        Seq::empty()
    } else {
        spec_scan(paths.drop_last(), dirs) + spec_scan_dir(dirs, paths.last() + "/man1"@)
            + spec_scan_dir(dirs, paths.last() + "/man8"@)
    }
}

/// The pieces of `s` split at colons, from position `i` with `cur` already
/// read; every piece is kept, empty ones included.
pub open spec fn spec_split_colon_from(s: Seq<char>, i: int, cur: Seq<char>) -> Seq<Seq<char>>
    decreases s.len() - i,
{
    if i < 0 || i >= s.len() {
        seq![cur]
    } else if s[i] == ':' {
        seq![cur] + spec_split_colon_from(s, i + 1, Seq::empty())
    } else {
        spec_split_colon_from(s, i + 1, cur.push(s[i]))
    }
}

/// The pieces of `s` split at colons.
pub open spec fn spec_split_colon(s: Seq<char>) -> Seq<Seq<char>> {
    spec_split_colon_from(s, 0, Seq::empty())
}

/// Roots extended by `pieces`: an empty piece or one already present is
/// dropped, the rest are appended in order.
pub open spec fn spec_add_paths(existing: Seq<Seq<char>>, pieces: Seq<Seq<char>>) -> Seq<Seq<char>>
    decreases pieces.len(),
{
    if pieces.len() == 0 {
        existing
    } else {
        let pre = spec_add_paths(existing, pieces.drop_last());
        if pieces.last().len() == 0 || pre.contains(pieces.last()) {
            pre
        } else {
            pre.push(pieces.last())
        }
    }
}

impl ManpageScanner {
    /// A scanner over the standard manual roots.
    pub fn new() -> (r: ManpageScanner)
        ensures
            r.paths@.len() == 3,
            r.paths@[0]@ == "/usr/share/man"@,
            r.paths@[1]@ == "/usr/local/share/man"@,
            r.paths@[2]@ == "/opt/homebrew/share/man"@,
    {
        let mut paths: Vec<String> = Vec::new();
        paths.push("/usr/share/man".to_owned());
        paths.push("/usr/local/share/man".to_owned());
        paths.push("/opt/homebrew/share/man".to_owned());
        ManpageScanner { paths }
    }

    /// A scanner over the given roots alone.
    pub fn with_paths(paths: Vec<String>) -> (r: ManpageScanner)
        ensures
            r.paths == paths,
    {
        ManpageScanner { paths }
    }

    /// The configured roots.
    pub fn paths(&self) -> (r: &Vec<String>)
        ensures
            r == &self.paths,
    {
        &self.paths
    }

    /// Adds the colon-separated roots of a manual-path variable: empty
    /// entries and entries already present are dropped.
    pub fn add_manpath(&mut self, manpath: &str)
        ensures
            final(self).paths.deep_view() == spec_add_paths(
                old(self).paths.deep_view(),
                spec_split_colon(manpath@),
            ),
    {
        let n = manpath.unicode_len();
        let mut pieces: Vec<String> = Vec::new();
        let mut cur = String::new();
        for i in 0..n
            invariant
                n == manpath@.len(),
                spec_split_colon(manpath@) == pieces.deep_view() + spec_split_colon_from(
                    manpath@,
                    i as int,
                    cur@,
                ),
        {
            let ghost pprev = pieces.deep_view();
            let ghost cprev = cur@;
            let c = manpath.get_char(i);
            if c == ':' {
                pieces.push(cur);
                cur = String::new();
                proof {
                    assert(pieces.deep_view() =~= pprev.push(cprev));
                    assert(pieces.deep_view() + spec_split_colon_from(
                        manpath@,
                        i + 1,
                        Seq::empty(),
                    ) =~= pprev + (seq![cprev] + spec_split_colon_from(
                        manpath@,
                        i + 1,
                        Seq::empty(),
                    )));
                }
            } else {
                text::push_char(&mut cur, c);
                proof {
                    assert(cur@ =~= cprev.push(manpath@[i as int]));
                }
            }
        }
        let ghost pprev = pieces.deep_view();
        pieces.push(cur);
        proof {
            assert(pieces.deep_view() =~= spec_split_colon(manpath@));
        }
        let ghost all_pieces = pieces.deep_view();
        let ghost base = old(self).paths.deep_view();
        proof {
            assert(all_pieces.take(0) =~= Seq::<Seq<char>>::empty());
        }
        for k in 0..pieces.len()
            invariant
                all_pieces == pieces.deep_view(),
                all_pieces.len() == pieces.len(),
                forall|j: int| 0 <= j < all_pieces.len() ==> all_pieces[j] == #[trigger] pieces[j]@,
                self.paths.deep_view() == spec_add_paths(base, all_pieces.take(k as int)),
        {
            let ghost sofar = self.paths.deep_view();
            proof {
                assert(all_pieces.take(k + 1).drop_last() =~= all_pieces.take(k as int));
            }
            let piece_len = pieces[k].as_str().unicode_len();
            if piece_len > 0 && !text::vec_contains_str(&self.paths, pieces[k].as_str()) {
                self.paths.push(pieces[k].clone());
                proof {
                    assert(self.paths.deep_view() =~= sofar.push(all_pieces[k as int]));
                }
            }
        }
        proof {
            assert(all_pieces.take(pieces.len() as int) =~= all_pieces);
        }
    }

    /// Whether a file name has one of the manpage suffixes covered.
    pub fn is_manpage_file(name: &str) -> (r: bool)
        ensures
            r == spec_is_manpage_name(name@),
    {
        text::has_suffix(name, ".1") || text::has_suffix(name, ".8") || text::has_suffix(
            name,
            ".1.gz",
        ) || text::has_suffix(name, ".8.gz")
    }

    /// Splits a manpage file name into tool name and section.
    pub fn parse_filename(name: &str) -> (r: (String, String))
        ensures
            r.0@ == spec_tool_of_filename(name@),
            r.1@ == spec_section_of_filename(name@),
    {
        let n = name.unicode_len();
        let stripped: &str = if text::has_suffix(name, ".gz") {
            proof {
                reveal_strlit(".gz");
                assert(".gz"@.len() == 3);
            }
            name.substring_char(0, n - 3)
        } else {
            name
        };
        proof {
            assert(stripped@ == spec_strip_gz(name@));
        }
        let m = stripped.unicode_len();
        let mut section = String::new();
        if m == 0 {
            text::push_char(&mut section, '1');
        } else {
            text::push_char(&mut section, stripped.get_char(m - 1));
        }
        proof {
            assert(section@ =~= spec_section_of_filename(name@));
        }
        let mut k: usize = m;
        let mut dot: Option<usize> = None;
        proof {
            assert(stripped@.take(m as int) =~= stripped@);
        }
        while k > 0 && dot.is_none()
            invariant
                k <= m,
                m == stripped@.len(),
                match dot {
                    Some(d) => spec_last_dot(stripped@) == d && d < m,
                    None => spec_last_dot(stripped@) == spec_last_dot(stripped@.take(k as int)),
                },
            decreases k,
        {
            if stripped.get_char(k - 1) == '.' {
                proof {
                    assert(stripped@.take(k as int).last() == stripped@[k - 1]);
                }
                dot = Some(k - 1);
                k = k - 1;
            } else {
                proof {
                    assert(stripped@.take(k as int).last() == stripped@[k - 1]);
                    assert(stripped@.take(k as int).drop_last() =~= stripped@.take(k as int - 1));
                }
                k = k - 1;
            }
        }
        let tool: String = match dot {
            Some(d) => {
                proof {
                    assert(stripped@.take(d as int) == spec_tool_of_filename(name@));
                }
                stripped.substring_char(0, d).to_owned()
            },
            None => {
                proof {
                    assert(stripped@.take(0) =~= Seq::<char>::empty());
                }
                stripped.to_owned()
            },
        };
        (tool, section)
    }

    /// Lists every manpage file under the configured roots, given the
    /// directory snapshot: for each root in order, its `man1` then its
    /// `man8` section; missing directories are skipped.
    pub fn scan_directories(&self, listing: &DirectoryListing) -> (r: Vec<String>)
        ensures
            r.deep_view() == spec_scan(self.paths.deep_view(), listing.dirs.deep_view()),
    {
        let ghost pv = self.paths.deep_view();
        let ghost dv = listing.dirs.deep_view();
        let mut out: Vec<String> = Vec::new();
        proof {
            assert(pv.take(0) =~= Seq::<Seq<char>>::empty());
        }
        for i in 0..self.paths.len()
            invariant
                pv == self.paths.deep_view(),
                dv == listing.dirs.deep_view(),
                pv.len() == self.paths.len(),
                forall|j: int| 0 <= j < pv.len() ==> pv[j] == #[trigger] self.paths[j]@,
                out.deep_view() == spec_scan(pv.take(i as int), dv),
        {
            let ghost before = out.deep_view();
            let mut d1 = self.paths[i].clone();
            d1.append("/man1");
            match find_dir(listing, d1.as_str()) {
                Some(di) => {
                    let add = collect_section(d1.as_str(), &listing.dirs[di].1);
                    append_all(&mut out, add);
                },
                None => {},
            }
            proof {
                assert(out.deep_view() =~= before + spec_scan_dir(dv, pv[i as int] + "/man1"@));
            }
            let ghost mid = out.deep_view();
            let mut d8 = self.paths[i].clone();
            d8.append("/man8");
            match find_dir(listing, d8.as_str()) {
                Some(di) => {
                    let add = collect_section(d8.as_str(), &listing.dirs[di].1);
                    append_all(&mut out, add);
                },
                None => {},
            }
            proof {
                assert(out.deep_view() =~= mid + spec_scan_dir(dv, pv[i as int] + "/man8"@));
                assert(pv.take(i + 1).drop_last() =~= pv.take(i as int));
                assert(out.deep_view() =~= spec_scan(pv.take(i + 1), dv));
            }
        }
        proof {
            assert(pv.take(self.paths.len() as int) =~= pv);
        }
        out
    }
}

/// Index of the first listed directory named `d`, when one is listed.
fn find_dir(listing: &DirectoryListing, d: &str) -> (r: Option<usize>)
    ensures
        match r {
            Some(i) => i < listing.dirs@.len() && spec_listing_lookup(
                listing.dirs.deep_view(),
                d@,
            ) == Some(listing.dirs@[i as int].1.deep_view()),
            None => spec_listing_lookup(listing.dirs.deep_view(), d@) is None,
        },
{
    let ghost dv = listing.dirs.deep_view();
    proof {
        assert(dv.skip(0) =~= dv);
    }
    for j in 0..listing.dirs.len()
        invariant
            dv == listing.dirs.deep_view(),
            dv.len() == listing.dirs.len(),
            forall|t: int|
                0 <= t < dv.len() ==> dv[t] == (
                #[trigger] listing.dirs[t].0@,
                listing.dirs[t].1.deep_view(),
            ),
            spec_listing_lookup(dv, d@) == spec_listing_lookup(dv.skip(j as int), d@),
    {
        if text::str_eq(listing.dirs[j].0.as_str(), d) {
            proof {
                assert(dv.skip(j as int)[0] == dv[j as int]);
            }
            return Some(j);
        }
        proof {
            assert(dv.skip(j as int).drop_first() =~= dv.skip(j + 1));
        }
    }
    proof {
        assert(dv.skip(dv.len() as int).len() == 0);
    }
    None
}

/// The full paths of the manpage files among `files` in directory `dir`.
fn collect_section(dir: &str, files: &Vec<String>) -> (r: Vec<String>)
    ensures
        r.deep_view() == spec_manpage_paths(dir@, files.deep_view()),
{
    let ghost fv = files.deep_view();
    let mut out: Vec<String> = Vec::new();
    proof {
        assert(fv.take(0) =~= Seq::<Seq<char>>::empty());
    }
    for j in 0..files.len()
        invariant
            fv == files.deep_view(),
            fv.len() == files.len(),
            forall|t: int| 0 <= t < fv.len() ==> fv[t] == #[trigger] files[t]@,
            out.deep_view() == spec_manpage_paths(dir@, fv.take(j as int)),
    {
        let ghost before = out.deep_view();
        proof {
            assert(fv.take(j + 1).drop_last() =~= fv.take(j as int));
        }
        if ManpageScanner::is_manpage_file(files[j].as_str()) {
            let mut p = dir.to_owned();
            p.append("/");
            p.append(files[j].as_str());
            out.push(p);
            proof {
                assert(out.deep_view() =~= before.push(dir@ + "/"@ + fv[j as int]));
            }
        }
    }
    proof {
        assert(fv.take(files.len() as int) =~= fv);
    }
    out
}

/// Appends every element of `src` to `dst`.
fn append_all(dst: &mut Vec<String>, src: Vec<String>)
    ensures
        final(dst).deep_view() == old(dst).deep_view() + src.deep_view(),
{
    let ghost sv = src.deep_view();
    let ghost base = old(dst).deep_view();
    proof {
        assert(base + sv.take(0) =~= base);
    }
    for j in 0..src.len()
        invariant
            sv == src.deep_view(),
            sv.len() == src.len(),
            forall|t: int| 0 <= t < sv.len() ==> sv[t] == #[trigger] src[t]@,
            dst.deep_view() == base + sv.take(j as int),
    {
        let ghost before = dst.deep_view();
        dst.push(src[j].clone());
        proof {
            assert(dst.deep_view() =~= before.push(sv[j as int]));
            assert(before.push(sv[j as int]) =~= base + sv.take(j + 1));
        }
    }
    proof {
        assert(base + sv.take(src.len() as int) =~= base + sv);
    }
}

/// An ASCII capital or whitespace: what a section-header line is made of.
pub open spec fn spec_is_upper_or_space(c: char) -> bool {
    (65 <= c as u32 && c as u32 <= 90) || text::spec_is_space(c)
}

/// A line that reads as a section header: more than two characters, all
/// capitals or whitespace.
pub open spec fn spec_is_caps_line(t: Seq<char>) -> bool {
    t.len() > 2 && (forall|k: int| 0 <= k < t.len() ==> spec_is_upper_or_space(#[trigger] t[k]))
}

/// Runtime check matching [`spec_is_caps_line`].
fn is_caps_line(t: &str) -> (r: bool)
    ensures
        r == spec_is_caps_line(t@),
{
    let n = t.unicode_len();
    if n <= 2 {
        return false;
    }
    for k in 0..n
        invariant
            n == t@.len(),
            n > 2,
            forall|j: int| 0 <= j < k ==> spec_is_upper_or_space(#[trigger] t@[j]),
    {
        let c = t.get_char(k);
        let cu = c as u32;
        if !((65 <= cu && cu <= 90) || text::is_space(c)) {
            return false;
        }
    }
    true
}

/// What gathering a named section leaves in the accumulator, walking the
/// lines from `i`: a line whose trimmed text equals the section name (as
/// given or in capitals) opens the section; inside it, a header line ends
/// the gathering, and non-empty lines are joined with single spaces.
pub open spec fn spec_gather_section(
    lines: Seq<Seq<char>>,
    i: int,
    name: Seq<char>,
    in_sec: bool,
    acc: Seq<char>,
) -> Seq<char>
    decreases lines.len() - i,
{
    if i < 0 || i >= lines.len() {
        acc
    } else {
        let t = text::spec_trim(lines[i]);
        if t == name || t == text::spec_to_upper(name) {
            spec_gather_section(lines, i + 1, name, true, acc)
        } else if in_sec && t.len() > 0 && spec_is_caps_line(t) {
            acc
        } else if in_sec && t.len() > 0 {
            spec_gather_section(
                lines,
                i + 1,
                name,
                in_sec,
                if acc.len() == 0 {
                    t
                } else {
                    acc + seq![' '] + t
                },
            )
        } else {
            spec_gather_section(lines, i + 1, name, in_sec, acc)
        }
    }
}

/// The text of a named section of a page, when the section exists and is
/// not empty.
pub open spec fn spec_extract_section(content: Seq<char>, name: Seq<char>) -> Option<Seq<char>> {
    let acc = spec_gather_section(text::spec_lines(content), 0, name, false, Seq::empty());
    if acc.len() == 0 {
        None
    } else {
        Some(acc)
    }
}

/// What gathering the first paragraph leaves in the accumulator: non-empty
/// lines joined with spaces until a blank line ends a started paragraph or
/// four hundred bytes are exceeded.
pub open spec fn spec_first_paragraph_from(
    lines: Seq<Seq<char>>,
    i: int,
    prev_empty: bool,
    acc: Seq<char>,
) -> Seq<char>
    decreases lines.len() - i,
{
    if i < 0 || i >= lines.len() {
        acc
    } else {
        let t = text::spec_trim(lines[i]);
        if t.len() == 0 {
            spec_first_paragraph_from(
                lines,
                i + 1,
                if acc.len() > 0 {
                    true
                } else {
                    prev_empty
                },
                acc,
            )
        } else if prev_empty && acc.len() > 0 {
            acc
        } else {
            let acc2 = if acc.len() == 0 {
                t
            } else {
                acc + seq![' '] + t
            };
            if text::spec_byte_len(acc2) > 400 {
                acc2
            } else {
                spec_first_paragraph_from(lines, i + 1, prev_empty, acc2)
            }
        }
    }
}

/// The first paragraph of a text.
pub open spec fn spec_first_paragraph(t: Seq<char>) -> Seq<char> {
    spec_first_paragraph_from(text::spec_lines(t), 0, false, Seq::empty())
}

/// The indexed description of a page: its NAME line, joined with the first
/// DESCRIPTION paragraph by a dash, the tool name standing in when NAME is
/// absent, the whole cut to five hundred bytes with an ellipsis.
pub open spec fn spec_summary(content: Seq<char>, tool: Seq<char>) -> Seq<char> {
    let name_part = match spec_extract_section(content, "NAME"@) {
        Some(nt) => {
            let nlines = text::spec_lines(nt);
            text::spec_trim(
                if nlines.len() > 0 {
                    nlines[0]
                } else {
                    Seq::empty()
                },
            )
        },
        None => Seq::empty(),
    };
    let base = if name_part.len() == 0 {
        tool
    } else {
        name_part
    };
    let with_desc = match spec_extract_section(content, "DESCRIPTION"@) {
        Some(dt) => {
            let para = spec_first_paragraph(dt);
            if para.len() == 0 {
                base
            } else if base.len() == 0 {
                para
            } else {
                base + " - "@ + para
            }
        },
        None => base,
    };
    text::spec_truncate_with_marker(with_desc, 500, "..."@)
}

impl ManpageScanner {
    /// The text of the named section of a page, when present and
    /// non-empty, matching [`spec_extract_section`].
    pub fn extract_section(content: &str, section_name: &str) -> (r: Option<String>)
        ensures
            match r {
                Some(s) => spec_extract_section(content@, section_name@) == Some(s@),
                None => spec_extract_section(content@, section_name@) is None,
            },
    {
        let lines = text::split_lines(content);
        let ghost lv = lines.deep_view();
        let upper = text::to_ascii_uppercase(section_name);
        let mut acc = String::new();
        let mut in_sec = false;
        let mut done = false;
        let ghost target = spec_gather_section(lv, 0, section_name@, false, Seq::empty());
        let mut i: usize = 0;
        while i < lines.len() && !done
            invariant
                i <= lines.len(),
                lv == lines.deep_view(),
                lv.len() == lines.len(),
                forall|t: int| 0 <= t < lv.len() ==> lv[t] == #[trigger] lines[t]@,
                upper@ == text::spec_to_upper(section_name@),
                target == spec_gather_section(lv, 0, section_name@, false, Seq::empty()),
                !done ==> target == spec_gather_section(lv, i as int, section_name@, in_sec, acc@),
                done ==> target == acc@,
            decreases lines.len() - i,
        {
            let ghost acc_prev = acc@;
            let t = text::trim_str(lines[i].as_str());
            if text::str_eq(t, section_name) || text::str_eq(t, upper.as_str()) {
                in_sec = true;
            } else if in_sec && t.unicode_len() > 0 && is_caps_line(t) {
                done = true;
            } else if in_sec && t.unicode_len() > 0 {
                if acc.as_str().unicode_len() == 0 {
                    acc = t.to_owned();
                } else {
                    acc.append(" ");
                    acc.append(t);
                    proof {
                        reveal_strlit(" ");
                        assert(" "@ =~= seq![' ']);
                        assert(acc@ =~= acc_prev + seq![' '] + t@);
                    }
                }
            }
            i = i + 1;
        }
        proof {
            if !done {
                assert(target == acc@);
            }
        }
        if acc.as_str().unicode_len() == 0 {
            None
        } else {
            Some(acc)
        }
    }

    /// The first paragraph of a text, matching [`spec_first_paragraph`].
    pub fn extract_first_paragraph(t: &str) -> (r: String)
        ensures
            r@ == spec_first_paragraph(t@),
    {
        let lines = text::split_lines(t);
        let ghost lv = lines.deep_view();
        let mut acc = String::new();
        let mut prev_empty = false;
        let mut done = false;
        let ghost target = spec_first_paragraph_from(lv, 0, false, Seq::empty());
        let mut i: usize = 0;
        while i < lines.len() && !done
            invariant
                i <= lines.len(),
                lv == lines.deep_view(),
                lv.len() == lines.len(),
                forall|k: int| 0 <= k < lv.len() ==> lv[k] == #[trigger] lines[k]@,
                target == spec_first_paragraph_from(lv, 0, false, Seq::empty()),
                !done ==> target == spec_first_paragraph_from(lv, i as int, prev_empty, acc@),
                done ==> target == acc@,
            decreases lines.len() - i,
        {
            let ghost acc_prev = acc@;
            let line = text::trim_str(lines[i].as_str());
            if line.unicode_len() == 0 {
                if acc.as_str().unicode_len() > 0 {
                    prev_empty = true;
                }
            } else if prev_empty && acc.as_str().unicode_len() > 0 {
                done = true;
            } else {
                if acc.as_str().unicode_len() == 0 {
                    acc = line.to_owned();
                } else {
                    acc.append(" ");
                    acc.append(line);
                    proof {
                        reveal_strlit(" ");
                        assert(" "@ =~= seq![' ']);
                        assert(acc@ =~= acc_prev + seq![' '] + line@);
                    }
                }
                if acc.as_str().as_bytes().len() > 400 {
                    done = true;
                }
            }
            i = i + 1;
        }
        proof {
            if !done {
                assert(target == acc@);
            }
        }
        acc
    }

    /// The indexed description drawn from a rendered page, matching
    /// [`spec_summary`].
    pub fn parse_manpage_content(content: &str, tool_name: &str) -> (r: String)
        ensures
            r@ == spec_summary(content@, tool_name@),
    {
        let mut result = String::new();
        match Self::extract_section(content, "NAME") {
            Some(nt) => {
                let nlines = text::split_lines(nt.as_str());
                if nlines.len() > 0 {
                    let first = text::trim_str(nlines[0].as_str());
                    result = first.to_owned();
                } else {
                    proof {
                        assert(text::spec_trim(Seq::<char>::empty()) =~= Seq::<char>::empty());
                    }
                }
            },
            None => {},
        }
        if result.as_str().unicode_len() == 0 {
            result = tool_name.to_owned();
        }
        match Self::extract_section(content, "DESCRIPTION") {
            Some(dt) => {
                let para = Self::extract_first_paragraph(dt.as_str());
                if para.as_str().unicode_len() > 0 {
                    if result.as_str().unicode_len() > 0 {
                        result.append(" - ");
                    }
                    result.append(para.as_str());
                }
            },
            None => {},
        }
        let blen = result.as_str().as_bytes().len();
        if blen > 500 {
            let prefix = text::truncate_at_boundary(result.as_str(), 500);
            let mut out = prefix.to_owned();
            out.append("...");
            out
        } else {
            result
        }
    }

    /// The indexed entry of one manpage: tool and section from the file
    /// name, the description from the rendered page text.
    pub fn extract_content(file_name: &str, page_text: &str) -> (r: ManpageContent)
        ensures
            r.tool_name@ == spec_tool_of_filename(file_name@),
            r.section@ == spec_section_of_filename(file_name@),
            r.description@ == spec_summary(page_text@, spec_tool_of_filename(file_name@)),
    {
        let parsed = Self::parse_filename(file_name);
        let description = Self::parse_manpage_content(page_text, parsed.0.as_str());
        ManpageContent { tool_name: parsed.0, section: parsed.1, description }
    }
}

} // verus!
