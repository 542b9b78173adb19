//! Paths of the job's working directories and of its output file.

use vstd::prelude::*;
use crate::config::Container;
use crate::text::{decimal, push_decimal};

verus! {

/// `base` joined with the relative component `name`: separated by `/`
/// unless `base` is empty or already ends with a separator.
pub open spec fn join_spec(base: Seq<char>, name: Seq<char>) -> Seq<char> {
    if base.len() == 0 {
        name
    } else if base.last() == '/' || base.last() == '\\' {
        base + name
    } else {
        base + seq!['/'] + name
    }
}

/// Joins the relative component `name` to `base`.
pub fn join_path(base: &str, name: &str) -> (p: String)
    ensures
        p@ == join_spec(base@, name@),
{
    let n = base.unicode_len();
    let mut p = String::from_str(base);
    if n == 0 {
        return String::from_str(name);
    }
    let last = base.get_char(n - 1);
    if last != '/' && last != '\\' {
        proof {
            reveal_strlit("/");
        }
        p.append("/");
    }
    p.append(name);
    proof {
        assert(p@ =~= join_spec(base@, name@));
    }
    p
}

/// Temporary root of a job: `{root}/jobs/{job_id}`.
pub fn job_temp_dir(root: &str, job_id: &str) -> (p: String)
    ensures
        p@ == join_spec(join_spec(root@, "jobs"@), job_id@),
{
    let jobs = join_path(root, "jobs");
    join_path(jobs.as_str(), job_id)
}

/// File extension of a container.
pub open spec fn container_extension(c: Container) -> Seq<char> {
    match c {
        Container::Mkv => "mkv"@,
        Container::Mp4 => "mp4"@,
    }
}

pub fn container_extension_exec(c: Container) -> (e: &'static str)
    ensures
        e@ == container_extension(c),
{
    match c {
        Container::Mkv => "mkv",
        Container::Mp4 => "mp4",
    }
}

/// Name of the output file: `{stem}_4k60.{ext}` for the first candidate,
/// `{stem}_4k60_{n}.{ext}` for the following ones.
pub open spec fn output_file_name_spec(stem: Seq<char>, container: Container, n: nat) -> Seq<
    char,
> {
    if n == 0 {
        stem + "_4k60."@ + container_extension(container)
    } else {
        stem + "_4k60_"@ + decimal(n) + "."@ + container_extension(container)
    }
}

/// Candidate `n` for the output file in `dir` (0 is the plain name; a
/// later one is tried while the earlier ones exist).
pub fn output_candidate(dir: &str, stem: &str, container: Container, n: u32) -> (p: String)
    ensures
        p@ == join_spec(dir@, output_file_name_spec(stem@, container, n as nat)),
{
    let mut name = String::from_str(stem);
    if n == 0 {
        name.append("_4k60.");
    } else {
        name.append("_4k60_");
        push_decimal(&mut name, n as u128);
        name.append(".");
    }
    name.append(container_extension_exec(container));
    proof {
        assert(name@ =~= output_file_name_spec(stem@, container, n as nat));
    }
    join_path(dir, name.as_str())
}

/// Length of the part of a path before its components: a root `/`, or a
/// leading `.` component (as Unix paths are read).
pub open spec fn body_start(s: Seq<char>) -> int {
    if s.len() > 0 && s[0] == '/' {
        1
    } else if s.len() > 0 && s[0] == '.' && (s.len() == 1 || s[1] == '/') {
        1
    } else {
        0
    }
}

/// Start of the last component of `s[lo..hi]`: just after its last `/`, or
/// `lo` when it has none.
pub open spec fn comp_start(s: Seq<char>, lo: int, hi: int) -> int
    decreases hi - lo,
{
    if hi <= lo {
        lo
    } else if s[hi - 1] == '/' {
        hi
    } else {
        comp_start(s, lo, hi - 1)
    }
}

/// End of `s[lo..hi]` once its last component and the `/` before it are removed.
pub open spec fn cut_end(s: Seq<char>, lo: int, hi: int) -> int {
    let c = comp_start(s, lo, hi);
    if c > lo {
        c - 1
    } else {
        lo
    }
}

/// A component that a path reader skips: empty (between separators) or `.`.
pub open spec fn skipped_component(c: Seq<char>) -> bool {
    c.len() == 0 || c == seq!['.']
}

/// Bounds of a path's last component and of what precedes it.
pub proof fn lemma_comp_start_range(s: Seq<char>, lo: int, hi: int)
    requires
        lo <= hi,
    ensures
        lo <= comp_start(s, lo, hi) <= hi,
        lo <= cut_end(s, lo, hi),
        hi > lo ==> cut_end(s, lo, hi) < hi,
    decreases hi - lo,
{
    if hi > lo && s[hi - 1] != '/' {
        lemma_comp_start_range(s, lo, hi - 1);
    }
}

/// End of `s[..hi]` once trailing separators and `.` components are
/// dropped (never going below `lo`, the start of the components).
pub open spec fn trimmed_end(s: Seq<char>, lo: int, hi: int) -> int
    decreases hi,
{
    if hi <= lo || lo < 0 {
        hi
    } else if skipped_component(s.subrange(comp_start(s, lo, hi), hi)) {
        proof {
            lemma_comp_start_range(s, lo, hi);
        }
        trimmed_end(s, lo, cut_end(s, lo, hi))
    } else {
        hi
    }
}

/// `name` pushed onto the path `buf`: `buf`, a `/` unless `buf` is empty or
/// ends with one, then `name`.
pub open spec fn push_spec(buf: Seq<char>, name: Seq<char>) -> Seq<char> {
    if buf.len() == 0 {
        name
    } else if buf.last() == '/' {
        buf + name
    } else {
        buf + seq!['/'] + name
    }
}

/// The path with its file name extended by `.part`. The file name is the
/// last component once trailing separators and `.` components are skipped;
/// the result is the parent path (trailing separators and `.` components
/// dropped too) with `{file name}.part` pushed onto it. A path without a file
/// name (empty, a root, `.`, or ending in `..`) gets a component `.part`.
pub open spec fn part_path_spec(s: Seq<char>) -> Seq<char> {
    let b = body_start(s);
    let e = trimmed_end(s, b, s.len() as int);
    let name = s.subrange(comp_start(s, b, e), e);
    if e > b && name != ".."@ {
        push_spec(s.subrange(0, trimmed_end(s, b, cut_end(s, b, e))), name + ".part"@)
    } else {
        push_spec(s, ".part"@)
    }
}

fn body_start_exec(s: &str) -> (b: usize)
    ensures
        b == body_start(s@),
{
    let n = s.unicode_len();
    if n > 0 && s.get_char(0) == '/' {
        1
    } else if n > 0 && s.get_char(0) == '.' && (n == 1 || s.get_char(1) == '/') {
        1
    } else {
        0
    }
}

fn comp_start_exec(s: &str, lo: usize, hi: usize) -> (c: usize)
    requires
        lo <= hi <= s@.len(),
    ensures
        c == comp_start(s@, lo as int, hi as int),
        lo <= c <= hi,
{
    proof {
        lemma_comp_start_range(s@, lo as int, hi as int);
    }
    let mut i = hi;
    while i > lo && s.get_char(i - 1) != '/'
        invariant
            lo <= i <= hi <= s@.len(),
            comp_start(s@, lo as int, hi as int) == comp_start(s@, lo as int, i as int),
        decreases i,
    {
        i = i - 1;
    }
    i
}

fn cut_end_exec(s: &str, lo: usize, hi: usize) -> (c: usize)
    requires
        lo <= hi <= s@.len(),
    ensures
        c == cut_end(s@, lo as int, hi as int),
{
    let c = comp_start_exec(s, lo, hi);
    if c > lo {
        c - 1
    } else {
        lo
    }
}

fn trimmed_end_exec(s: &str, lo: usize, hi: usize) -> (e: usize)
    requires
        lo <= hi <= s@.len(),
    ensures
        e == trimmed_end(s@, lo as int, hi as int),
        lo <= e <= hi,
{
    let mut h = hi;
    let mut done = false;
    while !done && h > lo
        invariant
            lo <= h <= hi <= s@.len(),
            trimmed_end(s@, lo as int, hi as int) == (if done {
                h as int
            } else {
                trimmed_end(s@, lo as int, h as int)
            }),
        decreases h + (if done { 0int } else { 1int }),
    {
        let c = comp_start_exec(s, lo, h);
        let skip = c == h || (c + 1 == h && s.get_char(c) == '.');
        proof {
            let comp = s@.subrange(c as int, h as int);
            if c + 1 == h {
                assert(comp =~= seq![s@[c as int]]);
            }
            assert(comp.len() == h - c);
            assert(skip == skipped_component(comp)) by {
                if comp == seq!['.'] {
                    assert(comp.len() == 1);
                    assert(comp[0] == s@[c as int]);
                }
            }
            lemma_comp_start_range(s@, lo as int, h as int);
        }
        if skip {
            h = cut_end_exec(s, lo, h);
        } else {
            done = true;
        }
    }
    h
}

fn push_exec(buf: &str, name: &str) -> (p: String)
    ensures
        p@ == push_spec(buf@, name@),
{
    let n = buf.unicode_len();
    if n == 0 {
        return String::from_str(name);
    }
    let mut p = String::from_str(buf);
    if buf.get_char(n - 1) != '/' {
        proof {
            reveal_strlit("/");
        }
        p.append("/");
    }
    p.append(name);
    proof {
        assert(p@ =~= push_spec(buf@, name@));
    }
    p
}

/// Temporary name of the output while it is written: the file name with
/// `.part` appended, in the same directory (so that renaming it is atomic).
pub fn part_path_for(output_path: &str) -> (p: String)
    ensures
        p@ == part_path_spec(output_path@),
{
    let s = output_path;
    let n = s.unicode_len();
    let b = body_start_exec(s);
    let e = trimmed_end_exec(s, b, n);
    let c = comp_start_exec(s, b, e);
    let name = s.substring_char(c, e);
    proof {
        reveal_strlit("..");
        reveal_strlit(".part");
    }
    let is_parent = e - c == 2 && s.get_char(c) == '.' && s.get_char(c + 1) == '.';
    proof {
        assert(is_parent == (name@ == ".."@)) by {
            if name@ == ".."@ {
                assert(name@.len() == 2 && name@[0] == '.' && name@[1] == '.');
            }
            if is_parent {
                assert(name@ =~= ".."@);
            }
        }
    }
    if e > b && !is_parent {
        let pe = trimmed_end_exec(s, b, cut_end_exec(s, b, e));
        let mut file = String::from_str(name);
        file.append(".part");
        push_exec(s.substring_char(0, pe), file.as_str())
    } else {
        push_exec(s, ".part")
    }
}

/// The parent of a path, as `Path::parent` gives it: the path without its
/// last component (trailing separators and `.` components dropped); the
/// empty path for `.`; none for an empty path or a root.
pub open spec fn parent_spec(s: Seq<char>) -> Option<Seq<char>> {
    let b = body_start(s);
    let e = trimmed_end(s, b, s.len() as int);
    if e > b {
        Some(s.subrange(0, trimmed_end(s, b, cut_end(s, b, e))))
    } else if b == 1 && s[0] == '.' {
        Some(Seq::empty())
    } else {
        None
    }
}

/// The file name of a path, as `Path::file_name` gives it: its last
/// component, unless there is none or it is `..`.
pub open spec fn file_name_spec(s: Seq<char>) -> Option<Seq<char>> {
    let b = body_start(s);
    let e = trimmed_end(s, b, s.len() as int);
    let name = s.subrange(comp_start(s, b, e), e);
    if e > b && name != ".."@ {
        Some(name)
    } else {
        None
    }
}

/// The stem of a file name, as `Path::file_stem` gives it: the name up to
/// its last `.`, or the whole name when it has no `.` or only a leading one.
pub open spec fn stem_spec(name: Seq<char>) -> Seq<char> {
    let d = crate::frames::last_dot_index(name);
    if d <= 0 {
        name
    } else {
        name.take(d)
    }
}

/// Where the output goes and what it is named after: the chosen folder,
/// else the source's parent folder (`.` when it has none); the source's file
/// stem, else `output`.
pub open spec fn output_location_spec(source_path: Seq<char>, output_dir: Option<Seq<char>>) -> (
    Seq<char>,
    Seq<char>,
) {
    let dir = match output_dir {
        Some(d) => d,
        None => match parent_spec(source_path) {
            Some(p) => p,
            None => "."@,
        },
    };
    let stem = match file_name_spec(source_path) {
        Some(n) => stem_spec(n),
        None => "output"@,
    };
    (dir, stem)
}

fn last_dot_exec(s: &str) -> (r: usize)
    ensures
        r as int - 1 == crate::frames::last_dot_index(s@),
        r <= s@.len(),
{
    let n = s.unicode_len();
    let mut i = n;
    proof {
        assert(s@.take(n as int) =~= s@);
    }
    while i > 0 && s.get_char(i - 1) != '.'
        invariant
            i <= n == s@.len(),
            crate::frames::last_dot_index(s@) == crate::frames::last_dot_index(s@.take(i as int)),
        decreases i,
    {
        proof {
            assert(s@.take(i as int).drop_last() =~= s@.take(i - 1));
        }
        i = i - 1;
    }
    proof {
        if i > 0 {
            assert(s@.take(i as int).last() == '.');
        } else {
            assert(s@.take(0) =~= Seq::<char>::empty());
        }
    }
    i
}

/// The output folder and the stem the output file is named after (see
/// [`output_location_spec`]).
pub fn output_location(source_path: &str, output_dir: &Option<String>) -> (r: (String, String))
    ensures
        (r.0@, r.1@) == output_location_spec(
            source_path@,
            match output_dir {
                Some(d) => Some(d@),
                None => None,
            },
        ),
{
    let s = source_path;
    let n = s.unicode_len();
    let b = body_start_exec(s);
    let e = trimmed_end_exec(s, b, n);
    let c = comp_start_exec(s, b, e);
    proof {
        reveal_strlit("..");
        reveal_strlit(".");
        reveal_strlit("output");
    }
    let is_parent = e - c == 2 && s.get_char(c) == '.' && s.get_char(c + 1) == '.';
    proof {
        let name = s@.subrange(c as int, e as int);
        assert(is_parent == (name == ".."@)) by {
            if name == ".."@ {
                assert(name.len() == 2 && name[0] == '.' && name[1] == '.');
            }
            if is_parent {
                assert(name =~= ".."@);
            }
        }
    }
    let dir = match output_dir {
        Some(d) => d.clone(),
        None => if e > b {
            let pe = trimmed_end_exec(s, b, cut_end_exec(s, b, e));
            String::from_str(s.substring_char(0, pe))
        } else if b == 1 && s.get_char(0) == '.' {
            String::new()
        } else {
            String::from_str(".")
        },
    };
    let stem = if e > b && !is_parent {
        let name = s.substring_char(c, e);
        let d = last_dot_exec(name);
        if d <= 1 {
            String::from_str(name)
        } else {
            String::from_str(name.substring_char(0, d - 1))
        }
    } else {
        String::from_str("output")
    };
    (dir, stem)
}

/// Directory of segment `index` of a job: `{temp_root}/seg{index:04}`.
pub open spec fn segment_dir_name(index: nat) -> Seq<char> {
    "seg"@ + padded_decimal(index, 4)
}

/// Decimal rendering of `n`, left-padded with zeros to at least `w` digits.
pub open spec fn padded_decimal(n: nat, w: nat) -> Seq<char> {
    let d = decimal(n);
    if d.len() >= w {
        d
    } else {
        Seq::new((w - d.len()) as nat, |i: int| '0') + d
    }
}

/// Path of the directory of segment `index` under the job's temporary root.
pub fn segment_dir(temp_root: &str, index: u32) -> (p: String)
    ensures
        p@ == join_spec(temp_root@, segment_dir_name(index as nat)),
{
    let mut name = String::from_str("seg");
    let digits = crate::text::decimal_string(index as u128);
    let len = digits.as_str().unicode_len();
    let ghost zeros_start = name@;
    let mut k = len;
    while k < 4
        invariant
            len == decimal(index as nat).len(),
            len <= k <= 4 || (k == len && len >= 4),
            name@ == "seg"@ + Seq::new((k - len) as nat, |i: int| '0'),
        decreases 4 - k,
    {
        proof {
            reveal_strlit("0");
        }
        name.append("0");
        proof {
            assert(name@ =~= "seg"@ + Seq::new((k + 1 - len) as nat, |i: int| '0'));
        }
        k = k + 1;
    }
    name.append(digits.as_str());
    proof {
        if len >= 4 {
            assert(Seq::new((k - len) as nat, |i: int| '0') =~= Seq::<char>::empty());
        }
        assert(name@ =~= segment_dir_name(index as nat));
    }
    join_path(temp_root, name.as_str())
}

/// Directory to remove when a stage's input is no longer needed: `None`
/// when intermediate files are kept.
pub open spec fn removal(dir: Seq<char>, keep_intermediate: bool) -> Option<Seq<char>> {
    if keep_intermediate {
        None
    } else {
        Some(dir)
    }
}

/// The text of an optional string.
pub open spec fn opt_view(p: Option<String>) -> Option<Seq<char>> {
    match p {
        Some(s) => Some(s@),
        None => None,
    }
}

/// The decoded frames `{seg_dir}/in`, to remove (if present) unless intermediates are kept.
pub fn remove_in_dir(seg_dir: &str, keep_intermediate: bool) -> (r: Option<String>)
    ensures
        opt_view(r) == removal(join_spec(seg_dir@, "in"@), keep_intermediate),
{
    if keep_intermediate {
        return None;
    }
    Some(join_path(seg_dir, "in"))
}

/// The upscaled frames `{seg_dir}/up`, to remove (if present) unless intermediates are kept.
pub fn remove_up_dir(seg_dir: &str, keep_intermediate: bool) -> (r: Option<String>)
    ensures
        opt_view(r) == removal(join_spec(seg_dir@, "up"@), keep_intermediate),
{
    if keep_intermediate {
        return None;
    }
    Some(join_path(seg_dir, "up"))
}

/// The interpolated frames `{seg_dir}/rife`, to remove (if present) unless intermediates are kept.
pub fn remove_rife_dir(seg_dir: &str, keep_intermediate: bool) -> (r: Option<String>)
    ensures
        opt_view(r) == removal(join_spec(seg_dir@, "rife"@), keep_intermediate),
{
    if keep_intermediate {
        return None;
    }
    Some(join_path(seg_dir, "rife"))
}

/// The whole temporary root of the job, to remove (if present) unless
/// intermediates are kept.
pub fn remove_job_temp(temp_root: &str, keep_intermediate: bool) -> (r: Option<String>)
    ensures
        opt_view(r) == removal(temp_root@, keep_intermediate),
{
    if keep_intermediate {
        return None;
    }
    Some(String::from_str(temp_root))
}

} // verus!
