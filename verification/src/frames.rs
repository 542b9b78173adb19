//! Counting the frames a stage produced, and reading ffmpeg's progress lines.

use vstd::prelude::*;
use crate::paths::opt_view;
use crate::text::{chars_of, parse_u64_range, parse_u64_spec};

verus! {

/// The digit group of the leftmost match of the regular expression
/// `frame=\s*(\d+)` in `line` (the `regex` crate's semantics), if any.
pub uninterp spec fn frame_counter_capture(line: Seq<char>) -> Option<Seq<char>>;

/// Runs `regex::Regex::new(r"frame=\s*(\d+)")` and `Regex::captures` on
/// `line` and returns the text of group 1. The contract only ties the result
/// to the line through [`frame_counter_capture`]; what the regular
/// expression matches is not restated.
#[verifier::external_body]
fn capture_frame_counter(line: &str) -> (r: Option<String>)
    ensures
        opt_view(r) == frame_counter_capture(line@),
{
    match regex::Regex::new(r"frame=\s*(\d+)") {
        Ok(re) => match re.captures(line) {
            Some(caps) => Some(caps[1].to_string()),
            None => None,
        },
        Err(_) => None,
    }
}

/// Frames done according to a captured frame counter: the counter read as
/// a `u64`, capped at `frames_total`; `None` without a counter or when it does
/// not parse.
pub open spec fn progress_from_capture_spec(capture: Option<Seq<char>>, frames_total: u64) -> Option<
    u64,
> {
    match capture {
        Some(d) => match parse_u64_spec(d) {
            Some(n) => Some(if n < frames_total {
                n
            } else {
                frames_total
            }),
            None => None,
        },
        None => None,
    }
}

/// Frames done according to a captured frame counter (see
/// [`progress_from_capture_spec`]).
pub fn progress_from_capture(capture: Option<&str>, frames_total: u64) -> (r: Option<u64>)
    ensures
        r == progress_from_capture_spec(crate::probe::opt_text(capture), frames_total),
{
    match capture {
        Some(d) => {
            let v = chars_of(d);
            proof {
                assert(v@.subrange(0, v@.len() as int) =~= d@);
            }
            match parse_u64_range(&v, 0, v.len()) {
                Some(n) => Some(
                    if n < frames_total {
                        n
                    } else {
                        frames_total
                    },
                ),
                None => None,
            }
        },
        None => None,
    }
}

/// Frames done according to one stderr line of ffmpeg (`frame=  123 fps=...`),
/// capped at `frames_total`; `None` for a line without a frame counter.
pub fn parse_frame_progress(line: &str, frames_total: u64) -> (r: Option<u64>)
    ensures
        r == progress_from_capture_spec(frame_counter_capture(line@), frames_total),
{
    let cap = capture_frame_counter(line);
    match &cap {
        Some(s) => progress_from_capture(Some(s.as_str()), frames_total),
        None => progress_from_capture(None, frames_total),
    }
}

/// Index of the last `.` in `s`, or -1.
pub open spec fn last_dot_index(s: Seq<char>) -> int
    decreases s.len(),
{
    if s.len() == 0 {
        -1
    } else if s.last() == '.' {
        s.len() - 1
    } else {
        last_dot_index(s.drop_last())
    }
}

/// Extension of a file name as `Path::extension` gives it: the text after
/// the last dot, unless the dot starts the name or the name is `..`.
pub open spec fn file_extension(name: Seq<char>) -> Option<Seq<char>> {
    if name == ".."@ {
        None
    } else {
        let i = last_dot_index(name);
        if i <= 0 {
            None
        } else {
            Some(name.skip(i + 1))
        }
    }
}

/// Code point of the ASCII lower case of a character.
pub open spec fn ascii_lower(c: char) -> u32 {
    if 65 <= (c as u32) <= 90 {
        ((c as u32) + 32) as u32
    } else {
        c as u32
    }
}

/// Equality ignoring ASCII case.
pub open spec fn eq_ignore_ascii_case(a: Seq<char>, b: Seq<char>) -> bool {
    a.len() == b.len() && forall|i: int| 0 <= i < a.len() ==> ascii_lower(a[i]) == ascii_lower(b[i])
}

/// A file name with the extension `png` in any ASCII case.
pub open spec fn is_png_name(name: Seq<char>) -> bool {
    match file_extension(name) {
        Some(e) => eq_ignore_ascii_case(e, "png"@),
        None => false,
    }
}

/// Number of PNG file names in `names`.
pub open spec fn png_count(names: Seq<String>) -> nat
    decreases names.len(),
{
    if names.len() == 0 {
        0
    } else {
        png_count(names.drop_last()) + (if is_png_name(names.last()@) {
            1nat
        } else {
            0
        })
    }
}

/// Whether `name` has the extension `png` (any ASCII case).
pub fn is_png_file_name(name: &str) -> (b: bool)
    ensures
        b == is_png_name(name@),
{
    let v = chars_of(name);
    let n = v.len();
    proof {
        reveal_strlit("..");
        reveal_strlit("png");
    }
    if n == 2 && v[0] == '.' && v[1] == '.' {
        proof {
            assert(name@ =~= ".."@);
        }
        return false;
    }
    proof {
        if name@ == ".."@ {
            assert(name@[0] == '.' && name@[1] == '.');
        }
    }
    let mut i = n;
    proof {
        assert(v@.take(n as int) =~= v@);
    }
    while i > 0 && v[i - 1] != '.'
        invariant
            i <= n == v@.len(),
            v@ == name@,
            last_dot_index(name@) == last_dot_index(v@.take(i as int)),
        decreases i,
    {
        proof {
            assert(v@.take(i as int).drop_last() =~= v@.take(i - 1));
        }
        i = i - 1;
    }
    proof {
        if i > 0 {
            assert(v@.take(i as int).last() == '.');
        } else {
            assert(v@.take(0) =~= Seq::<char>::empty());
        }
    }
    if i <= 1 {
        return false;
    }
    let dot = i - 1;
    proof {
        assert(last_dot_index(name@) == dot);
        assert(file_extension(name@) == Some(name@.skip(dot + 1)));
        assert(name@.skip(dot + 1).len() == n - dot - 1);
    }
    if n - dot - 1 != 3 {
        return false;
    }
    let a = v[dot + 1] as u32;
    let b = v[dot + 2] as u32;
    let c = v[dot + 3] as u32;
    let r = (a == 112 || a == 80) && (b == 110 || b == 78) && (c == 103 || c == 71);
    proof {
        let e = name@.skip(dot + 1);
        assert(e[0] == v@[dot + 1] && e[1] == v@[dot + 2] && e[2] == v@[dot + 3]);
        assert("png"@[0] == 'p' && "png"@[1] == 'n' && "png"@[2] == 'g');
        if r {
            assert(eq_ignore_ascii_case(e, "png"@));
        }
        if eq_ignore_ascii_case(e, "png"@) {
            assert(ascii_lower(e[0]) == ascii_lower("png"@[0]));
            assert(ascii_lower(e[1]) == ascii_lower("png"@[1]));
            assert(ascii_lower(e[2]) == ascii_lower("png"@[2]));
        }
    }
    r
}

/// Number of PNG files among the names of a directory's entries.
pub fn count_pngs_now(names: &Vec<String>) -> (n: u64)
    ensures
        n == png_count(names@),
{
    let mut n: u64 = 0;
    let mut i: usize = 0;
    while i < names.len()
        invariant
            i <= names@.len(),
            n == png_count(names@.take(i as int)),
            n <= i,
        decreases names@.len() - i,
    {
        proof {
            assert(names@.take(i + 1).drop_last() =~= names@.take(i as int));
        }
        if is_png_file_name(names[i].as_str()) {
            n = n + 1;
        }
        i = i + 1;
    }
    proof {
        assert(names@.take(names@.len() as int) =~= names@);
    }
    n
}

} // verus!
