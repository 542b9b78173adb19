//! Joining the encoded segments into the output file with the source's
//! audio and subtitles (ffmpeg concat demuxer).

use vstd::prelude::*;
use crate::args::{texts, push_arg};
use crate::config::Container;
use crate::error::{AppError, error_message};

verus! {

/// One character of a path inside a single-quoted token: a quote is
/// written as `'\''` (close, escaped quote, reopen).
pub open spec fn escape_char(c: char) -> Seq<char> {
    if c == '\'' {
        seq!['\'', '\\', '\'', '\'']
    } else {
        seq![c]
    }
}

/// A path with every single quote escaped for a single-quoted token.
pub open spec fn escape_quotes(s: Seq<char>) -> Seq<char>
    decreases s.len(),
{
    if s.len() == 0 {
        Seq::empty()
    } else {
        escape_char(s[0]) + escape_quotes(s.drop_first())
    }
}

/// The line of the concat list for one segment file: `file '{path}'`.
pub open spec fn concat_line(path: Seq<char>) -> Seq<char> {
    "file '"@ + escape_quotes(path) + "'\n"@
}

/// The whole concat list, one line per segment file in order.
pub open spec fn concat_content(paths: Seq<Seq<char>>) -> Seq<char>
    decreases paths.len(),
{
    if paths.len() == 0 {
        Seq::empty()
    } else {
        concat_content(paths.drop_last()) + concat_line(paths.last())
    }
}

proof fn lemma_escape_prefix(s: Seq<char>, i: int)
    requires
        0 <= i < s.len(),
    ensures
        escape_quotes(s.take(i + 1)) == escape_quotes(s.take(i)) + escape_char(s[i]),
    decreases i,
{
    if i == 0 {
        assert(s.take(1).drop_first() =~= Seq::<char>::empty());
        assert(s.take(0) =~= Seq::<char>::empty());
        assert(escape_quotes(s.take(1).drop_first()) == Seq::<char>::empty());
        assert(s.take(1)[0] == s[0]);
        assert(escape_quotes(s.take(1)) =~= escape_char(s[0]));
    } else {
        let t = s.drop_first();
        lemma_escape_prefix(t, i - 1);
        assert(s.take(i + 1).drop_first() =~= t.take(i));
        assert(s.take(i).drop_first() =~= t.take(i - 1));
        assert(escape_quotes(s.take(i + 1)) =~= escape_quotes(s.take(i)) + escape_char(s[i]));
    }
}

/// Appends `path` with its single quotes escaped.
fn push_escaped(out: &mut String, path: &str)
    ensures
        final(out)@ == old(out)@ + escape_quotes(path@),
{
    let n = path.unicode_len();
    let mut i: usize = 0;
    let ghost start = out@;
    proof {
        reveal_strlit("'\\''");
        assert(path@.take(0) =~= Seq::<char>::empty());
    }
    while i < n
        invariant
            n == path@.len(),
            i <= n,
            out@ == start + escape_quotes(path@.take(i as int)),
        decreases n - i,
    {
        let c = path.get_char(i);
        proof {
            lemma_escape_prefix(path@, i as int);
            reveal_strlit("'\\''");
        }
        if c == '\'' {
            out.append("'\\''");
        } else {
            out.append(path.substring_char(i, i + 1));
            proof {
                assert(path@.subrange(i as int, i + 1) =~= seq![c]);
            }
        }
        proof {
            assert(out@ =~= start + escape_quotes(path@.take(i + 1)));
        }
        i = i + 1;
    }
    proof {
        assert(path@.take(n as int) =~= path@);
    }
}

/// Text of the concat list for the segment files `paths`, in order.
pub fn concat_file_content(paths: &Vec<String>) -> (c: String)
    ensures
        c@ == concat_content(paths@.map_values(|p: String| p@)),
{
    let mut c = String::new();
    let mut i: usize = 0;
    proof {
        assert(paths@.map_values(|p: String| p@).take(0) =~= Seq::<Seq<char>>::empty());
    }
    while i < paths.len()
        invariant
            i <= paths@.len(),
            c@ == concat_content(paths@.map_values(|p: String| p@).take(i as int)),
        decreases paths@.len() - i,
    {
        let ghost all = paths@.map_values(|p: String| p@);
        c.append("file '");
        push_escaped(&mut c, paths[i].as_str());
        c.append("'\n");
        proof {
            assert(all.take(i + 1).drop_last() =~= all.take(i as int));
            assert(all.take(i + 1).last() == paths@[i as int]@);
            assert(c@ =~= concat_content(all.take(i + 1)));
        }
        i = i + 1;
    }
    proof {
        assert(paths@.map_values(|p: String| p@).take(paths@.len() as int) =~= paths@.map_values(
            |p: String| p@,
        ));
    }
    c
}

/// How ffmpeg's tokenizer reads a token: outside quotes a backslash takes the
/// next character literally and a quote opens a quoted run; inside a quoted
/// run every character up to the closing quote is literal.
pub open spec fn unquote(s: Seq<char>, quoted: bool) -> Seq<char>
    decreases s.len(),
{
    if s.len() == 0 {
        Seq::empty()
    } else if quoted {
        if s[0] == '\'' {
            unquote(s.drop_first(), false)
        } else {
            seq![s[0]] + unquote(s.drop_first(), true)
        }
    } else {
        if s[0] == '\'' {
            unquote(s.drop_first(), true)
        } else if s[0] == '\\' && s.len() > 1 {
            seq![s[1]] + unquote(s.skip(2), false)
        } else {
            seq![s[0]] + unquote(s.drop_first(), false)
        }
    }
}

proof fn lemma_unquote_escaped(p: Seq<char>)
    ensures
        unquote(escape_quotes(p) + seq!['\''], true) == p,
    decreases p.len(),
{
    let q = seq!['\''];
    if p.len() == 0 {
        assert(escape_quotes(p) + q =~= q);
        assert(q.drop_first() =~= Seq::<char>::empty());
        assert(unquote(q.drop_first(), false) == Seq::<char>::empty());
        assert(unquote(q, true) == unquote(q.drop_first(), false));
        assert(p =~= Seq::<char>::empty());
    } else {
        let rest = p.drop_first();
        lemma_unquote_escaped(rest);
        let tail = escape_quotes(rest) + q;
        if p[0] == '\'' {
            let s = escape_quotes(p) + q;
            assert(s =~= seq!['\'', '\\', '\'', '\''] + tail);
            let s1 = s.drop_first();
            assert(s1 =~= seq!['\\', '\'', '\''] + tail);
            assert(s1.skip(2) =~= seq!['\''] + tail);
            assert(s1.skip(2).drop_first() =~= tail);
            assert(unquote(s, true) == unquote(s1, false));
            assert(unquote(s1, false) == seq!['\''] + unquote(s1.skip(2), false));
            assert(unquote(s1.skip(2), false) == unquote(tail, true));
            assert(unquote(s, true) =~= seq!['\''] + rest);
        } else {
            let s = escape_quotes(p) + q;
            assert(s =~= seq![p[0]] + tail);
            assert(s.drop_first() =~= tail);
            assert(unquote(s, true) =~= seq![p[0]] + rest);
        }
        assert(p =~= seq![p[0]] + rest);
    }
}

/// Quoting round-trips: the single-quoted token written for a path reads
/// back, under ffmpeg's quoting rules, as exactly that path.
pub proof fn law_concat_quoting_round_trips(path: Seq<char>)
    ensures
        unquote(seq!['\''] + escape_quotes(path) + seq!['\''], false) == path,
{
    let s = seq!['\''] + escape_quotes(path) + seq!['\''];
    assert(s.drop_first() =~= escape_quotes(path) + seq!['\'']);
    lemma_unquote_escaped(path);
}

/// Arguments of the ffmpeg run that concatenates the list `concat_txt` and
/// maps the video of the segments with the audio (and, if asked, the
/// subtitles) of the source, copying all streams; subtitles become
/// `mov_text` in mp4. The muxer is named explicitly because the output has
/// a `.part` name.
pub open spec fn concat_args_spec(
    concat_txt: Seq<char>,
    source_path: Seq<char>,
    container: Container,
    output_path: Seq<char>,
    include_subs: bool,
) -> Seq<Seq<char>> {
    seq![
        "-v"@,
        "error"@,
        "-y"@,
        "-f"@,
        "concat"@,
        "-safe"@,
        "0"@,
        "-i"@,
        concat_txt,
        "-i"@,
        source_path,
        "-map"@,
        "0:v:0"@,
        "-map"@,
        "1:a?"@,
    ] + (if include_subs {
        seq!["-map"@, "1:s?"@]
    } else {
        Seq::empty()
    }) + seq!["-c"@, "copy"@] + (if include_subs && container == Container::Mp4 {
        seq!["-c:s"@, "mov_text"@]
    } else {
        Seq::empty()
    }) + seq![
        "-f"@,
        (match container {
            Container::Mkv => "matroska"@,
            Container::Mp4 => "mp4"@,
        }),
        output_path,
    ]
}

/// Subtitles, when included, are mapped from the source into every
/// container (`-map 1:s?` right after the audio map); only their conversion
/// to `mov_text` depends on the container (mp4). Without them no subtitle
/// stream is mapped. The muxer matches the container and the output path
/// comes last.
pub proof fn law_concat_subtitles_in_every_container(
    concat_txt: Seq<char>,
    source_path: Seq<char>,
    container: Container,
    output_path: Seq<char>,
    include_subs: bool,
)
    ensures
        ({
            let a = concat_args_spec(concat_txt, source_path, container, output_path, include_subs);
            &&& a[8] == concat_txt && a[10] == source_path
            &&& a[13] == "-map"@ && a[14] == "1:a?"@
            &&& include_subs ==> a[15] == "-map"@ && a[16] == "1:s?"@ && a[17] == "-c"@
                && a[18] == "copy"@
            &&& !include_subs ==> a[15] == "-c"@ && a[16] == "copy"@
            &&& (include_subs && container == Container::Mp4) ==> a[19] == "-c:s"@ && a[20]
                == "mov_text"@ && a.len() == 24
            &&& (include_subs && container == Container::Mkv) ==> a.len() == 22
            &&& !include_subs ==> a.len() == 20
            &&& a[a.len() - 3] == "-f"@
            &&& a[a.len() - 2] == (match container {
                Container::Mkv => "matroska"@,
                Container::Mp4 => "mp4"@,
            })
            &&& a[a.len() - 1] == output_path
        }),
{
}

pub fn concat_args(
    concat_txt: &str,
    source_path: &str,
    container: Container,
    output_path: &str,
    include_subs: bool,
) -> (v: Vec<String>)
    ensures
        texts(v@) == concat_args_spec(
            concat_txt@,
            source_path@,
            container,
            output_path@,
            include_subs,
        ),
{
    let mut v = Vec::new();
    push_arg(&mut v, "-v");
    push_arg(&mut v, "error");
    push_arg(&mut v, "-y");
    push_arg(&mut v, "-f");
    push_arg(&mut v, "concat");
    push_arg(&mut v, "-safe");
    push_arg(&mut v, "0");
    push_arg(&mut v, "-i");
    push_arg(&mut v, concat_txt);
    push_arg(&mut v, "-i");
    push_arg(&mut v, source_path);
    push_arg(&mut v, "-map");
    push_arg(&mut v, "0:v:0");
    push_arg(&mut v, "-map");
    push_arg(&mut v, "1:a?");
    if include_subs {
        push_arg(&mut v, "-map");
        push_arg(&mut v, "1:s?");
    }
    push_arg(&mut v, "-c");
    push_arg(&mut v, "copy");
    if include_subs && container == Container::Mp4 {
        push_arg(&mut v, "-c:s");
        push_arg(&mut v, "mov_text");
    }
    push_arg(&mut v, "-f");
    match container {
        Container::Mkv => push_arg(&mut v, "matroska"),
        Container::Mp4 => push_arg(&mut v, "mp4"),
    }
    push_arg(&mut v, output_path);
    proof {
        assert(texts(v@) =~= concat_args_spec(
            concat_txt@,
            source_path@,
            container,
            output_path@,
            include_subs,
        ));
    }
    v
}

/// Warning given when the output had to be made without subtitles.
pub open spec fn subtitle_warning(e: AppError) -> Seq<char> {
    "не удалось смультиплексировать субтитры (несовместимый формат для контейнера): "@
        + error_message(e) + "; файл собран без субтитров"@
}

/// Decision after a failed concatenation: a cancellation stays a
/// cancellation; another error with subtitles mapped gives a warning (and
/// a second attempt without subtitles); without subtitles the error stands.
pub fn after_concat_failure(err: AppError, with_subs: bool) -> (r: Result<String, AppError>)
    ensures
        err is Cancelled ==> r matches Err(AppError::Cancelled),
        !(err is Cancelled) && with_subs ==> (r matches Ok(w) && w@ == subtitle_warning(err)),
        !(err is Cancelled) && !with_subs ==> r == Err::<String, AppError>(err),
{
    match err {
        AppError::Cancelled => Err(AppError::Cancelled),
        e => {
            if with_subs {
                let mut w = String::from_str(
                    "не удалось смультиплексировать субтитры (несовместимый формат для контейнера): ",
                );
                let m = e.message();
                w.append(m.as_str());
                w.append("; файл собран без субтитров");
                Ok(w)
            } else {
                Err(e)
            }
        },
    }
}

} // verus!
