//! Transcoding rules: which external commands turn one audio format into
//! another, with `$FILE$` standing for the input file; the processes
//! themselves are started by the caller.
use vstd::prelude::*;
use crate::plugins::concat_str;
use crate::text::{
    ascii_lower_seq, chars_of, find_from, first_occurrence_from, is_ascii_seq, lemma_first_occurrence_from, occurs_at,
    push_word, str_eq, string_from_chars, strings_view, to_lowercase, unicode_lowercase,
};

verus! {

/// `flac -dcs $FILE$`: decode FLAC to standard output.
pub open spec fn flac_decode() -> Seq<Seq<char>> {
    seq!["flac"@, "-dcs"@, "$FILE$"@]
}

/// `lame -b 320 -`: encode standard input to MP3.
pub open spec fn lame_from_stdin() -> Seq<Seq<char>> {
    seq!["lame"@, "-b"@, "320"@, "-"@]
}

/// `lame -b 320 $FILE$`: encode the file to MP3.
pub open spec fn lame_from_file() -> Seq<Seq<char>> {
    seq!["lame"@, "-b"@, "320"@, "$FILE$"@]
}

/// `ffmpeg -i $FILE$ -f mp3 -b:a 320k -`.
pub open spec fn ffmpeg_to_mp3() -> Seq<Seq<char>> {
    seq!["ffmpeg"@, "-i"@, "$FILE$"@, "-f"@, "mp3"@, "-b:a"@, "320k"@, "-"@]
}

/// `ffmpeg -i $FILE$ -f flac -`.
pub open spec fn ffmpeg_to_flac() -> Seq<Seq<char>> {
    seq!["ffmpeg"@, "-i"@, "$FILE$"@, "-f"@, "flac"@, "-"@]
}

/// `ffmpeg -i $FILE$ -f <fmt> -sample_fmt s32 -ar 88200 -`: DSD to 88.2 kHz PCM.
pub open spec fn ffmpeg_dsd_to(fmt: Seq<char>) -> Seq<Seq<char>> {
    seq!["ffmpeg"@, "-i"@, "$FILE$"@, "-f"@, fmt, "-sample_fmt"@, "s32"@, "-ar"@, "88200"@, "-"@]
}

/// `cat $FILE$`: pass the file through unchanged.
pub open spec fn cat_file() -> Seq<Seq<char>> {
    seq!["cat"@, "$FILE$"@]
}

/// The formats that can be passed through unchanged.
pub open spec fn is_known_format(f: Seq<char>) -> bool {
    ||| f == "mp3"@
    ||| f == "flac"@
    ||| f == "wav"@
    ||| f == "aiff"@
    ||| f == "m4a"@
    ||| f == "aac"@
    ||| f == "ogg"@
    ||| f == "opus"@
    ||| f == "wma"@
    ||| f == "ape"@
    ||| f == "wv"@
    ||| f == "dsf"@
    ||| f == "dff"@
}

/// The command pipeline for turning `from` into `to`, if there is a rule.
pub open spec fn transcode_rule(from: Seq<char>, to: Seq<char>) -> Option<Seq<Seq<Seq<char>>>> {
    if from == "flac"@ && to == "mp3"@ {
        Some(seq![flac_decode(), lame_from_stdin()])
    } else if from == "flac"@ && to == "wav"@ {
        Some(seq![flac_decode()])
    } else if from == "wav"@ && to == "mp3"@ {
        Some(seq![lame_from_file()])
    } else if from == "aiff"@ && to == "mp3"@ {
        Some(seq![ffmpeg_to_mp3()])
    } else if from == "aiff"@ && to == "flac"@ {
        Some(seq![ffmpeg_to_flac()])
    } else if (from == "m4a"@ || from == "aac"@) && to == "mp3"@ {
        Some(seq![ffmpeg_to_mp3()])
    } else if from == "ogg"@ && to == "mp3"@ {
        Some(seq![ffmpeg_to_mp3()])
    } else if from == "opus"@ && to == "mp3"@ {
        Some(seq![ffmpeg_to_mp3()])
    } else if from == "wma"@ && to == "mp3"@ {
        Some(seq![ffmpeg_to_mp3()])
    } else if from == "ape"@ && to == "mp3"@ {
        Some(seq![ffmpeg_to_mp3()])
    } else if from == "ape"@ && to == "flac"@ {
        Some(seq![ffmpeg_to_flac()])
    } else if from == "wv"@ && to == "mp3"@ {
        Some(seq![ffmpeg_to_mp3()])
    } else if from == "wv"@ && to == "flac"@ {
        Some(seq![ffmpeg_to_flac()])
    } else if from == "dsf"@ && to == "flac"@ {
        Some(seq![ffmpeg_dsd_to("flac"@)])
    } else if from == "dsf"@ && to == "wav"@ {
        Some(seq![ffmpeg_dsd_to("wav"@)])
    } else if from == "dff"@ && to == "flac"@ {
        Some(seq![ffmpeg_dsd_to("flac"@)])
    } else if from == "dff"@ && to == "wav"@ {
        Some(seq![ffmpeg_dsd_to("wav"@)])
    } else if from == to && is_known_format(from) {
        Some(seq![cat_file()])
    } else {
        None
    }
}

/// The commands of a pipeline, as character sequences.
pub open spec fn commands_view(v: Seq<Vec<String>>) -> Seq<Seq<Seq<char>>> {
    v.map_values(|c: Vec<String>| strings_view(c@))
}

/// No rule turns one format into the other.
#[derive(Debug)]
pub struct TranscodeError {
    pub from: String,
    pub to: String,
}

impl TranscodeError {
    /// `No transcoding rule for <from> -> <to>`.
    pub fn message(&self) -> (s: String)
        ensures
            s@ == "No transcoding rule for "@ + self.from@ + " -> "@ + self.to@,
    {
        let a = concat_str("No transcoding rule for ", self.from.as_str());
        let b = concat_str(a.as_str(), " -> ");
        concat_str(b.as_str(), self.to.as_str())
    }
}

fn words2(a: &str, b: &str) -> (r: Vec<String>)
    ensures
        strings_view(r@) == seq![a@, b@],
{
    let mut v: Vec<String> = Vec::new();
    push_word(&mut v, a);
    push_word(&mut v, b);
    assert(strings_view(v@) =~= seq![a@, b@]);
    v
}

fn cmd_flac_decode() -> (r: Vec<String>)
    ensures
        strings_view(r@) == flac_decode(),
{
    let mut v = words2("flac", "-dcs");
    push_word(&mut v, "$FILE$");
    assert(strings_view(v@) =~= flac_decode());
    v
}

fn cmd_lame(input: &str) -> (r: Vec<String>)
    ensures
        strings_view(r@) == seq!["lame"@, "-b"@, "320"@, input@],
{
    let mut v = words2("lame", "-b");
    push_word(&mut v, "320");
    push_word(&mut v, input);
    assert(strings_view(v@) =~= seq!["lame"@, "-b"@, "320"@, input@]);
    v
}

/// `ffmpeg -i $FILE$ -f <fmt>`, the start of every ffmpeg command here.
fn cmd_ffmpeg_head(fmt: &str) -> (r: Vec<String>)
    ensures
        strings_view(r@) == seq!["ffmpeg"@, "-i"@, "$FILE$"@, "-f"@, fmt@],
{
    let mut v = words2("ffmpeg", "-i");
    push_word(&mut v, "$FILE$");
    push_word(&mut v, "-f");
    push_word(&mut v, fmt);
    assert(strings_view(v@) =~= seq!["ffmpeg"@, "-i"@, "$FILE$"@, "-f"@, fmt@]);
    v
}

fn cmd_ffmpeg_mp3() -> (r: Vec<String>)
    ensures
        strings_view(r@) == ffmpeg_to_mp3(),
{
    let mut v = cmd_ffmpeg_head("mp3");
    push_word(&mut v, "-b:a");
    push_word(&mut v, "320k");
    push_word(&mut v, "-");
    assert(strings_view(v@) =~= ffmpeg_to_mp3());
    v
}

fn cmd_ffmpeg_flac() -> (r: Vec<String>)
    ensures
        strings_view(r@) == ffmpeg_to_flac(),
{
    let mut v = cmd_ffmpeg_head("flac");
    push_word(&mut v, "-");
    assert(strings_view(v@) =~= ffmpeg_to_flac());
    v
}

fn cmd_ffmpeg_dsd(fmt: &str) -> (r: Vec<String>)
    ensures
        strings_view(r@) == ffmpeg_dsd_to(fmt@),
{
    let mut v = cmd_ffmpeg_head(fmt);
    push_word(&mut v, "-sample_fmt");
    push_word(&mut v, "s32");
    push_word(&mut v, "-ar");
    push_word(&mut v, "88200");
    push_word(&mut v, "-");
    assert(strings_view(v@) =~= ffmpeg_dsd_to(fmt@));
    v
}

fn one(c: Vec<String>) -> (r: Vec<Vec<String>>)
    ensures
        commands_view(r@) == seq![strings_view(c@)],
{
    let mut v: Vec<Vec<String>> = Vec::new();
    v.push(c);
    assert(commands_view(v@) =~= seq![strings_view(c@)]);
    v
}

fn is_pair(from: &str, to: &str, a: &str, b: &str) -> (r: bool)
    ensures
        r == (from@ == a@ && to@ == b@),
{
    str_eq(from, a) && str_eq(to, b)
}

fn known_format(f: &str) -> (r: bool)
    ensures
        r == is_known_format(f@),
{
    str_eq(f, "mp3") || str_eq(f, "flac") || str_eq(f, "wav") || str_eq(f, "aiff") || str_eq(f, "m4a") || str_eq(
        f,
        "aac",
    ) || str_eq(f, "ogg") || str_eq(f, "opus") || str_eq(f, "wma") || str_eq(f, "ape") || str_eq(f, "wv")
        || str_eq(f, "dsf") || str_eq(f, "dff")
}

/// The command pipeline for a format pair, or the error naming the pair.
pub fn get_transcode_commands(from: &str, to: &str) -> (r: Result<Vec<Vec<String>>, TranscodeError>)
    ensures
        match r {
            Ok(cmds) => transcode_rule(from@, to@) == Some(commands_view(cmds@)),
            Err(e) => transcode_rule(from@, to@) is None && e.from@ == from@ && e.to@ == to@,
        },
{
    if is_pair(from, to, "flac", "mp3") {
        let a = cmd_flac_decode();
        let b = cmd_lame("-");
        let mut v: Vec<Vec<String>> = Vec::new();
        v.push(a);
        v.push(b);
        assert(v@[0]@ == a@);
        assert(v@[1]@ == b@);
        assert(commands_view(v@) =~= seq![flac_decode(), lame_from_stdin()]);
        Ok(v)
    } else if is_pair(from, to, "flac", "wav") {
        Ok(one(cmd_flac_decode()))
    } else if is_pair(from, to, "wav", "mp3") {
        Ok(one(cmd_lame("$FILE$")))
    } else if is_pair(from, to, "aiff", "mp3") {
        Ok(one(cmd_ffmpeg_mp3()))
    } else if is_pair(from, to, "aiff", "flac") {
        Ok(one(cmd_ffmpeg_flac()))
    } else if (str_eq(from, "m4a") || str_eq(from, "aac")) && str_eq(to, "mp3") {
        Ok(one(cmd_ffmpeg_mp3()))
    } else if is_pair(from, to, "ogg", "mp3") {
        Ok(one(cmd_ffmpeg_mp3()))
    } else if is_pair(from, to, "opus", "mp3") {
        Ok(one(cmd_ffmpeg_mp3()))
    } else if is_pair(from, to, "wma", "mp3") {
        Ok(one(cmd_ffmpeg_mp3()))
    } else if is_pair(from, to, "ape", "mp3") {
        Ok(one(cmd_ffmpeg_mp3()))
    } else if is_pair(from, to, "ape", "flac") {
        Ok(one(cmd_ffmpeg_flac()))
    } else if is_pair(from, to, "wv", "mp3") {
        Ok(one(cmd_ffmpeg_mp3()))
    } else if is_pair(from, to, "wv", "flac") {
        Ok(one(cmd_ffmpeg_flac()))
    } else if is_pair(from, to, "dsf", "flac") {
        Ok(one(cmd_ffmpeg_dsd("flac")))
    } else if is_pair(from, to, "dsf", "wav") {
        Ok(one(cmd_ffmpeg_dsd("wav")))
    } else if is_pair(from, to, "dff", "flac") {
        Ok(one(cmd_ffmpeg_dsd("flac")))
    } else if is_pair(from, to, "dff", "wav") {
        Ok(one(cmd_ffmpeg_dsd("wav")))
    } else if str_eq(from, to) && known_format(from) {
        Ok(one(words2("cat", "$FILE$")))
    } else {
        Err(TranscodeError { from: crate::text::string_of(from), to: crate::text::string_of(to) })
    }
}

/// `s[from..]` with every non-overlapping occurrence of `pat`, found left
/// to right, replaced by `rep` (`str::replace` for a non-empty pattern).
pub open spec fn replace_from(s: Seq<char>, pat: Seq<char>, rep: Seq<char>, from: int) -> Seq<char>
    recommends
        pat.len() > 0,
        0 <= from <= s.len(),
    decreases s.len() - from,
    when pat.len() > 0 && 0 <= from <= s.len()
{
    match first_occurrence_from(s, pat, from) {
        Some(i) => {
            proof {
                lemma_first_occurrence_from(s, pat, from);
            }
            s.subrange(from, i) + rep + replace_from(s, pat, rep, i + pat.len())
        },
        None => s.skip(from),
    }
}

/// `str::replace` for a non-empty pattern.
pub open spec fn replace_all(s: Seq<char>, pat: Seq<char>, rep: Seq<char>) -> Seq<char> {
    replace_from(s, pat, rep, 0)
}

/// Replaces every occurrence of the non-empty `pat` in `s` by `rep`.
pub fn replace_str(s: &str, pat: &str, rep: &str) -> (r: String)
    requires
        pat@.len() > 0,
    ensures
        r@ == replace_all(s@, pat@, rep@),
{
    let x = chars_of(s);
    let p = chars_of(pat);
    let q = chars_of(rep);
    let mut out: Vec<char> = Vec::new();
    let mut pos: usize = 0;
    let xlen = x.len();
    loop
        invariant
            xlen == x@.len(),
            x@ == s@,
            p@ == pat@,
            q@ == rep@,
            p@.len() > 0,
            pos <= x@.len(),
            out@ + replace_from(x@, p@, q@, pos as int) == replace_from(x@, p@, q@, 0),
        decreases x@.len() - pos,
    {
        let ghost before = out@;
        let ghost old_pos = pos;
        match find_from(x.as_slice(), p.as_slice(), pos) {
            Some(i) => {
                proof {
                    lemma_first_occurrence_from(x@, p@, pos as int);
                }
                assert(occurs_at(x@, p@, i as int));
                let next = i + p.len();
                let mut k = pos;
                while k < i
                    invariant
                        pos <= k <= i <= x@.len(),
                        out@ == before + x@.subrange(pos as int, k as int),
                    decreases i - k,
                {
                    out.push(x[k]);
                    k = k + 1;
                    assert(out@ =~= before + x@.subrange(pos as int, k as int));
                }
                let mut j: usize = 0;
                let ghost mid = out@;
                while j < q.len()
                    invariant
                        j <= q@.len(),
                        out@ == mid + q@.take(j as int),
                    decreases q@.len() - j,
                {
                    out.push(q[j]);
                    j = j + 1;
                    assert(out@ =~= mid + q@.take(j as int));
                }
                assert(q@.take(q@.len() as int) =~= q@);
                assert(out@ == before + x@.subrange(pos as int, i as int) + q@);
                pos = next;
                assert(replace_from(x@, p@, q@, old_pos as int) == x@.subrange(old_pos as int, i as int) + q@
                    + replace_from(x@, p@, q@, pos as int));
                assert(out@ + replace_from(x@, p@, q@, pos as int) =~= before + replace_from(x@, p@, q@, old_pos as int));
            },
            None => {
                let mut k = pos;
                while k < x.len()
                    invariant
                        pos <= k <= x@.len(),
                        out@ == before + x@.subrange(pos as int, k as int),
                    decreases x@.len() - k,
                {
                    out.push(x[k]);
                    k = k + 1;
                    assert(out@ =~= before + x@.subrange(pos as int, k as int));
                }
                assert(x@.subrange(pos as int, x@.len() as int) =~= x@.skip(pos as int));
                return string_from_chars(out.as_slice());
            },
        }
    }
}

/// Each argument of a command template with `$FILE$` replaced by the file path.
pub fn substitute_variables(template: &[String], file_path: &str) -> (r: Vec<String>)
    ensures
        strings_view(r@) == strings_view(template@).map_values(|a: Seq<char>| replace_all(a, "$FILE$"@, file_path@)),
{
    proof {
        reveal_strlit("$FILE$");
    }
    let mut out: Vec<String> = Vec::new();
    let mut i: usize = 0;
    while i < template.len()
        invariant
            i <= template@.len(),
            strings_view(out@) == strings_view(template@.take(i as int)).map_values(
                |a: Seq<char>| replace_all(a, "$FILE$"@, file_path@),
            ),
            "$FILE$"@.len() > 0,
        decreases template@.len() - i,
    {
        let ghost before = out@;
        let piece = replace_str(template[i].as_str(), "$FILE$", file_path);
        out.push(piece);
        assert(template@.take(i + 1) =~= template@.take(i as int).push(template@[i as int]));
        assert(strings_view(template@.take(i + 1)) =~= strings_view(template@.take(i as int)).push(template@[i as int]@));
        assert(strings_view(out@) =~= strings_view(before).push(piece@));
        i = i + 1;
        assert(strings_view(out@) =~= strings_view(template@.take(i as int)).map_values(
            |a: Seq<char>| replace_all(a, "$FILE$"@, file_path@),
        ));
    }
    assert(template@.take(template@.len() as int) =~= template@);
    out
}

/// The command lines for transcoding `input_file` from one format to
/// another: the rule's commands with the file substituted.
pub fn pipeline_commands(input_file: &str, from_format: &str, to_format: &str) -> (r: Result<
    Vec<Vec<String>>,
    TranscodeError,
>)
    ensures
        match r {
            Ok(cmds) => match transcode_rule(from_format@, to_format@) {
                Some(rule) => commands_view(cmds@) == rule.map_values(
                    |c: Seq<Seq<char>>| c.map_values(|a: Seq<char>| replace_all(a, "$FILE$"@, input_file@)),
                ),
                None => false,
            },
            Err(e) => transcode_rule(from_format@, to_format@) is None && e.from@ == from_format@ && e.to@
                == to_format@,
        },
{
    let commands = get_transcode_commands(from_format, to_format)?;
    let ghost rule = commands_view(commands@);
    let mut out: Vec<Vec<String>> = Vec::new();
    let mut i: usize = 0;
    while i < commands.len()
        invariant
            i <= commands@.len(),
            rule == commands_view(commands@),
            commands_view(out@) == rule.take(i as int).map_values(
                |c: Seq<Seq<char>>| c.map_values(|a: Seq<char>| replace_all(a, "$FILE$"@, input_file@)),
            ),
        decreases commands@.len() - i,
    {
        let ghost before = out@;
        let piece = substitute_variables(commands[i].as_slice(), input_file);
        out.push(piece);
        assert(rule.take(i + 1) =~= rule.take(i as int).push(rule[i as int]));
        assert(rule[i as int] == strings_view(commands@[i as int]@));
        assert(commands_view(out@) =~= commands_view(before).push(strings_view(piece@)));
        i = i + 1;
        assert(commands_view(out@) =~= rule.take(i as int).map_values(
            |c: Seq<Seq<char>>| c.map_values(|a: Seq<char>| replace_all(a, "$FILE$"@, input_file@)),
        ));
    }
    assert(rule.take(rule.len() as int) =~= rule);
    Ok(out)
}

/// Whether a file must be transcoded to reach the target format.
pub fn needs_transcoding(file_format: &str, target_format: &str) -> (r: bool)
    ensures
        r == (file_format@ != target_format@),
{
    !str_eq(file_format, target_format)
}

/// What `Path::extension` gives for a path: the part of its file name
/// after the last `.`, where there is one that is not the name's first
/// character.
pub uninterp spec fn path_extension(path: Seq<char>) -> Option<Seq<char>>;

/// The extension of a path (`Path::extension`, where it is valid UTF-8).
#[verifier::external_body]
pub(crate) fn extension_of(path: &str) -> (r: Option<String>)
    ensures
        match r {
            Some(e) => path_extension(path@) == Some(e@),
            None => path_extension(path@) is None,
        },
{
    std::path::Path::new(path).extension().and_then(|e| e.to_str()).map(|s| s.to_string())
}

/// The format named by an extension: the extension in lower case.
pub fn format_from_extension(ext: Option<String>) -> (r: Option<String>)
    ensures
        match ext {
            Some(e) => r matches Some(f) && f@ == unicode_lowercase(e@) && (is_ascii_seq(e@) ==> f@
                == ascii_lower_seq(e@)),
            None => r is None,
        },
{
    match ext {
        Some(e) => Some(to_lowercase(e.as_str())),
        None => None,
    }
}

/// The format of a file, from its extension in lower case.
pub fn get_format_from_path(path: &str) -> (r: Option<String>)
    ensures
        match path_extension(path@) {
            Some(e) => r matches Some(f) && f@ == unicode_lowercase(e) && (is_ascii_seq(e) ==> f@ == ascii_lower_seq(
                e,
            )),
            None => r is None,
        },
{
    format_from_extension(extension_of(path))
}


/// What a command writes: ffmpeg the format named after its `-f`, lame
/// MP3, `flac -dcs` WAV, and cat its input unchanged.
pub open spec fn writes_format(cmd: Seq<Seq<char>>, input: Seq<char>, fmt: Seq<char>) -> bool {
    ||| cmd.len() > 0 && cmd[0] == "ffmpeg"@ && exists|i: int|
        0 <= i < cmd.len() - 1 && #[trigger] cmd[i] == "-f"@ && cmd[i + 1] == fmt
    ||| cmd.len() > 0 && cmd[0] == "lame"@ && fmt == "mp3"@
    ||| cmd.len() > 1 && cmd[0] == "flac"@ && cmd[1] == "-dcs"@ && fmt == "wav"@
    ||| cmd.len() > 0 && cmd[0] == "cat"@ && fmt == input
}

/// Every pipeline reads the input file in its first command and ends in a
/// command that writes the target format.
pub proof fn lemma_pipeline_writes_target(from: Seq<char>, to: Seq<char>)
    ensures
        transcode_rule(from, to) matches Some(p) ==> p.len() > 0 && p[0].contains("$FILE$"@) && writes_format(
            p.last(),
            from,
            to,
        ),
{
    match transcode_rule(from, to) {
        Some(p) => {
            let c = p.last();
            if c.len() > 4 && c[0] == "ffmpeg"@ {
                assert(c[3] == "-f"@);
            }
            let f = p[0];
            assert(f[1] == "$FILE$"@ || f[2] == "$FILE$"@ || f[3] == "$FILE$"@);
        },
        None => {},
    }
}

} // verus!
