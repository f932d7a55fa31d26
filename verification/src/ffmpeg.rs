use vstd::prelude::*;

use crate::build::EncodeOptions;
use crate::plan::{Segment, SegmentKind, SegmentModel};
use crate::error::VideoGenError;
use crate::text::{decimal, decimal_string, opt_view, push_char, push_decimal, push_str, trim, trimmed};

verus! {

/// `ms` milliseconds as seconds with exactly three decimals, such as `4.217`.
pub open spec fn seconds_text(ms: nat) -> Seq<char> {
    decimal(ms / 1000) + seq!['.'] + decimal((ms % 1000) / 100) + decimal((ms % 100) / 10)
        + decimal(ms % 10)
}

/// Formats a duration in milliseconds as seconds with three decimals.
pub fn format_seconds(duration_ms: u64) -> (s: String)
    ensures
        s@ == seconds_text(duration_ms as nat),
{
    let mut s = String::new();
    push_decimal(&mut s, duration_ms / 1000);
    push_char(&mut s, '.');
    let rest = duration_ms % 1000;
    push_decimal(&mut s, rest / 100);
    push_decimal(&mut s, (rest % 100) / 10);
    push_decimal(&mut s, rest % 10);
    assert((duration_ms % 1000) % 100 == duration_ms % 100);
    assert(s@ =~= seconds_text(duration_ms as nat));
    s
}

pub open spec fn strs(v: Seq<String>) -> Seq<Seq<char>> {
    v.map_values(|s: String| s@)
}

/// The audio inputs of a segment: the unit's own track, resampled to 48 kHz
/// stereo, or generated silence of the same format.
pub open spec fn audio_args(segment: SegmentModel) -> Seq<Seq<char>> {
    match segment {
        SegmentModel::Unit { audio, .. } => seq![
            "-i"@,
            audio,
            "-af"@,
            "aresample=48000,aformat=channel_layouts=stereo"@,
        ],
        _ => seq!["-f"@, "lavfi"@, "-i"@, "aevalsrc=0:s=48000:c=stereo"@],
    }
}

/// The ffmpeg arguments that encode one segment into `output`.
pub open spec fn segment_args(segment: SegmentModel, output: Seq<char>, opts: EncodeOptions) -> Seq<
    Seq<char>,
> {
    seq!["-y"@, "-loop"@, "1"@, "-framerate"@, decimal(opts.fps as nat), "-i"@, segment.image()]
        + audio_args(segment) + seq![
        "-c:v"@,
        "libx264"@,
        "-preset"@,
        opts.preset@,
        "-crf"@,
        decimal(opts.crf as nat),
        "-pix_fmt"@,
        "yuv420p"@,
        "-c:a"@,
        "aac"@,
        "-b:a"@,
        opts.audio_bitrate@,
        "-t"@,
        seconds_text(segment.duration_ms() as nat),
        "-shortest"@,
        "-movflags"@,
        "+faststart"@,
        output,
    ]
}

/// The ffmpeg arguments that encode one segment: the image looped at the
/// frame rate, the segment's audio, the encoder settings, and the duration.
pub fn segment_argv(segment: &Segment, output: &str, opts: &EncodeOptions) -> (argv: Vec<String>)
    ensures
        strs(argv@) == segment_args(segment@, output@, *opts),
{
    let mut argv: Vec<String> = Vec::new();
    argv.push("-y".to_string());
    argv.push("-loop".to_string());
    argv.push("1".to_string());
    argv.push("-framerate".to_string());
    argv.push(decimal_string(opts.fps as u64));
    argv.push("-i".to_string());
    argv.push(segment.image().clone());
    match segment {
        Segment::Unit { audio, .. } => {
            argv.push("-i".to_string());
            argv.push(audio.clone());
            argv.push("-af".to_string());
            argv.push("aresample=48000,aformat=channel_layouts=stereo".to_string());
        },
        _ => {
            argv.push("-f".to_string());
            argv.push("lavfi".to_string());
            argv.push("-i".to_string());
            argv.push("aevalsrc=0:s=48000:c=stereo".to_string());
        },
    }
    argv.push("-c:v".to_string());
    argv.push("libx264".to_string());
    argv.push("-preset".to_string());
    argv.push(opts.preset.clone());
    argv.push("-crf".to_string());
    argv.push(decimal_string(opts.crf as u64));
    argv.push("-pix_fmt".to_string());
    argv.push("yuv420p".to_string());
    argv.push("-c:a".to_string());
    argv.push("aac".to_string());
    argv.push("-b:a".to_string());
    argv.push(opts.audio_bitrate.clone());
    argv.push("-t".to_string());
    argv.push(format_seconds(segment.duration_ms()));
    argv.push("-shortest".to_string());
    argv.push("-movflags".to_string());
    argv.push("+faststart".to_string());
    argv.push(output.to_string());
    assert(strs(argv@) =~= segment_args(segment@, output@, *opts));
    argv
}

/// The ffmpeg arguments that join the listed segments into `output` without
/// re-encoding them.
pub open spec fn concat_args(list: Seq<char>, output: Seq<char>) -> Seq<Seq<char>> {
    seq![
        "-y"@,
        "-f"@,
        "concat"@,
        "-safe"@,
        "0"@,
        "-i"@,
        list,
        "-c"@,
        "copy"@,
        "-movflags"@,
        "+faststart"@,
        output,
    ]
}

pub fn concat_argv(concat_list_path: &str, output_path: &str) -> (argv: Vec<String>)
    ensures
        strs(argv@) == concat_args(concat_list_path@, output_path@),
{
    let argv = vec![
        "-y".to_string(),
        "-f".to_string(),
        "concat".to_string(),
        "-safe".to_string(),
        "0".to_string(),
        "-i".to_string(),
        concat_list_path.to_string(),
        "-c".to_string(),
        "copy".to_string(),
        "-movflags".to_string(),
        "+faststart".to_string(),
        output_path.to_string(),
    ];
    assert(strs(argv@) =~= concat_args(concat_list_path@, output_path@));
    argv
}

} // verus!

verus! {

/// `s` with each single quote replaced by `'\''`, so that it can stand inside
/// a single-quoted concat list entry.
pub open spec fn escape_quotes(s: Seq<char>) -> Seq<char>
    decreases s.len(),
{
    if s.len() == 0 {
        Seq::empty()
    } else {
        escape_quotes(s.drop_last()) + if s.last() == '\'' {
            seq!['\'', '\\', '\'', '\'']
        } else {
            seq![s.last()]
        }
    }
}

/// The concat list entry for one file.
pub open spec fn concat_line(name: Seq<char>) -> Seq<char> {
    seq!['f', 'i', 'l', 'e', ' ', '\''] + escape_quotes(name) + seq!['\'']
}

/// The entries of the first `k` files joined by newlines.
pub open spec fn concat_lines(names: Seq<Seq<char>>, k: int) -> Seq<char>
    decreases k,
{
    if k <= 0 {
        Seq::empty()
    } else if k == 1 {
        concat_line(names[0])
    } else {
        concat_lines(names, k - 1) + seq!['\n'] + concat_line(names[k - 1])
    }
}

/// The whole concat list: the entries joined by newlines, then a final newline.
pub open spec fn concat_list_text(names: Seq<Seq<char>>) -> Seq<char> {
    concat_lines(names, names.len() as int) + seq!['\n']
}

fn push_escaped(out: &mut String, name: &str)
    ensures
        final(out)@ == old(out)@ + escape_quotes(name@),
{
    let ghost start = out@;
    for c in it: name.chars()
        invariant
            it.seq() == name@,
            out@ == start + escape_quotes(name@.take(it.index() as int)),
    {
        let ghost i = it.index();
        let ghost before = out@;
        if c == '\'' {
            push_char(out, '\'');
            push_char(out, '\\');
            push_char(out, '\'');
            push_char(out, '\'');
        } else {
            push_char(out, c);
        }
        proof {
            let t = name@.take(i + 1);
            assert(t.drop_last() =~= name@.take(i as int));
            assert(t.last() == c);
            assert(out@ =~= start + escape_quotes(t));
        }
    }
    assert(name@.take(name@.len() as int) =~= name@);
}

/// The concat demuxer's list file: one `file '<name>'` line per segment file,
/// with single quotes escaped, each line ending in a newline.
pub fn concat_list_content(segment_filenames: &[String]) -> (content: String)
    ensures
        content@ == concat_list_text(strs(segment_filenames@)),
{
    let ghost names = strs(segment_filenames@);
    let mut out = String::new();
    let n = segment_filenames.len();
    let mut i: usize = 0;
    while i < n
        invariant
            n == segment_filenames@.len(),
            names == strs(segment_filenames@),
            i <= n,
            out@ == concat_lines(names, i as int),
        decreases n - i,
    {
        let ghost before = out@;
        if i > 0 {
            push_char(&mut out, '\n');
        }
        out.append("file '");
        push_escaped(&mut out, segment_filenames[i].as_str());
        push_char(&mut out, '\'');
        proof {
            reveal_strlit("file '");
            assert(names[i as int] == segment_filenames@[i as int]@);
            if i == 0 {
                assert(out@ =~= concat_line(names[0]));
            } else {
                assert(out@ =~= before + seq!['\n'] + concat_line(names[i as int]));
            }
        }
        i = i + 1;
    }
    push_char(&mut out, '\n');
    out
}

} // verus!

verus! {

#[derive(Debug, Clone, Copy, PartialEq, Eq, Structural)]
pub enum Tool {
    Ffmpeg,
    Ffprobe,
}

#[derive(Debug, Clone, Copy, PartialEq, Eq, Structural)]
pub struct ImageSize {
    pub width: u64,
    pub height: u64,
}

/// What ffprobe reports about a file, as far as the build reads it.
#[derive(Debug, Clone)]
pub struct ProbeData {
    pub streams: Option<Vec<ProbeStream>>,
}

/// One stream of an ffprobe report.
#[derive(Debug, Clone)]
pub struct ProbeStream {
    pub duration: Option<String>,
    pub width: Option<u64>,
    pub height: Option<u64>,
}

/// The first stream of a report, when it has one.
pub open spec fn first_stream(data: ProbeData) -> Option<ProbeStream> {
    match data.streams {
        Some(v) => if v@.len() > 0 {
            Some(v@[0])
        } else {
            None
        },
        None => None,
    }
}

fn first_stream_of(data: &ProbeData) -> (s: Option<&ProbeStream>)
    ensures
        match s {
            Some(st) => first_stream(*data) == Some(*st),
            None => first_stream(*data) is None,
        },
{
    match &data.streams {
        Some(v) => if v.len() > 0 {
            Some(&v[0])
        } else {
            None
        },
        None => None,
    }
}

/// The size of an image from its ffprobe report: the width and height of the
/// first stream, or a runtime error when either is missing.
pub fn image_size_from_probe(data: &ProbeData) -> (res: Result<ImageSize, VideoGenError>)
    ensures
        match first_stream(*data) {
            Some(st) if st.width is Some && st.height is Some => res == Ok::<
                ImageSize,
                VideoGenError,
            >(ImageSize { width: st.width->0, height: st.height->0 }),
            _ => res matches Err(e) && e.spec_kind() == crate::error::ErrorKind::Runtime
                && e.spec_message() == "ffprobe: missing image dimensions"@,
        },
{
    let missing = "ffprobe: missing image dimensions";
    match first_stream_of(data) {
        None => Err(VideoGenError::runtime(missing.to_string())),
        Some(st) => match (st.width, st.height) {
            (Some(width), Some(height)) => Ok(ImageSize { width, height }),
            _ => Err(VideoGenError::runtime(missing.to_string())),
        },
    }
}

/// The duration text of an audio file from its ffprobe report: the first
/// stream's `duration`, or a runtime error naming what is missing.
pub fn audio_duration_text(data: &ProbeData) -> (res: Result<String, VideoGenError>)
    ensures
        match first_stream(*data) {
            None => res matches Err(e) && e.spec_kind() == crate::error::ErrorKind::Runtime
                && e.spec_message() == "ffprobe: no audio stream found"@,
            Some(st) => match st.duration {
                None => res matches Err(e) && e.spec_kind() == crate::error::ErrorKind::Runtime
                    && e.spec_message() == "ffprobe: missing audio duration"@,
                Some(d) => res matches Ok(t) && t@ == d@,
            },
        },
{
    match first_stream_of(data) {
        None => Err(VideoGenError::runtime("ffprobe: no audio stream found".to_string())),
        Some(st) => match &st.duration {
            None => Err(VideoGenError::runtime("ffprobe: missing audio duration".to_string())),
            Some(d) => Ok(d.clone()),
        },
    }
}

/// The error for an audio duration that is not a finite number.
pub fn invalid_audio_duration(duration: &str) -> (e: VideoGenError)
    ensures
        e.spec_kind() == crate::error::ErrorKind::Runtime,
        e.spec_message() == "ffprobe: invalid audio duration \""@ + duration@ + "\""@,
{
    let mut msg = String::new();
    push_str(&mut msg, "ffprobe: invalid audio duration \"");
    push_str(&mut msg, duration);
    push_str(&mut msg, "\"");
    VideoGenError::runtime(msg)
}

pub open spec fn env_key_text(tool: Tool) -> Seq<char> {
    match tool {
        Tool::Ffmpeg => "VIDEO_GEN_FFMPEG"@,
        Tool::Ffprobe => "VIDEO_GEN_FFPROBE"@,
    }
}

/// The environment variable that may point at a tool.
pub fn env_key(tool: Tool) -> (k: &'static str)
    ensures
        k@ == env_key_text(tool),
{
    match tool {
        Tool::Ffmpeg => "VIDEO_GEN_FFMPEG",
        Tool::Ffprobe => "VIDEO_GEN_FFPROBE",
    }
}

pub open spec fn tool_base_name(tool: Tool) -> Seq<char> {
    match tool {
        Tool::Ffmpeg => "ffmpeg"@,
        Tool::Ffprobe => "ffprobe"@,
    }
}

/// The executable's file name: the tool's name and the platform's suffix.
pub fn tool_name(tool: Tool, exe_suffix: &str) -> (name: String)
    ensures
        name@ == tool_base_name(tool) + exe_suffix@,
{
    let mut name = String::new();
    match tool {
        Tool::Ffmpeg => push_str(&mut name, "ffmpeg"),
        Tool::Ffprobe => push_str(&mut name, "ffprobe"),
    }
    push_str(&mut name, exe_suffix);
    name
}

/// Which executable to run, by precedence: the path given by the caller,
/// then the environment variable's value once trimmed (unless that is
/// empty), then the executable beside the program when it exists, then the
/// bare name for a `PATH` lookup.
pub open spec fn chosen_binary(
    explicit: Option<Seq<char>>,
    env_value: Option<Seq<char>>,
    sibling: Option<Seq<char>>,
    bare: Seq<char>,
) -> Seq<char> {
    match explicit {
        Some(p) => p,
        None => {
            if env_value is Some && trim(env_value->0).len() > 0 {
                trim(env_value->0)
            } else {
                match sibling {
                    Some(p) => p,
                    None => bare,
                }
            }
        },
    }
}

/// Chooses the executable of a tool. `sibling` is the executable beside the
/// program, given only when it exists.
pub fn choose_binary(
    explicit: Option<String>,
    env_value: Option<String>,
    sibling: Option<String>,
    bare: String,
) -> (path: String)
    ensures
        path@ == chosen_binary(opt_view(explicit), opt_view(env_value), opt_view(sibling), bare@),
{
    if let Some(p) = explicit {
        return p;
    }
    if let Some(value) = env_value {
        let t = trimmed(value.as_str());
        if !t.as_str().is_empty() {
            return t;
        }
    }
    match sibling {
        Some(p) => p,
        None => bare,
    }
}

/// The ffprobe arguments that report the width and height of an image.
pub open spec fn image_probe_args(image: Seq<char>) -> Seq<Seq<char>> {
    seq![
        "-v"@,
        "error"@,
        "-select_streams"@,
        "v:0"@,
        "-show_entries"@,
        "stream=width,height"@,
        "-of"@,
        "json"@,
        image,
    ]
}

/// The ffprobe arguments that report the duration of an audio file.
pub open spec fn audio_probe_args(audio: Seq<char>) -> Seq<Seq<char>> {
    seq![
        "-v"@,
        "error"@,
        "-select_streams"@,
        "a:0"@,
        "-show_entries"@,
        "stream=duration"@,
        "-of"@,
        "json"@,
        audio,
    ]
}

pub fn image_probe_argv(image: &str) -> (argv: Vec<String>)
    ensures
        strs(argv@) == image_probe_args(image@),
{
    let argv = vec![
        "-v".to_string(),
        "error".to_string(),
        "-select_streams".to_string(),
        "v:0".to_string(),
        "-show_entries".to_string(),
        "stream=width,height".to_string(),
        "-of".to_string(),
        "json".to_string(),
        image.to_string(),
    ];
    assert(strs(argv@) =~= image_probe_args(image@));
    argv
}

pub fn audio_probe_argv(audio: &str) -> (argv: Vec<String>)
    ensures
        strs(argv@) == audio_probe_args(audio@),
{
    let argv = vec![
        "-v".to_string(),
        "error".to_string(),
        "-select_streams".to_string(),
        "a:0".to_string(),
        "-show_entries".to_string(),
        "stream=duration".to_string(),
        "-of".to_string(),
        "json".to_string(),
        audio.to_string(),
    ];
    assert(strs(argv@) =~= audio_probe_args(audio@));
    argv
}

} // verus!

verus! {

/// Where the last `k` lines of `s` begin: just after the `k`-th newline
/// counted from the end, or at 0 when `s` has fewer.
pub open spec fn tail_start(s: Seq<char>, k: nat) -> int
    decreases s.len(),
{
    if s.len() == 0 {
        0
    } else if s.last() == '\n' {
        if k <= 1 {
            s.len() as int
        } else {
            tail_start(s.drop_last(), (k - 1) as nat)
        }
    } else {
        tail_start(s.drop_last(), k)
    }
}

/// `s` without its trailing newlines.
pub open spec fn trim_newlines(s: Seq<char>) -> Seq<char>
    decreases s.len(),
{
    if s.len() > 0 && s.last() == '\n' {
        trim_newlines(s.drop_last())
    } else {
        s
    }
}

/// The last `k` lines of a tool's error output.
pub open spec fn tail_lines(s: Seq<char>, k: nat) -> Seq<char> {
    let t = trim_newlines(s);
    t.skip(tail_start(t, k))
}

proof fn lemma_tail_start_bounds(s: Seq<char>, k: nat)
    ensures
        0 <= tail_start(s, k) <= s.len(),
    decreases s.len(),
{
    if s.len() > 0 {
        if s.last() == '\n' {
            if k > 1 {
                lemma_tail_start_bounds(s.drop_last(), (k - 1) as nat);
            }
        } else {
            lemma_tail_start_bounds(s.drop_last(), k);
        }
    }
}

/// Keeps the last `k` lines of a tool's error output.
pub fn last_lines(s: &str, k: u64) -> (t: String)
    ensures
        t@ == tail_lines(s@, k as nat),
{
    let cs = crate::text::chars_of(s);
    let mut end = cs.len();
    assert(cs@.take(end as int) =~= cs@);
    while end > 0 && cs[end - 1] == '\n'
        invariant
            end <= cs@.len(),
            trim_newlines(cs@) == trim_newlines(cs@.take(end as int)),
        decreases end,
    {
        assert(cs@.take(end as int).drop_last() =~= cs@.take(end - 1));
        end = end - 1;
    }
    let ghost t = cs@.take(end as int);
    assert(trim_newlines(cs@) == t);
    let mut i = end;
    let mut left: u64 = k;
    assert(t.take(i as int) =~= t);
    while i > 0 && !(cs[i - 1] == '\n' && left <= 1)
        invariant
            i <= end,
            end <= cs@.len(),
            t == cs@.take(end as int),
            tail_start(t, k as nat) == tail_start(t.take(i as int), left as nat),
        decreases i,
    {
        assert(t.take(i as int).drop_last() =~= t.take(i - 1));
        assert(t.take(i as int).last() == cs@[i - 1]);
        if cs[i - 1] == '\n' {
            left = left - 1;
        }
        i = i - 1;
    }
    proof {
        lemma_tail_start_bounds(t, k as nat);
        if i > 0 {
            assert(t.take(i as int).last() == cs@[i - 1]);
        }
    }
    crate::text::string_from_chars(&cs, i, end)
}

pub open spec fn int_text(x: int) -> Seq<char> {
    if x < 0 {
        "-"@ + decimal((-x) as nat)
    } else {
        decimal(x as nat)
    }
}

fn push_int(out: &mut String, x: i32)
    ensures
        final(out)@ == old(out)@ + int_text(x as int),
{
    if x < 0 {
        push_str(out, "-");
        push_decimal(out, (-(x as i64)) as u64);
    } else {
        push_decimal(out, x as u64);
    }
}

/// The runtime error for a tool run that failed: how it ended, then the last
/// twenty lines of what it wrote on standard error.
pub open spec fn tool_failure_message(tool: Tool, code: Option<i32>, stderr: Seq<char>) -> Seq<char> {
    tool_base_name(tool) + match code {
        Some(c) => " failed (exit code "@ + int_text(c as int) + ")"@,
        None => " failed (terminated by a signal)"@,
    } + ":\n"@ + tail_lines(stderr, 20)
}

pub fn tool_failure_error(tool: Tool, code: Option<i32>, stderr: &str) -> (e: VideoGenError)
    ensures
        e.spec_kind() == crate::error::ErrorKind::Runtime,
        e.spec_message() == tool_failure_message(tool, code, stderr@),
{
    let mut msg = tool_name(tool, "");
    proof {
        reveal_strlit("");
        assert(msg@ =~= tool_base_name(tool));
    }
    let ghost head = msg@;
    match code {
        Some(c) => {
            push_str(&mut msg, " failed (exit code ");
            push_int(&mut msg, c);
            push_str(&mut msg, ")");
        },
        None => push_str(&mut msg, " failed (terminated by a signal)"),
    }
    push_str(&mut msg, ":\n");
    let tail = last_lines(stderr, 20);
    push_str(&mut msg, tail.as_str());
    assert(msg@ =~= tool_failure_message(tool, code, stderr@));
    VideoGenError::runtime(msg)
}

/// The user error for a tool that cannot be run.
pub open spec fn tool_missing_message(tool: Tool, path: Seq<char>) -> Seq<char> {
    tool_base_name(tool) + " not found: "@ + path
        + "\n  install ffmpeg (e.g. `brew install ffmpeg`) or use a release that bundles it"@
}

pub fn tool_missing_error(tool: Tool, path: &str) -> (e: VideoGenError)
    ensures
        e.spec_kind() == crate::error::ErrorKind::User,
        e.spec_message() == tool_missing_message(tool, path@),
{
    let mut msg = tool_name(tool, "");
    proof {
        reveal_strlit("");
        assert(msg@ =~= tool_base_name(tool));
    }
    push_str(&mut msg, " not found: ");
    push_str(&mut msg, path);
    push_str(
        &mut msg,
        "\n  install ffmpeg (e.g. `brew install ffmpeg`) or use a release that bundles it",
    );
    assert(msg@ =~= tool_missing_message(tool, path@));
    VideoGenError::user(msg)
}

/// The runtime error for an output file that is missing after the concat.
pub fn missing_output_error(path: &str) -> (e: VideoGenError)
    ensures
        e.spec_kind() == crate::error::ErrorKind::Runtime,
        e.spec_message() == "ffmpeg: output file missing: "@ + path@,
{
    let mut msg = String::new();
    push_str(&mut msg, "ffmpeg: output file missing: ");
    push_str(&mut msg, path);
    VideoGenError::runtime(msg)
}

} // verus!

verus! {

/// Splits `s` into lines at each newline, the rest after the last newline
/// being a line when it is not empty, with `cur` as the start of the first
/// line.
pub open spec fn lines_from(s: Seq<char>, cur: Seq<char>) -> Seq<Seq<char>>
    decreases s.len(),
{
    if s.len() == 0 {
        if cur.len() == 0 {
            Seq::empty()
        } else {
            seq![cur]
        }
    } else if s[0] == '\n' {
        seq![cur] + lines_from(s.drop_first(), Seq::empty())
    } else {
        lines_from(s.drop_first(), cur.push(s[0]))
    }
}

/// The lines of a text, without their newlines, as a reader that splits at
/// each newline and ignores a final newline sees them.
pub open spec fn lines_of(s: Seq<char>) -> Seq<Seq<char>> {
    lines_from(s, Seq::empty())
}

/// What a quoted token stands for, as ffmpeg's concat demuxer and a POSIX
/// shell read it: inside single quotes each character stands for itself;
/// outside them a single quote opens a quoted run and a backslash makes the
/// next character literal. `quoted` says whether a quoted run is open.
pub open spec fn unquote(s: Seq<char>, quoted: bool) -> Seq<char>
    decreases s.len(),
{
    if s.len() == 0 {
        Seq::empty()
    } else if s[0] == '\'' {
        unquote(s.drop_first(), !quoted)
    } else if !quoted && s[0] == '\\' && s.len() >= 2 {
        seq![s[1]] + unquote(s.skip(2), false)
    } else {
        seq![s[0]] + unquote(s.drop_first(), quoted)
    }
}

/// No character of `s` is a newline.
pub open spec fn one_line(s: Seq<char>) -> bool {
    forall|i: int| 0 <= i < s.len() ==> s[i] != '\n'
}

proof fn lemma_lines_from_line(x: Seq<char>, rest: Seq<char>, cur: Seq<char>)
    requires
        one_line(x),
    ensures
        lines_from(x + seq!['\n'] + rest, cur) == seq![cur + x] + lines_from(rest, Seq::empty()),
    decreases x.len(),
{
    let s = x + seq!['\n'] + rest;
    if x.len() == 0 {
        assert(s[0] == '\n');
        assert(s.drop_first() =~= rest);
        assert(cur + x =~= cur);
    } else {
        assert(s[0] == x[0]);
        assert(s.drop_first() =~= x.drop_first() + seq!['\n'] + rest);
        lemma_lines_from_line(x.drop_first(), rest, cur.push(x[0]));
        assert(cur.push(x[0]) + x.drop_first() =~= cur + x);
    }
}

proof fn lemma_unquote_escaped(n: Seq<char>, rest: Seq<char>)
    ensures
        unquote(escape_quotes(n) + rest, true) == n + unquote(rest, true),
    decreases n.len(),
{
    if n.len() == 0 {
        assert(escape_quotes(n) + rest =~= rest);
        assert(n + unquote(rest, true) =~= unquote(rest, true));
    } else {
        let c = n.last();
        let piece = if c == '\'' {
            seq!['\'', '\\', '\'', '\'']
        } else {
            seq![c]
        };
        assert(escape_quotes(n) + rest =~= escape_quotes(n.drop_last()) + (piece + rest));
        lemma_unquote_escaped(n.drop_last(), piece + rest);
        let p = piece + rest;
        if c == '\'' {
            let q = p.drop_first();
            assert(q =~= seq!['\\', '\'', '\''] + rest);
            assert(p[0] == '\'');
            assert(unquote(p, true) == unquote(q, false));
            assert(q[0] == '\\' && q[1] == '\'');
            let r = q.skip(2);
            assert(r =~= seq!['\''] + rest);
            assert(unquote(q, false) == seq!['\''] + unquote(r, false));
            assert(r[0] == '\'');
            assert(r.drop_first() =~= rest);
            assert(unquote(r, false) == unquote(rest, true));
        } else {
            assert(p[0] == c);
            assert(p.drop_first() =~= rest);
        }
        assert(unquote(p, true) == seq![c] + unquote(rest, true));
        assert(n.drop_last() + (seq![c] + unquote(rest, true)) =~= n + unquote(rest, true));
    }
}

proof fn lemma_escape_one_line(n: Seq<char>)
    requires
        one_line(n),
    ensures
        one_line(escape_quotes(n)),
    decreases n.len(),
{
    if n.len() > 0 {
        assert(one_line(n.drop_last()));
        lemma_escape_one_line(n.drop_last());
        let c = n.last();
        assert(c != '\n');
    }
}

/// Each text followed by a newline, one after the other.
pub open spec fn terminated(lines: Seq<Seq<char>>) -> Seq<char>
    decreases lines.len(),
{
    if lines.len() == 0 {
        Seq::empty()
    } else {
        lines[0] + seq!['\n'] + terminated(lines.drop_first())
    }
}

proof fn lemma_terminated_push(lines: Seq<Seq<char>>, x: Seq<char>)
    ensures
        terminated(lines.push(x)) == terminated(lines) + x + seq!['\n'],
    decreases lines.len(),
{
    if lines.len() == 0 {
        assert(lines.push(x).drop_first() =~= Seq::<Seq<char>>::empty());
        assert(lines.push(x)[0] == x);
        assert(terminated(Seq::<Seq<char>>::empty()) =~= Seq::<char>::empty());
        assert(terminated(lines.push(x)) =~= x + seq!['\n']);
        assert(terminated(lines) + x + seq!['\n'] =~= x + seq!['\n']);
    } else {
        assert(lines.push(x).drop_first() =~= lines.drop_first().push(x));
        lemma_terminated_push(lines.drop_first(), x);
        assert(terminated(lines.push(x)) =~= terminated(lines) + x + seq!['\n']);
    }
}

proof fn lemma_lines_of_terminated(lines: Seq<Seq<char>>)
    requires
        forall|i: int| 0 <= i < lines.len() ==> one_line(#[trigger] lines[i]),
    ensures
        lines_of(terminated(lines)) == lines,
    decreases lines.len(),
{
    if lines.len() == 0 {
    } else {
        let rest = lines.drop_first();
        assert(forall|i: int| 0 <= i < rest.len() ==> rest[i] == lines[i + 1]);
        lemma_lines_of_terminated(rest);
        assert(one_line(lines[0]));
        lemma_lines_from_line(lines[0], terminated(rest), Seq::empty());
        assert(Seq::<char>::empty() + lines[0] =~= lines[0]);
        assert(seq![lines[0]] + rest =~= lines);
    }
}

proof fn lemma_concat_text_terminated(names: Seq<Seq<char>>, k: int)
    requires
        1 <= k <= names.len(),
    ensures
        concat_lines(names, k) + seq!['\n'] == terminated(
            names.take(k).map_values(|n: Seq<char>| concat_line(n)),
        ),
    decreases k,
{
    let lines = names.take(k).map_values(|n: Seq<char>| concat_line(n));
    if k == 1 {
        assert(lines =~= Seq::<Seq<char>>::empty().push(concat_line(names[0])));
        lemma_terminated_push(Seq::<Seq<char>>::empty(), concat_line(names[0]));
        assert(terminated(Seq::<Seq<char>>::empty()) =~= Seq::<char>::empty());
        assert(concat_lines(names, 1) + seq!['\n'] =~= Seq::<char>::empty() + concat_line(names[0])
            + seq!['\n']);
    } else {
        lemma_concat_text_terminated(names, k - 1);
        let prev = names.take(k - 1).map_values(|n: Seq<char>| concat_line(n));
        assert(lines =~= prev.push(concat_line(names[k - 1])));
        lemma_terminated_push(prev, concat_line(names[k - 1]));
        assert(concat_lines(names, k) + seq!['\n'] =~= (concat_lines(names, k - 1) + seq!['\n'])
            + concat_line(names[k - 1]) + seq!['\n']);
    }
}

/// Reading a concat list back gives the files again: one line per file, in
/// order, each `file ` and then a quoted token that stands for the file's
/// name exactly, whatever quotes the name holds; the text ends in a newline.
pub proof fn law_concat_list_reads_back(names: Seq<Seq<char>>)
    requires
        names.len() > 0,
        forall|i: int| 0 <= i < names.len() ==> one_line(#[trigger] names[i]),
    ensures
        concat_list_text(names).last() == '\n',
        lines_of(concat_list_text(names)).len() == names.len(),
        forall|i: int|
            0 <= i < names.len() ==> {
                let line = #[trigger] lines_of(concat_list_text(names))[i];
                &&& line.take(5) == "file "@
                &&& unquote(line.skip(5), false) == names[i]
            },
{
    let n = names.len() as int;
    let lines = names.map_values(|x: Seq<char>| concat_line(x));
    lemma_concat_text_terminated(names, n);
    assert(names.take(n) =~= names);
    assert forall|i: int| 0 <= i < lines.len() implies one_line(#[trigger] lines[i]) by {
        lemma_escape_one_line(names[i]);
        let l = lines[i];
        assert(l == seq!['f', 'i', 'l', 'e', ' ', '\''] + escape_quotes(names[i]) + seq!['\'']);
        assert forall|j: int| 0 <= j < l.len() implies l[j] != '\n' by {
            if 6 <= j < 6 + escape_quotes(names[i]).len() {
                assert(l[j] == escape_quotes(names[i])[j - 6]);
            }
        }
    }
    lemma_lines_of_terminated(lines);
    assert(concat_list_text(names) == terminated(lines));
    assert forall|i: int| 0 <= i < names.len() implies {
        let line = #[trigger] lines_of(concat_list_text(names))[i];
        &&& line.take(5) == "file "@
        &&& unquote(line.skip(5), false) == names[i]
    } by {
        reveal_strlit("file ");
        let line = lines[i];
        let e = escape_quotes(names[i]);
        assert(line.take(5) =~= "file "@);
        let t = line.skip(5);
        assert(t =~= seq!['\''] + (e + seq!['\'']));
        assert(t.drop_first() =~= e + seq!['\'']);
        lemma_unquote_escaped(names[i], seq!['\'']);
        let z = Seq::<char>::empty();
        assert(seq!['\''].drop_first() =~= z);
        assert(unquote(seq!['\''], true) =~= unquote(z, false));
        assert(names[i] + z =~= names[i]);
    }
    let text = concat_list_text(names);
    assert(text == concat_lines(names, n) + seq!['\n']);
}

} // verus!

verus! {

/// The audio input of every segment follows the image input (arguments 5
/// and 6): a unit reads its own track, resampled to 48 kHz stereo, and a
/// lead-in, gap or tail reads silence from ffmpeg's `lavfi` device, so that
/// two silent segments with the same image and length are encoded with the
/// same arguments, whatever their kind.
pub proof fn law_segment_audio_input(
    s: SegmentModel,
    t: SegmentModel,
    output: Seq<char>,
    opts: EncodeOptions,
)
    ensures
        segment_args(s, output, opts).len() == 29,
        segment_args(s, output, opts)[5] == "-i"@,
        segment_args(s, output, opts)[6] == s.image(),
        s matches SegmentModel::Unit { audio, .. } ==> segment_args(s, output, opts).subrange(7, 11)
            == seq!["-i"@, audio, "-af"@, "aresample=48000,aformat=channel_layouts=stereo"@],
        s.kind() != SegmentKind::Unit ==> segment_args(s, output, opts).subrange(7, 11) == seq![
            "-f"@,
            "lavfi"@,
            "-i"@,
            "aevalsrc=0:s=48000:c=stereo"@,
        ],
        s.kind() != SegmentKind::Unit && t.kind() != SegmentKind::Unit && s.image() == t.image()
            && s.duration_ms() == t.duration_ms() ==> segment_args(s, output, opts) == segment_args(
            t,
            output,
            opts,
        ),
{
    let a = segment_args(s, output, opts);
    assert(a.subrange(7, 11) =~= audio_args(s));
    if s.kind() != SegmentKind::Unit && t.kind() != SegmentKind::Unit && s.image() == t.image()
        && s.duration_ms() == t.duration_ms() {
        assert(audio_args(s) == audio_args(t));
        assert(a =~= segment_args(t, output, opts));
    }
}

/// Which executable runs: the caller's path always; otherwise a non-blank
/// environment value, trimmed, whatever lies beside the program; only when
/// the variable is unset or blank the executable beside the program; and the
/// bare name only when there is none of these.
pub proof fn law_binary_precedence(
    explicit: Option<Seq<char>>,
    env_value: Option<Seq<char>>,
    sibling: Option<Seq<char>>,
    other_sibling: Option<Seq<char>>,
    bare: Seq<char>,
)
    ensures
        explicit matches Some(p) ==> chosen_binary(explicit, env_value, sibling, bare) == p,
        (explicit is None && env_value is Some && trim(env_value->0).len() > 0) ==> {
            &&& chosen_binary(explicit, env_value, sibling, bare) == trim(env_value->0)
            &&& chosen_binary(explicit, env_value, sibling, bare) == chosen_binary(
                explicit,
                env_value,
                other_sibling,
                bare,
            )
        },
        explicit is None && (env_value is None || trim(env_value->0).len() == 0) ==> {
            &&& sibling matches Some(p) ==> chosen_binary(explicit, env_value, sibling, bare) == p
            &&& sibling is None ==> chosen_binary(explicit, env_value, sibling, bare) == bare
        },
{
}

} // verus!
