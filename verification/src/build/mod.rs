pub mod machine;

use vstd::prelude::*;
use vstd::std_specs::cmp::PartialEqSpecImpl;

use crate::discover::{Orphan, OrphanKind};
use crate::error::{ErrorKind, VideoGenError};
use crate::ffmpeg::ImageSize;
use crate::log::{push_seconds_tenths, seconds_tenths};
use crate::plan::{total_duration, views, PlanOptions, Segment, SegmentModel};
use crate::text::{
    chars_of, decimal, join, join_strings, push_char, push_decimal, push_str, string_from_chars,
    views_of,
};

verus! {

/// How each segment is encoded.
#[derive(Debug, Clone)]
pub struct EncodeOptions {
    pub fps: u32,
    pub crf: u8,
    pub preset: String,
    pub audio_bitrate: String,
}

impl Default for EncodeOptions {
    fn default() -> (o: Self)
        ensures
            o.fps == 30,
            o.crf == 20,
            o.preset@ == "medium"@,
            o.audio_bitrate@ == "192k"@,
    {
        EncodeOptions {
            fps: 30,
            crf: 20,
            preset: "medium".to_string(),
            audio_bitrate: "192k".to_string(),
        }
    }
}

impl PartialEq for EncodeOptions {
    fn eq(&self, other: &Self) -> (res: bool) {
        self.fps == other.fps && self.crf == other.crf && self.preset == other.preset
            && self.audio_bitrate == other.audio_bitrate
    }
}

impl PartialEqSpecImpl for EncodeOptions {
    open spec fn obeys_eq_spec() -> bool {
        true
    }

    open spec fn eq_spec(&self, other: &Self) -> bool {
        self.fps == other.fps && self.crf == other.crf && self.preset@ == other.preset@
            && self.audio_bitrate@ == other.audio_bitrate@
    }
}

} // verus!

verus! {

/// Paths to ffmpeg and ffprobe chosen by the caller, if any.
#[derive(Debug, Clone)]
pub struct BinaryOptions {
    pub ffmpeg: Option<String>,
    pub ffprobe: Option<String>,
}

impl Default for BinaryOptions {
    fn default() -> (o: Self)
        ensures
            o.ffmpeg is None,
            o.ffprobe is None,
    {
        BinaryOptions { ffmpeg: None, ffprobe: None }
    }
}

/// Everything a build needs to know.
#[derive(Debug, Clone)]
pub struct BuildOptions {
    pub input_dir: String,
    pub output_path: String,
    pub work_dir: String,
    pub keep_temp: bool,
    pub plan: PlanOptions,
    pub encode: EncodeOptions,
    pub binaries: BinaryOptions,
}

/// The video a build wrote: its path, size in bytes and length.
#[derive(Debug, Clone)]
pub struct BuildResult {
    pub output: String,
    pub bytes: u64,
    pub duration_ms: u64,
}

/// The file name of the default output: the input directory's name (or
/// `input` when it has none) with `.mp4`.
pub fn default_output_file_name(input_dir_name: Option<&str>) -> (name: String)
    ensures
        name@ == match input_dir_name {
            Some(n) => n@,
            None => "input"@,
        } + ".mp4"@,
{
    let mut name = String::new();
    match input_dir_name {
        Some(n) => push_str(&mut name, n),
        None => push_str(&mut name, "input"),
    }
    push_str(&mut name, ".mp4");
    name
}

/// Whether a path as typed ends with `/` or `\`.
pub open spec fn ends_with_separator(path: Seq<char>) -> bool {
    path.len() > 0 && (path.last() == '/' || path.last() == '\\')
}

pub fn has_trailing_separator(path: &str) -> (r: bool)
    ensures
        r == ends_with_separator(path@),
{
    let cs = chars_of(path);
    cs.len() > 0 && (cs[cs.len() - 1] == '/' || cs[cs.len() - 1] == '\\')
}

/// Whether the output path names a directory, to which `output.mp4` is
/// added: an existing path is a directory when it is one; a path that does
/// not exist is taken for a directory only when the user gave it and it ends
/// with a separator or has no extension.
pub open spec fn output_names_directory(
    existing_is_dir: Option<bool>,
    user_given: bool,
    path: Seq<char>,
    has_extension: bool,
) -> bool {
    match existing_is_dir {
        Some(d) => d,
        None => user_given && (ends_with_separator(path) || !has_extension),
    }
}

/// Decides whether the output path is a directory. `existing_is_dir` is
/// whether the resolved path is a directory, when it exists; `path` is the
/// path as given; `has_extension` is whether the resolved path has one.
pub fn output_is_directory(
    existing_is_dir: Option<bool>,
    user_given: bool,
    path: &str,
    has_extension: bool,
) -> (r: bool)
    ensures
        r == output_names_directory(existing_is_dir, user_given, path@, has_extension),
{
    match existing_is_dir {
        Some(d) => d,
        None => user_given && (has_trailing_separator(path) || !has_extension),
    }
}

/// The output file for a resolved output path: `output.mp4` inside it when
/// it names a directory, else the path itself.
pub fn output_file_path(resolved: &str, is_directory: bool, sep: char) -> (p: String)
    ensures
        p@ == if is_directory {
            joined_path(resolved@, sep, "output.mp4"@)
        } else {
            resolved@
        },
{
    if is_directory {
        join_path(resolved, sep, "output.mp4")
    } else {
        resolved.to_string()
    }
}

/// Whether `y` is a leap year of the Gregorian calendar.
pub open spec fn is_leap_year(y: nat) -> bool {
    (y % 4 == 0 && y % 100 != 0) || y % 400 == 0
}

/// The number of days in year `y`.
pub open spec fn year_length(y: nat) -> nat {
    if is_leap_year(y) {
        366
    } else {
        365
    }
}

/// The number of days in month `m` (1 to 12) of year `y`.
pub open spec fn month_length(y: nat, m: nat) -> nat {
    if m == 2 {
        if is_leap_year(y) {
            29
        } else {
            28
        }
    } else if m == 4 || m == 6 || m == 9 || m == 11 {
        30
    } else {
        31
    }
}

/// The year of the `d`-th day (from 0) counted from the first of January of
/// year `y`, and the day within that year (from 0).
pub open spec fn year_and_day(d: nat, y: nat) -> (nat, nat)
    decreases d,
{
    if d < year_length(y) {
        (y, d)
    } else {
        year_and_day((d - year_length(y)) as nat, y + 1)
    }
}

/// The month of the `d`-th day (from 0) counted from the first day of month
/// `m` of year `y`, and the day within that month (from 0).
pub open spec fn month_and_day(y: nat, d: nat, m: nat) -> (nat, nat)
    decreases 12 - m,
{
    if m >= 12 || d < month_length(y, m) {
        (m, d)
    } else {
        month_and_day(y, (d - month_length(y, m)) as nat, m + 1)
    }
}

/// `n` in decimal with at least two digits.
pub open spec fn two_digits(n: nat) -> Seq<char> {
    if n < 10 {
        "0"@ + decimal(n)
    } else {
        decimal(n)
    }
}

/// `n` in decimal with at least four digits.
pub open spec fn four_digits(n: nat) -> Seq<char> {
    if n < 10 {
        "000"@ + decimal(n)
    } else if n < 100 {
        "00"@ + decimal(n)
    } else if n < 1000 {
        "0"@ + decimal(n)
    } else {
        decimal(n)
    }
}

/// The name of a build's temporary directory, `build-YYYYMMDD-HHMMSS`: the
/// date and time, in UTC, that lie `seconds` after the Unix epoch.
pub open spec fn run_id_text(seconds: nat) -> Seq<char> {
    let t = seconds % 86400;
    let (y, yd) = year_and_day(seconds / 86400, 1970);
    let (m, md) = month_and_day(y, yd, 1);
    "build-"@ + four_digits(y) + two_digits(m) + two_digits(md + 1) + "-"@ + two_digits(t / 3600)
        + two_digits(t % 3600 / 60) + two_digits(t % 60)
}

/// The number of days from the first of January 1970 to that of year `y`.
pub open spec fn days_before_year(y: nat) -> nat
    decreases y,
{
    if y <= 1970 {
        0
    } else {
        days_before_year((y - 1) as nat) + year_length((y - 1) as nat)
    }
}

/// The number of days from the first of January of year `y` to the first
/// day of month `m`.
pub open spec fn days_before_month(y: nat, m: nat) -> nat
    decreases m,
{
    if m <= 1 {
        0
    } else {
        days_before_month(y, (m - 1) as nat) + month_length(y, (m - 1) as nat)
    }
}

proof fn lemma_year_and_day(d: nat, y0: nat)
    requires
        y0 >= 1970,
    ensures
        ({
            let (y, yd) = year_and_day(d, y0);
            &&& y >= y0
            &&& yd < year_length(y)
            &&& days_before_year(y) + yd == days_before_year(y0) + d
        }),
    decreases d,
{
    if d >= year_length(y0) {
        lemma_year_and_day((d - year_length(y0)) as nat, y0 + 1);
    }
}

proof fn lemma_month_and_day(y: nat, d: nat, m0: nat)
    requires
        1 <= m0 <= 12,
        d + days_before_month(y, m0) < year_length(y),
    ensures
        ({
            let (m, md) = month_and_day(y, d, m0);
            &&& m0 <= m <= 12
            &&& md < month_length(y, m)
            &&& days_before_month(y, m) + md == days_before_month(y, m0) + d
        }),
    decreases 12 - m0,
{
    if m0 >= 12 {
        assert(days_before_month(y, 12) + 31 == year_length(y)) by {
            reveal_with_fuel(days_before_month, 12);
        }
    } else if d >= month_length(y, m0) {
        lemma_month_and_day(y, (d - month_length(y, m0)) as nat, m0 + 1);
    }
}

/// The date in a run id is the day that lies `seconds / 86400` days after the
/// first of January 1970: a real month, a day within it, and exactly that
/// many days counted from the epoch.
pub proof fn law_run_id_names_the_day(seconds: nat)
    ensures
        ({
            let (y, yd) = year_and_day(seconds / 86400, 1970);
            let (m, md) = month_and_day(y, yd, 1);
            &&& y >= 1970
            &&& 1 <= m <= 12
            &&& md < month_length(y, m)
            &&& days_before_year(y) + days_before_month(y, m) + md == seconds / 86400
        }),
{
    let days = seconds / 86400;
    lemma_year_and_day(days, 1970);
    let (y, yd) = year_and_day(days, 1970);
    lemma_month_and_day(y, yd, 1);
}

fn leap_year(y: u64) -> (r: bool)
    ensures
        r == is_leap_year(y as nat),
{
    (y % 4 == 0 && y % 100 != 0) || y % 400 == 0
}

fn year_len(y: u64) -> (n: u64)
    ensures
        n == year_length(y as nat),
{
    if leap_year(y) {
        366
    } else {
        365
    }
}

fn month_len(y: u64, m: u64) -> (n: u64)
    ensures
        n == month_length(y as nat, m as nat),
{
    if m == 2 {
        if leap_year(y) {
            29
        } else {
            28
        }
    } else if m == 4 || m == 6 || m == 9 || m == 11 {
        30
    } else {
        31
    }
}

fn push_two_digits(out: &mut String, n: u64)
    requires
        n < 100,
    ensures
        final(out)@ == old(out)@ + two_digits(n as nat),
{
    if n < 10 {
        push_str(out, "0");
    }
    push_decimal(out, n);
}

fn push_four_digits(out: &mut String, n: u64)
    ensures
        final(out)@ == old(out)@ + four_digits(n as nat),
{
    if n < 10 {
        push_str(out, "000");
    } else if n < 100 {
        push_str(out, "00");
    } else if n < 1000 {
        push_str(out, "0");
    }
    push_decimal(out, n);
}

/// The name of a build's temporary directory for a build that starts
/// `seconds` after the Unix epoch: `build-` and the UTC date and time, as
/// `YYYYMMDD-HHMMSS`.
pub fn make_run_id(seconds: u64) -> (id: String)
    ensures
        id@ == run_id_text(seconds as nat),
{
    let days = seconds / 86400;
    let t = seconds % 86400;
    let mut y: u64 = 1970;
    let mut d: u64 = days;
    while d >= year_len(y)
        invariant
            days == seconds / 86400,
            1970 <= y,
            d <= days,
            y - 1970 <= days - d,
            year_and_day(days as nat, 1970) == year_and_day(d as nat, y as nat),
        decreases d,
    {
        d = d - year_len(y);
        y = y + 1;
    }
    let mut m: u64 = 1;
    let mut md: u64 = d;
    while m < 12 && md >= month_len(y, m)
        invariant
            1 <= m <= 12,
            md <= d,
            month_and_day(y as nat, d as nat, 1) == month_and_day(y as nat, md as nat, m as nat),
        decreases 12 - m,
    {
        md = md - month_len(y, m);
        m = m + 1;
    }
    let mut id = String::new();
    push_str(&mut id, "build-");
    push_four_digits(&mut id, y);
    push_two_digits(&mut id, m);
    assert(md < 31) by {
        law_run_id_names_the_day(seconds as nat);
    }
    push_two_digits(&mut id, md + 1);
    push_str(&mut id, "-");
    push_two_digits(&mut id, t / 3600);
    push_two_digits(&mut id, t % 3600 / 60);
    push_two_digits(&mut id, t % 60);
    id
}

/// `n` in decimal, padded with leading zeros to at least three digits.
pub open spec fn padded3(n: nat) -> Seq<char> {
    if n < 10 {
        "00"@ + decimal(n)
    } else if n < 100 {
        "0"@ + decimal(n)
    } else {
        decimal(n)
    }
}

/// The name of the `index`-th segment (counting from 1): `seg_001`, `seg_002`, ...
pub open spec fn segment_name(index: nat) -> Seq<char> {
    "seg_"@ + padded3(index)
}

pub fn segment_name_of(index: u64) -> (name: String)
    ensures
        name@ == segment_name(index as nat),
{
    let mut name = String::new();
    push_str(&mut name, "seg_");
    if index < 10 {
        push_str(&mut name, "00");
    } else if index < 100 {
        push_str(&mut name, "0");
    }
    push_decimal(&mut name, index);
    name
}

/// A directory and a name in it, joined by `sep` unless the directory is
/// empty or already ends with a separator.
pub open spec fn joined_path(dir: Seq<char>, sep: char, name: Seq<char>) -> Seq<char> {
    if dir.len() == 0 || dir.last() == sep || dir.last() == '/' {
        dir + name
    } else {
        dir + seq![sep] + name
    }
}

pub fn join_path(dir: &str, sep: char, name: &str) -> (p: String)
    ensures
        p@ == joined_path(dir@, sep, name@),
{
    let cs = chars_of(dir);
    let mut p = dir.to_string();
    if !(cs.len() == 0 || cs[cs.len() - 1] == sep || cs[cs.len() - 1] == '/') {
        push_char(&mut p, sep);
    }
    push_str(&mut p, name);
    p
}

/// The last component of a path: what follows its last separator.
pub open spec fn last_component(path: Seq<char>, sep: char) -> Seq<char>
    decreases path.len(),
{
    if path.len() == 0 {
        path
    } else if path.last() == sep || path.last() == '/' {
        Seq::empty()
    } else {
        last_component(path.drop_last(), sep).push(path.last())
    }
}

pub fn last_component_of(path: &str, sep: char) -> (name: String)
    ensures
        name@ == last_component(path@, sep),
{
    let cs = chars_of(path);
    let mut start: usize = 0;
    let mut i: usize = 0;
    assert(cs@.take(0) =~= Seq::<char>::empty());
    while i < cs.len()
        invariant
            start <= i <= cs@.len(),
            last_component(cs@.take(i as int), sep) == cs@.subrange(start as int, i as int),
        decreases cs@.len() - i,
    {
        assert(cs@.take(i + 1).drop_last() =~= cs@.take(i as int));
        if cs[i] == sep || cs[i] == '/' {
            start = i + 1;
        }
        assert(last_component(cs@.take(i + 1), sep) =~= cs@.subrange(start as int, i + 1));
        i = i + 1;
    }
    assert(cs@.take(cs@.len() as int) =~= cs@);
    string_from_chars(&cs, start, cs.len())
}

} // verus!

verus! {

/// The plan line's summary: the lead-in, the unit count, the gaps and the
/// tail, the zero parts left out, joined by `, `.
pub open spec fn plan_summary_parts(opts: PlanOptions, units: nat) -> Seq<Seq<char>> {
    let gaps: nat = if opts.gap_ms > 0 && units > 1 { (units - 1) as nat } else { 0 };
    (if opts.lead_in_ms > 0 {
        seq!["lead-in "@ + seconds_tenths(opts.lead_in_ms as nat) + "s"@]
    } else {
        Seq::empty()
    }) + seq![decimal(units) + "x unit"@] + (if gaps > 0 {
        seq![decimal(gaps) + "x gap "@ + seconds_tenths(opts.gap_ms as nat) + "s"@]
    } else {
        Seq::empty()
    }) + (if opts.tail_ms > 0 {
        seq!["tail "@ + seconds_tenths(opts.tail_ms as nat) + "s"@]
    } else {
        Seq::empty()
    })
}

pub open spec fn plan_summary(opts: PlanOptions, units: nat) -> Seq<char> {
    join(plan_summary_parts(opts, units), ", "@)
}

pub fn plan_summary_of(opts: &PlanOptions, units: u64) -> (s: String)
    ensures
        s@ == plan_summary(*opts, units as nat),
{
    let mut parts: Vec<String> = Vec::new();
    if opts.lead_in_ms > 0 {
        let mut p = String::new();
        push_str(&mut p, "lead-in ");
        push_seconds_tenths(&mut p, opts.lead_in_ms);
        push_str(&mut p, "s");
        parts.push(p);
    }
    let mut u = String::new();
    push_decimal(&mut u, units);
    push_str(&mut u, "x unit");
    parts.push(u);
    if opts.gap_ms > 0 && units > 1 {
        let mut g = String::new();
        push_decimal(&mut g, units - 1);
        push_str(&mut g, "x gap ");
        push_seconds_tenths(&mut g, opts.gap_ms);
        push_str(&mut g, "s");
        parts.push(g);
    }
    if opts.tail_ms > 0 {
        let mut t = String::new();
        push_str(&mut t, "tail ");
        push_seconds_tenths(&mut t, opts.tail_ms);
        push_str(&mut t, "s");
        parts.push(t);
    }
    assert(views_of(parts@) =~= plan_summary_parts(*opts, units as nat));
    join_strings(&parts, ", ")
}

/// A number, or `u64::MAX` when it is larger.
pub open spec fn capped(x: int) -> u64 {
    if x > u64::MAX {
        u64::MAX
    } else if x < 0 {
        0
    } else {
        x as u64
    }
}

/// The summed duration of segments, capped at `u64::MAX`.
pub fn total_ms_of(segments: &Vec<Segment>) -> (t: u64)
    ensures
        t == capped(total_duration(views(segments@))),
{
    let ghost s = views(segments@);
    let mut t: u64 = 0;
    let mut i: usize = 0;
    assert(s.take(0) =~= Seq::<SegmentModel>::empty());
    while i < segments.len()
        invariant
            s == views(segments@),
            i <= s.len(),
            t == capped(total_duration(s.take(i as int))),
            total_duration(s.take(i as int)) >= 0,
        decreases s.len() - i,
    {
        let d = segments[i].duration_ms();
        assert(s.take(i + 1).drop_last() =~= s.take(i as int));
        assert(s.take(i + 1).last() == s[i as int]);
        if t > u64::MAX - d {
            t = u64::MAX;
        } else {
            t = t + d;
        }
        i = i + 1;
    }
    assert(s.take(s.len() as int) =~= s);
    t
}

/// The warning for a file that has no partner.
pub open spec fn orphan_warning(o: Orphan, sep: char) -> Seq<char> {
    "orphan: "@ + last_component(o.path@, sep) + match o.kind {
        OrphanKind::Image => " (no audio)"@,
        OrphanKind::Audio => " (no image)"@,
    }
}

pub fn orphan_warning_of(o: &Orphan, sep: char) -> (s: String)
    ensures
        s@ == orphan_warning(*o, sep),
{
    let mut s = String::new();
    push_str(&mut s, "orphan: ");
    let name = last_component_of(o.path.as_str(), sep);
    push_str(&mut s, name.as_str());
    match o.kind {
        OrphanKind::Image => push_str(&mut s, " (no audio)"),
        OrphanKind::Audio => push_str(&mut s, " (no image)"),
    }
    s
}

/// The message for an image whose size differs from the first image's.
pub open spec fn mismatch_message(
    expected: ImageSize,
    first: Seq<char>,
    got: ImageSize,
    other: Seq<char>,
    sep: char,
) -> Seq<char> {
    "image dimensions mismatch:\n  expected "@ + decimal(expected.width as nat) + "x"@ + decimal(
        expected.height as nat,
    ) + " (from "@ + last_component(first, sep) + ")\n  got      "@ + decimal(got.width as nat)
        + "x"@ + decimal(got.height as nat) + "  in    "@ + last_component(other, sep)
}

pub fn mismatch_error(
    expected: ImageSize,
    first: &str,
    got: ImageSize,
    other: &str,
    sep: char,
) -> (e: VideoGenError)
    ensures
        e.spec_kind() == ErrorKind::User,
        e.spec_message() == mismatch_message(expected, first@, got, other@, sep),
{
    let mut s = String::new();
    push_str(&mut s, "image dimensions mismatch:\n  expected ");
    push_decimal(&mut s, expected.width);
    push_str(&mut s, "x");
    push_decimal(&mut s, expected.height);
    push_str(&mut s, " (from ");
    let a = last_component_of(first, sep);
    push_str(&mut s, a.as_str());
    push_str(&mut s, ")\n  got      ");
    push_decimal(&mut s, got.width);
    push_str(&mut s, "x");
    push_decimal(&mut s, got.height);
    push_str(&mut s, "  in    ");
    let b = last_component_of(other, sep);
    push_str(&mut s, b.as_str());
    VideoGenError::user(s)
}

} // verus!
