use vstd::prelude::*;

use crate::build::{
    capped, joined_path, mismatch_error, mismatch_message, orphan_warning, orphan_warning_of,
    plan_summary, plan_summary_of, segment_name, segment_name_of, join_path, total_ms_of,
    BuildOptions, BuildResult, EncodeOptions,
};
use crate::discover::{DiscoverResult, Pair};
use crate::error::{ErrorKind, VideoGenError};
use crate::ffmpeg::{
    audio_probe_args, audio_probe_argv, concat_args, concat_argv, concat_list_content,
    concat_list_text, first_stream, image_probe_args, image_probe_argv, image_size_from_probe,
    segment_args, segment_argv, strs, ImageSize, ProbeData,
};
use crate::log::{event_views, BuildEvent, EventModel, SegmentStatus};
use crate::plan::{
    count_units, plan_segments, planned, total_duration, views, Segment, SegmentKind, SegmentModel,
    Unit, PlanOptions,
};
use crate::text::push_str;

verus! {

/// Where a build stands.
#[derive(Debug, Clone, Copy, PartialEq, Eq, Structural)]
pub enum Phase {
    ProbingImages,
    ProbingAudio,
    CreatingDir,
    Encoding,
    WritingList,
    Concatenating,
    RemovingDir,
    Finished,
    Failed,
}

/// Outside work that the build asks its caller to do.
#[derive(Debug)]
pub enum Job {
    /// Run ffprobe with these arguments and report `ImageProbed`.
    ProbeImage { argv: Vec<String> },
    /// Run ffprobe with these arguments and report `AudioProbed`.
    ProbeAudio { argv: Vec<String> },
    /// Create this directory and its parents, and report `DirCreated`.
    CreateDir { path: String },
    /// Run ffmpeg with these arguments and report `Encoded`.
    Encode { argv: Vec<String> },
    /// Write this file and report `FileWritten`.
    WriteFile { path: String, content: String },
    /// Create the output's directory, run ffmpeg with these arguments, and
    /// report `Concatenated` with the output's size.
    Concat { argv: Vec<String>, output: String },
    /// Remove this directory and everything in it, and report `DirRemoved`.
    RemoveDir { path: String },
    /// The build is done.
    Finish(BuildResult),
    /// The build failed.
    Fail(VideoGenError),
}

/// What became of a job.
#[derive(Debug)]
pub enum Outcome {
    ImageProbed(Result<ProbeData, VideoGenError>),
    AudioProbed(Result<u64, VideoGenError>),
    DirCreated(Result<(), VideoGenError>),
    Encoded { result: Result<(), VideoGenError>, elapsed_ms: u64 },
    FileWritten(Result<(), VideoGenError>),
    Concatenated { result: Result<u64, VideoGenError>, elapsed_ms: u64 },
    DirRemoved { result: Result<(), VideoGenError>, elapsed_ms: u64 },
}

/// The events to report, and the next job.
#[derive(Debug)]
pub struct Reaction {
    pub events: Vec<BuildEvent>,
    pub job: Job,
}

/// The state of a build between two jobs.
#[derive(Debug)]
pub struct BuildMachine {
    pub pairs: Vec<Pair>,
    pub output: String,
    pub run_dir: String,
    pub sep: char,
    pub keep_temp: bool,
    pub plan: PlanOptions,
    pub encode: EncodeOptions,
    pub sizes: Vec<ImageSize>,
    pub durations: Vec<u64>,
    pub units: Vec<Unit>,
    pub segments: Vec<Segment>,
    pub total_ms: u64,
    pub encoded: usize,
    pub units_encoded: usize,
    pub bytes: u64,
    pub phase: Phase,
}

/// The units are the pairs with their audio durations, in order.
pub open spec fn units_match(units: Seq<Unit>, pairs: Seq<Pair>, durations: Seq<u64>) -> bool {
    &&& units.len() == pairs.len()
    &&& durations.len() == pairs.len()
    &&& forall|i: int|
        0 <= i < units.len() ==> {
            &&& (#[trigger] units[i]).basename@ == pairs[i].basename@
            &&& units[i].image_path@ == pairs[i].image@
            &&& units[i].audio_path@ == pairs[i].audio@
            &&& units[i].audio_duration_ms == durations[i]
        }
}

/// The file of the `i`-th segment (counting from 0).
pub open spec fn segment_file(i: int) -> Seq<char> {
    segment_name((i + 1) as nat) + ".mp4"@
}

pub open spec fn segment_files(n: int) -> Seq<Seq<char>> {
    Seq::new(n as nat, |i: int| segment_file(i))
}

pub open spec fn after_probe_phase(p: Phase) -> bool {
    p == Phase::CreatingDir || p == Phase::Encoding || p == Phase::WritingList || p
        == Phase::Concatenating || p == Phase::RemovingDir || p == Phase::Finished
}

impl BuildMachine {
    pub open spec fn n(self) -> int {
        self.pairs@.len() as int
    }

    pub open spec fn segs(self) -> Seq<SegmentModel> {
        views(self.segments@)
    }

    pub open spec fn segment_path(self, i: int) -> Seq<char> {
        joined_path(self.run_dir@, self.sep, segment_file(i))
    }

    pub open spec fn list_path(self) -> Seq<char> {
        joined_path(self.run_dir@, self.sep, "concat.txt"@)
    }

    /// The arguments that encode the `i`-th segment into its file.
    pub open spec fn encode_args(self, i: int) -> Seq<Seq<char>> {
        segment_args(self.segs()[i], self.segment_path(i), self.encode)
    }

    /// What a build keeps true between jobs.
    pub open spec fn wf(self) -> bool {
        &&& self.sizes@.len() <= self.n()
        &&& self.durations@.len() <= self.n()
        &&& forall|i: int| 0 <= i < self.sizes@.len() ==> #[trigger] self.sizes@[i] == self.sizes@[0]
        &&& self.phase == Phase::ProbingImages ==> self.sizes@.len() < self.n()
            && self.durations@.len() == 0
        &&& self.phase == Phase::ProbingAudio ==> self.sizes@.len() == self.n()
            && self.durations@.len() < self.n()
        &&& after_probe_phase(self.phase) ==> {
            &&& self.n() > 0
            &&& self.sizes@.len() == self.n()
            &&& units_match(self.units@, self.pairs@, self.durations@)
            &&& self.segs() == planned(self.units@, self.plan)
            &&& self.segs().len() > 0
            &&& self.segments@.len() <= usize::MAX
            &&& self.total_ms == capped(total_duration(self.segs()))
        }
        &&& self.phase == Phase::Encoding ==> self.encoded < self.segs().len()
            && self.units_encoded == count_units(self.segs().take(self.encoded as int))
        &&& (self.phase == Phase::WritingList || self.phase == Phase::Concatenating || self.phase
            == Phase::RemovingDir || self.phase == Phase::Finished) ==> self.encoded
            == self.segs().len()
    }

    /// The outcome answers the job that the build last asked for.
    pub open spec fn accepts(self, o: Outcome) -> bool {
        match o {
            Outcome::ImageProbed(_) => self.phase == Phase::ProbingImages,
            Outcome::AudioProbed(_) => self.phase == Phase::ProbingAudio,
            Outcome::DirCreated(_) => self.phase == Phase::CreatingDir,
            Outcome::Encoded { .. } => self.phase == Phase::Encoding,
            Outcome::FileWritten(_) => self.phase == Phase::WritingList,
            Outcome::Concatenated { .. } => self.phase == Phase::Concatenating,
            Outcome::DirRemoved { .. } => self.phase == Phase::RemovingDir,
        }
    }

    /// Whether the outcome answers the job that the build last asked for.
    pub fn accepts_outcome(&self, o: &Outcome) -> (r: bool)
        ensures
            r == self.accepts(*o),
    {
        match o {
            Outcome::ImageProbed(_) => self.phase == Phase::ProbingImages,
            Outcome::AudioProbed(_) => self.phase == Phase::ProbingAudio,
            Outcome::DirCreated(_) => self.phase == Phase::CreatingDir,
            Outcome::Encoded { .. } => self.phase == Phase::Encoding,
            Outcome::FileWritten(_) => self.phase == Phase::WritingList,
            Outcome::Concatenated { .. } => self.phase == Phase::Concatenating,
            Outcome::DirRemoved { .. } => self.phase == Phase::RemovingDir,
        }
    }

    /// Once probing is over, what was probed and planned stays as it is.
    pub open spec fn same_timeline(self, other: Self) -> bool {
        &&& self.sizes == other.sizes
        &&& self.durations == other.durations
        &&& self.units == other.units
        &&& self.segments == other.segments
        &&& self.total_ms == other.total_ms
    }

    /// The configuration does not change while the build runs.
    pub open spec fn same_config(self, other: Self) -> bool {
        &&& self.pairs == other.pairs
        &&& self.output == other.output
        &&& self.run_dir == other.run_dir
        &&& self.sep == other.sep
        &&& self.keep_temp == other.keep_temp
        &&& self.plan == other.plan
        &&& self.encode == other.encode
    }
}

/// After a probe the build asks for the next probe; once every file is
/// probed it lays out the timeline, reports it, and asks for the run
/// directory (or fails when there is no unit).
pub open spec fn advanced(m: BuildMachine, r: Reaction) -> bool {
    let n = m.n();
    if m.sizes@.len() < n {
        &&& m.phase == Phase::ProbingImages
        &&& r.events@.len() == 0
        &&& r.job matches Job::ProbeImage { argv } && strs(argv@) == image_probe_args(
            m.pairs@[m.sizes@.len() as int].image@,
        )
    } else if m.durations@.len() < n {
        &&& m.phase == Phase::ProbingAudio
        &&& r.events@.len() == 0
        &&& r.job matches Job::ProbeAudio { argv } && strs(argv@) == audio_probe_args(
            m.pairs@[m.durations@.len() as int].audio@,
        )
    } else if n == 0 {
        &&& m.phase == Phase::Failed
        &&& r.events@.len() == 0
        &&& r.job matches Job::Fail(e) && e.spec_kind() == ErrorKind::User && e.spec_message()
            == "plan: requires at least one unit"@
    } else {
        &&& m.phase == Phase::CreatingDir
        &&& m.encoded == 0
        &&& event_views(r.events@) == seq![
            EventModel::Plan {
                segments: m.segments@.len() as usize,
                total_ms: m.total_ms,
                summary: plan_summary(m.plan, n as nat),
            },
        ]
        &&& r.job matches Job::CreateDir { path } && path@ == m.run_dir@
    }
}

/// The event that reports the `k`-th segment's encoding.
pub open spec fn segment_event(m: BuildMachine, k: int, elapsed_ms: u64, status: SegmentStatus) -> EventModel {
    let s = m.segs()[k];
    EventModel::Segment {
        index: (k + 1) as usize,
        total: m.segs().len() as usize,
        name: segment_name((k + 1) as nat),
        kind: s.kind(),
        basename: if s.kind() == SegmentKind::Unit {
            Some(m.units@[m.units_encoded as int].basename@)
        } else {
            None
        },
        duration_ms: s.duration_ms(),
        elapsed_ms,
        status,
    }
}

pub open spec fn fails_with(new: BuildMachine, r: Reaction, e: VideoGenError, events: Seq<EventModel>) -> bool {
    &&& new.phase == Phase::Failed
    &&& event_views(r.events@) =~= events
    &&& r.job == Job::Fail(e)
}

pub open spec fn finishes(new: BuildMachine, r: Reaction) -> bool {
    &&& new.phase == Phase::Finished
    &&& r.job matches Job::Finish(res) && res.output@ == new.output@ && res.bytes == new.bytes
        && res.duration_ms == new.total_ms
}

/// How the build answers an outcome: the next state, the events and the job.
pub open spec fn reacts(old: BuildMachine, o: Outcome, new: BuildMachine, r: Reaction) -> bool {
    &&& new.same_config(old)
    &&& !(o is ImageProbed || o is AudioProbed) ==> new.same_timeline(old)
    &&& match o {
        Outcome::ImageProbed(Err(e)) => fails_with(new, r, e, Seq::empty()),
        Outcome::ImageProbed(Ok(data)) => match first_stream(data) {
            Some(st) if st.width is Some && st.height is Some => {
                let size = ImageSize { width: st.width->0, height: st.height->0 };
                let k = old.sizes@.len() as int;
                if k > 0 && size != old.sizes@[0] {
                    &&& new.phase == Phase::Failed
                    &&& r.events@.len() == 0
                    &&& r.job matches Job::Fail(e) && e.spec_kind() == ErrorKind::User
                        && e.spec_message() == mismatch_message(
                        old.sizes@[0],
                        old.pairs@[0].image@,
                        size,
                        old.pairs@[k].image@,
                        old.sep,
                    )
                } else {
                    &&& new.sizes@ == old.sizes@.push(size)
                    &&& new.durations@ == old.durations@
                    &&& advanced(new, r)
                }
            },
            _ => {
                &&& new.phase == Phase::Failed
                &&& r.events@.len() == 0
                &&& r.job matches Job::Fail(e) && e.spec_kind() == ErrorKind::Runtime
                    && e.spec_message() == "ffprobe: missing image dimensions"@
            },
        },
        Outcome::AudioProbed(Err(e)) => fails_with(new, r, e, Seq::empty()),
        Outcome::AudioProbed(Ok(ms)) => {
            &&& new.sizes@ == old.sizes@
            &&& new.durations@ == old.durations@.push(ms)
            &&& advanced(new, r)
        },
        Outcome::DirCreated(Err(e)) => fails_with(new, r, e, Seq::empty()),
        Outcome::DirCreated(Ok(_)) => {
            &&& new.phase == Phase::Encoding
            &&& new.encoded == 0
            &&& r.events@.len() == 0
            &&& r.job matches Job::Encode { argv } && strs(argv@) == new.encode_args(0)
        },
        Outcome::Encoded { result: Err(e), elapsed_ms } => fails_with(
            new,
            r,
            e,
            seq![segment_event(old, old.encoded as int, elapsed_ms, SegmentStatus::Fail)],
        ),
        Outcome::Encoded { result: Ok(_), elapsed_ms } => {
            let k = old.encoded as int;
            &&& new.encoded == k + 1
            &&& event_views(r.events@) == seq![
                segment_event(old, k, elapsed_ms, SegmentStatus::Okay),
            ]
            &&& if k + 1 < old.segs().len() {
                &&& new.phase == Phase::Encoding
                &&& r.job matches Job::Encode { argv } && strs(argv@) == new.encode_args(k + 1)
            } else {
                &&& new.phase == Phase::WritingList
                &&& r.job matches Job::WriteFile { path, content } && path@ == new.list_path()
                    && content@ == concat_list_text(segment_files(old.segs().len() as int))
            }
        },
        Outcome::FileWritten(Err(e)) => fails_with(new, r, e, Seq::empty()),
        Outcome::FileWritten(Ok(_)) => {
            &&& new.phase == Phase::Concatenating
            &&& r.events@.len() == 0
            &&& r.job matches Job::Concat { argv, output } && strs(argv@) == concat_args(
                new.list_path(),
                new.output@,
            ) && output@ == new.output@
        },
        Outcome::Concatenated { result: Err(e), .. } => fails_with(new, r, e, Seq::empty()),
        Outcome::Concatenated { result: Ok(bytes), elapsed_ms } => {
            let concat = EventModel::Concat {
                output: old.output@,
                bytes,
                duration_ms: old.total_ms,
            };
            &&& new.bytes == bytes
            &&& new.total_ms == old.total_ms
            &&& if old.keep_temp {
                &&& finishes(new, r)
                &&& event_views(r.events@) == seq![
                    concat,
                    EventModel::Done {
                        output: old.output@,
                        bytes,
                        duration_ms: old.total_ms,
                        elapsed_ms,
                    },
                ]
            } else {
                &&& new.phase == Phase::RemovingDir
                &&& event_views(r.events@) == seq![concat]
                &&& r.job matches Job::RemoveDir { path } && path@ == old.run_dir@
            }
        },
        Outcome::DirRemoved { result: Err(e), .. } => fails_with(new, r, e, Seq::empty()),
        Outcome::DirRemoved { result: Ok(_), elapsed_ms } => {
            &&& new.bytes == old.bytes
            &&& new.total_ms == old.total_ms
            &&& finishes(new, r)
            &&& event_views(r.events@) == seq![
                EventModel::Done {
                    output: old.output@,
                    bytes: old.bytes,
                    duration_ms: old.total_ms,
                    elapsed_ms,
                },
            ]
        },
    }
}

} // verus!

verus! {

/// The warnings for the orphans, in order.
pub open spec fn orphan_warnings(orphans: Seq<crate::discover::Orphan>, sep: char) -> Seq<EventModel> {
    orphans.map_values(|o: crate::discover::Orphan| EventModel::Warn { message: orphan_warning(o, sep) })
}

fn segment_file_of(i: usize) -> (s: String)
    requires
        i < u64::MAX,
    ensures
        s@ == segment_file(i as int),
{
    let mut s = segment_name_of((i as u64) + 1);
    push_str(&mut s, ".mp4");
    s
}

impl BuildMachine {
    /// Starts a build of the discovered pairs: reports what was found and
    /// warns of each orphan, then asks for the first image's probe.
    /// `run_dir` is the build's temporary directory; `sep` the platform's
    /// path separator.
    pub fn start(found: DiscoverResult, options: BuildOptions, run_dir: String, sep: char) -> (res: (
        BuildMachine,
        Reaction,
    ))
        ensures
            res.0.wf(),
            res.0.pairs == found.pairs,
            res.0.output == options.output_path,
            res.0.run_dir == run_dir,
            res.0.sep == sep,
            res.0.keep_temp == options.keep_temp,
            res.0.plan == options.plan,
            res.0.encode == options.encode,
            res.0.sizes@.len() == 0,
            res.0.durations@.len() == 0,
            ({
                let discovered = seq![
                    EventModel::Discover {
                        units: found.pairs@.len() as usize,
                        orphans: found.orphans@.len() as usize,
                    },
                ] + orphan_warnings(found.orphans@, sep);
                if found.pairs@.len() > 0 {
                    &&& res.0.phase == Phase::ProbingImages
                    &&& event_views(res.1.events@) == discovered
                    &&& res.1.job matches Job::ProbeImage { argv } && strs(argv@)
                        == image_probe_args(found.pairs@[0].image@)
                } else {
                    &&& res.0.phase == Phase::Failed
                    &&& event_views(res.1.events@) == discovered
                    &&& res.1.job matches Job::Fail(e) && e.spec_kind() == ErrorKind::User
                        && e.spec_message() == "plan: requires at least one unit"@
                }
            }),
    {
        let mut events: Vec<BuildEvent> = Vec::new();
        events.push(BuildEvent::Discover { units: found.pairs.len(), orphans: found.orphans.len() });
        let mut i: usize = 0;
        while i < found.orphans.len()
            invariant
                i <= found.orphans@.len(),
                event_views(events@) == seq![
                    EventModel::Discover {
                        units: found.pairs@.len() as usize,
                        orphans: found.orphans@.len() as usize,
                    },
                ] + orphan_warnings(found.orphans@.take(i as int), sep),
            decreases found.orphans@.len() - i,
        {
            let w = orphan_warning_of(&found.orphans[i], sep);
            let ghost prev = event_views(events@);
            events.push(BuildEvent::Warn { message: w });
            assert(event_views(events@) =~= prev.push(
                EventModel::Warn { message: orphan_warning(found.orphans@[i as int], sep) },
            ));
            assert(found.orphans@.take(i + 1) =~= found.orphans@.take(i as int).push(found.orphans@[i as int]));
            assert(orphan_warnings(found.orphans@.take(i + 1), sep) =~= orphan_warnings(
                found.orphans@.take(i as int),
                sep,
            ).push(EventModel::Warn { message: orphan_warning(found.orphans@[i as int], sep) }));
            assert(event_views(events@) =~= seq![
                EventModel::Discover {
                    units: found.pairs@.len() as usize,
                    orphans: found.orphans@.len() as usize,
                },
            ] + orphan_warnings(found.orphans@.take(i + 1), sep));
            i = i + 1;
        }
        assert(found.orphans@.take(found.orphans@.len() as int) =~= found.orphans@);
        let n = found.pairs.len();
        let job = if n > 0 {
            Job::ProbeImage { argv: image_probe_argv(found.pairs[0].image.as_str()) }
        } else {
            Job::Fail(VideoGenError::user("plan: requires at least one unit".to_string()))
        };
        let m = BuildMachine {
            pairs: found.pairs,
            output: options.output_path,
            run_dir,
            sep,
            keep_temp: options.keep_temp,
            plan: options.plan,
            encode: options.encode,
            sizes: Vec::new(),
            durations: Vec::new(),
            units: Vec::new(),
            segments: Vec::new(),
            total_ms: 0,
            encoded: 0,
            units_encoded: 0,
            bytes: 0,
            phase: if n > 0 { Phase::ProbingImages } else { Phase::Failed },
        };
        (m, Reaction { events, job })
    }

    fn fail(&mut self, e: VideoGenError, events: Vec<BuildEvent>) -> (r: Reaction)
        ensures
            final(self).phase == Phase::Failed,
            final(self).same_config(*old(self)),
            final(self).same_timeline(*old(self)),
            r.events == events,
            r.job == Job::Fail(e),
    {
        self.phase = Phase::Failed;
        Reaction { events, job: Job::Fail(e) }
    }

    /// Asks for the next probe, or lays out the timeline once all are in.
    fn advance(&mut self) -> (r: Reaction)
        requires
            old(self).sizes@.len() <= old(self).n(),
            old(self).durations@.len() <= old(self).n(),
            old(self).sizes@.len() < old(self).n() ==> old(self).durations@.len() == 0,
            forall|i: int|
                0 <= i < old(self).sizes@.len() ==> #[trigger] old(self).sizes@[i]
                    == old(self).sizes@[0],
        ensures
            final(self).wf(),
            final(self).same_config(*old(self)),
            final(self).sizes == old(self).sizes,
            final(self).durations == old(self).durations,
            advanced(*final(self), r),
    {
        let n = self.pairs.len();
        if self.sizes.len() < n {
            self.phase = Phase::ProbingImages;
            let argv = image_probe_argv(self.pairs[self.sizes.len()].image.as_str());
            return Reaction { events: Vec::new(), job: Job::ProbeImage { argv } };
        }
        if self.durations.len() < n {
            self.phase = Phase::ProbingAudio;
            let argv = audio_probe_argv(self.pairs[self.durations.len()].audio.as_str());
            return Reaction { events: Vec::new(), job: Job::ProbeAudio { argv } };
        }
        let mut units: Vec<Unit> = Vec::new();
        let mut i: usize = 0;
        while i < n
            invariant
                n == self.pairs@.len(),
                self.durations@.len() == n,
                i <= n,
                units@.len() == i,
                forall|j: int|
                    0 <= j < i ==> {
                        &&& (#[trigger] units@[j]).basename@ == self.pairs@[j].basename@
                        &&& units@[j].image_path@ == self.pairs@[j].image@
                        &&& units@[j].audio_path@ == self.pairs@[j].audio@
                        &&& units@[j].audio_duration_ms == self.durations@[j]
                    },
            decreases n - i,
        {
            let p = &self.pairs[i];
            units.push(Unit {
                basename: p.basename.clone(),
                image_path: p.image.clone(),
                audio_path: p.audio.clone(),
                audio_duration_ms: self.durations[i],
            });
            i = i + 1;
        }
        match plan_segments(units.as_slice(), &self.plan) {
            Err(e) => {
                self.phase = Phase::Failed;
                Reaction { events: Vec::new(), job: Job::Fail(e) }
            },
            Ok(segments) => {
                let total_ms = total_ms_of(&segments);
                let summary = plan_summary_of(&self.plan, n as u64);
                let count = segments.len();
                proof {
                    crate::plan::law_plan_segment_count(units@, self.plan);
                }
                self.units = units;
                self.segments = segments;
                self.total_ms = total_ms;
                self.encoded = 0;
                self.units_encoded = 0;
                self.phase = Phase::CreatingDir;
                let mut events: Vec<BuildEvent> = Vec::new();
                events.push(BuildEvent::Plan { segments: count, total_ms, summary });
                assert(event_views(events@) =~= seq![
                    EventModel::Plan {
                        segments: self.segments@.len() as usize,
                        total_ms: self.total_ms,
                        summary: plan_summary(self.plan, n as nat),
                    },
                ]);
                Reaction { events, job: Job::CreateDir { path: self.run_dir.clone() } }
            },
        }
    }
}

} // verus!

verus! {

impl BuildMachine {
    fn segment_event_of(&self, k: usize, elapsed_ms: u64, status: SegmentStatus) -> (e: BuildEvent)
        requires
            self.wf(),
            self.phase == Phase::Encoding,
            k == self.encoded,
        ensures
            e@ == segment_event(*self, k as int, elapsed_ms, status),
    {
        let len = self.segments.len();
        assert(k < len);
        let seg = &self.segments[k];
        let ghost s = self.segs();
        assert(s[k as int] == seg@);
        let kind = seg.kind();
        let basename = if kind == SegmentKind::Unit {
            proof {
                crate::plan::lemma_count_units_prefix(s, k as int);
                crate::plan::law_plan_segment_count(self.units@, self.plan);
            }
            Some(self.units[self.units_encoded].basename.clone())
        } else {
            None
        };
        BuildEvent::Segment {
            index: k + 1,
            total: self.segments.len(),
            name: segment_name_of((k as u64) + 1),
            kind,
            basename,
            duration_ms: seg.duration_ms(),
            elapsed_ms,
            status,
        }
    }

    fn encode_job(&self, k: usize) -> (job: Job)
        requires
            self.wf(),
            after_probe_phase(self.phase),
            k < self.segs().len(),
        ensures
            job matches Job::Encode { argv } && strs(argv@) == self.encode_args(k as int),
    {
        let len = self.segments.len();
        assert(k < len);
        let file = segment_file_of(k);
        let path = join_path(self.run_dir.as_str(), self.sep, file.as_str());
        assert(self.segs()[k as int] == self.segments@[k as int]@);
        Job::Encode { argv: segment_argv(&self.segments[k], path.as_str(), &self.encode) }
    }

    fn list_job(&self) -> (job: Job)
        requires
            self.wf(),
            after_probe_phase(self.phase),
        ensures
            job matches Job::WriteFile { path, content } && path@ == self.list_path()
                && content@ == concat_list_text(segment_files(self.segs().len() as int)),
    {
        let n = self.segments.len();
        assert(n <= usize::MAX);
        let mut names: Vec<String> = Vec::new();
        let mut i: usize = 0;
        while i < n
            invariant
                n == self.segs().len(),
                i <= n,
                strs(names@) == segment_files(i as int),
            decreases n - i,
        {
            let ghost prev = strs(names@);
            let f = segment_file_of(i);
            names.push(f);
            assert(strs(names@) =~= prev.push(segment_file(i as int)));
            assert(strs(names@) =~= segment_files(i + 1));
            i = i + 1;
        }
        let content = concat_list_content(names.as_slice());
        let path = join_path(self.run_dir.as_str(), self.sep, "concat.txt");
        Job::WriteFile { path, content }
    }

    /// Takes the outcome of the last job and answers with the events to report
    /// and the next job.
    pub fn step(&mut self, outcome: Outcome) -> (r: Reaction)
        requires
            old(self).wf(),
            old(self).accepts(outcome),
        ensures
            final(self).wf(),
            reacts(*old(self), outcome, *final(self), r),
    {
        match outcome {
            Outcome::ImageProbed(Err(e)) => self.fail(e, Vec::new()),
            Outcome::ImageProbed(Ok(data)) => {
                match image_size_from_probe(&data) {
                    Err(e) => self.fail(e, Vec::new()),
                    Ok(size) => {
                        let k = self.sizes.len();
                        if k > 0 && size != self.sizes[0] {
                            let e = mismatch_error(
                                self.sizes[0],
                                self.pairs[0].image.as_str(),
                                size,
                                self.pairs[k].image.as_str(),
                                self.sep,
                            );
                            self.fail(e, Vec::new())
                        } else {
                            self.sizes.push(size);
                            self.advance()
                        }
                    },
                }
            },
            Outcome::AudioProbed(Err(e)) => self.fail(e, Vec::new()),
            Outcome::AudioProbed(Ok(ms)) => {
                self.durations.push(ms);
                self.advance()
            },
            Outcome::DirCreated(Err(e)) => self.fail(e, Vec::new()),
            Outcome::DirCreated(Ok(_)) => {
                self.phase = Phase::Encoding;
                self.encoded = 0;
                self.units_encoded = 0;
                assert(self.segs().take(0) =~= Seq::<SegmentModel>::empty());
                let job = self.encode_job(0);
                Reaction { events: Vec::new(), job }
            },
            Outcome::Encoded { result, elapsed_ms } => {
                let k = self.encoded;
                match result {
                    Err(e) => {
                        let ev = self.segment_event_of(k, elapsed_ms, SegmentStatus::Fail);
                        let mut events: Vec<BuildEvent> = Vec::new();
                        events.push(ev);
                        assert(event_views(events@) =~= seq![
                            segment_event(*old(self), k as int, elapsed_ms, SegmentStatus::Fail),
                        ]);
                        self.fail(e, events)
                    },
                    Ok(_) => {
                        let ev = self.segment_event_of(k, elapsed_ms, SegmentStatus::Okay);
                        let mut events: Vec<BuildEvent> = Vec::new();
                        events.push(ev);
                        assert(event_views(events@) =~= seq![
                            segment_event(*old(self), k as int, elapsed_ms, SegmentStatus::Okay),
                        ]);
                        let ghost s = self.segs();
                        let len = self.segments.len();
                        let ulen = self.units.len();
                        proof {
                            crate::plan::lemma_count_units_prefix(s, k as int);
                            crate::plan::law_plan_segment_count(self.units@, self.plan);
                        }
                        if self.segments[k].kind() == SegmentKind::Unit {
                            self.units_encoded = self.units_encoded + 1;
                        }
                        self.encoded = k + 1;
                        if k + 1 < self.segments.len() {
                            let job = self.encode_job(k + 1);
                            Reaction { events, job }
                        } else {
                            self.phase = Phase::WritingList;
                            let job = self.list_job();
                            Reaction { events, job }
                        }
                    },
                }
            },
            Outcome::FileWritten(Err(e)) => self.fail(e, Vec::new()),
            Outcome::FileWritten(Ok(_)) => {
                self.phase = Phase::Concatenating;
                let list = join_path(self.run_dir.as_str(), self.sep, "concat.txt");
                let argv = concat_argv(list.as_str(), self.output.as_str());
                Reaction { events: Vec::new(), job: Job::Concat { argv, output: self.output.clone() } }
            },
            Outcome::Concatenated { result, elapsed_ms } => match result {
                Err(e) => self.fail(e, Vec::new()),
                Ok(bytes) => {
                    self.bytes = bytes;
                    let mut events: Vec<BuildEvent> = Vec::new();
                    events.push(
                        BuildEvent::Concat {
                            output: self.output.clone(),
                            bytes,
                            duration_ms: self.total_ms,
                        },
                    );
                    if self.keep_temp {
                        events.push(
                            BuildEvent::Done {
                                output: self.output.clone(),
                                bytes,
                                duration_ms: self.total_ms,
                                elapsed_ms,
                            },
                        );
                        self.phase = Phase::Finished;
                        let result = BuildResult {
                            output: self.output.clone(),
                            bytes,
                            duration_ms: self.total_ms,
                        };
                        assert(event_views(events@) =~= seq![
                            EventModel::Concat { output: self.output@, bytes, duration_ms: self.total_ms },
                            EventModel::Done {
                                output: self.output@,
                                bytes,
                                duration_ms: self.total_ms,
                                elapsed_ms,
                            },
                        ]);
                        Reaction { events, job: Job::Finish(result) }
                    } else {
                        self.phase = Phase::RemovingDir;
                        assert(event_views(events@) =~= seq![
                            EventModel::Concat { output: self.output@, bytes, duration_ms: self.total_ms },
                        ]);
                        Reaction { events, job: Job::RemoveDir { path: self.run_dir.clone() } }
                    }
                },
            },
            Outcome::DirRemoved { result, elapsed_ms } => match result {
                Err(e) => self.fail(e, Vec::new()),
                Ok(_) => {
                    let mut events: Vec<BuildEvent> = Vec::new();
                    events.push(
                        BuildEvent::Done {
                            output: self.output.clone(),
                            bytes: self.bytes,
                            duration_ms: self.total_ms,
                            elapsed_ms,
                        },
                    );
                    self.phase = Phase::Finished;
                    let result = BuildResult {
                        output: self.output.clone(),
                        bytes: self.bytes,
                        duration_ms: self.total_ms,
                    };
                    assert(event_views(events@) =~= seq![
                        EventModel::Done {
                            output: self.output@,
                            bytes: self.bytes,
                            duration_ms: self.total_ms,
                            elapsed_ms,
                        },
                    ]);
                    Reaction { events, job: Job::Finish(result) }
                },
            },
        }
    }
}

} // verus!

verus! {

/// The outcome reports a failed job.
pub open spec fn outcome_failed(o: Outcome) -> bool {
    match o {
        Outcome::ImageProbed(r) => r is Err,
        Outcome::AudioProbed(r) => r is Err,
        Outcome::DirCreated(r) => r is Err,
        Outcome::Encoded { result, .. } => result is Err,
        Outcome::FileWritten(r) => r is Err,
        Outcome::Concatenated { result, .. } => result is Err,
        Outcome::DirRemoved { result, .. } => result is Err,
    }
}

/// A failed job fails the build with that job's error, and the temporary
/// directory is left for inspection: the temporary directory is removed only
/// after the video was written, and never when the caller keeps it.
pub proof fn law_temp_dir_removed_only_after_success(
    old: BuildMachine,
    o: Outcome,
    new: BuildMachine,
    r: Reaction,
)
    requires
        reacts(old, o, new, r),
    ensures
        outcome_failed(o) ==> new.phase == Phase::Failed && r.job is Fail,
        r.job is RemoveDir ==> (o matches Outcome::Concatenated { result: Ok(_), .. })
            && !old.keep_temp,
{
}

/// A build that finished or failed takes no further outcome.
pub proof fn law_ended_build_takes_nothing(m: BuildMachine, o: Outcome)
    requires
        m.phase == Phase::Finished || m.phase == Phase::Failed,
    ensures
        !m.accepts(o),
{
}

/// Segments are encoded one after another in timeline order: each encode
/// job is for the segment after the last one encoded, into its own file.
pub proof fn law_segments_encoded_in_order(old: BuildMachine, o: Outcome, new: BuildMachine, r: Reaction)
    requires
        reacts(old, o, new, r),
        r.job is Encode,
    ensures
        r.job matches Job::Encode { argv } && strs(argv@) == new.encode_args(new.encoded as int),
        (o is DirCreated && new.encoded == 0) || (o is Encoded && new.encoded == old.encoded + 1),
{
}

/// The video a build reports has the planned length: the lead-in, every
/// unit's audio, a gap between neighbours and the tail (capped at
/// `u64::MAX`).
pub proof fn law_finished_video_length(old: BuildMachine, o: Outcome, new: BuildMachine, r: Reaction)
    requires
        new.wf(),
        reacts(old, o, new, r),
        r.job is Finish,
    ensures
        r.job matches Job::Finish(res) && res.duration_ms == capped(
            new.plan.lead_in_ms + crate::plan::audio_total(new.units@, new.n()) + (new.n() - 1)
                * new.plan.gap_ms + new.plan.tail_ms,
        ),
        units_match(new.units@, new.pairs@, new.durations@),
{
    crate::plan::law_plan_total_duration(new.units@, new.plan);
}

} // verus!

verus! {

/// Inputs are checked before any encoding: while segments are encoded,
/// every image has been probed and has the first image's size, and every
/// audio file has been probed.
pub proof fn law_checks_precede_encoding(m: BuildMachine)
    requires
        m.wf(),
        m.phase == Phase::Encoding,
    ensures
        m.sizes@.len() == m.n(),
        m.durations@.len() == m.n(),
        forall|i: int| 0 <= i < m.n() ==> #[trigger] m.sizes@[i] == m.sizes@[0],
{
}

} // verus!

verus! {

/// Progress counts segments: answering an encode, the build reports that
/// segment as number `encoded + 1` of as many segments as the timeline has,
/// the count its plan event gave, with the segment's own name; the last
/// segment is reported as number `total` of `total`, after which the build
/// goes on to write the concat list.
pub proof fn law_progress_counts_segments(
    old: BuildMachine,
    o: Outcome,
    new: BuildMachine,
    r: Reaction,
)
    requires
        old.wf(),
        old.phase == Phase::Encoding,
        o is Encoded,
        reacts(old, o, new, r),
    ensures
        event_views(r.events@).len() == 1,
        ({
            let ev = event_views(r.events@)[0];
            &&& ev is Segment
            &&& ev->index == old.encoded + 1
            &&& ev->total == old.segments@.len()
            &&& 1 <= ev->index <= ev->total
            &&& ev->name == segment_name((old.encoded + 1) as nat)
            &&& new.phase == Phase::WritingList ==> ev->index == ev->total
        }),
{
    assert(old.segs().len() == old.segments@.len());
}

} // verus!
