use vstd::prelude::*;
use vstd::std_specs::cmp::PartialEqSpecImpl;

use crate::error::VideoGenError;

verus! {

/// One image with its audio track and the track's length.
#[derive(Debug, Clone)]
pub struct Unit {
    pub basename: String,
    pub image_path: String,
    pub audio_path: String,
    pub audio_duration_ms: u64,
}

/// Silence to place before the first unit, after the last one, and between units.
#[derive(Debug, Clone, Copy, PartialEq, Eq, Structural)]
pub struct PlanOptions {
    pub lead_in_ms: u64,
    pub tail_ms: u64,
    pub gap_ms: u64,
}

impl Default for PlanOptions {
    fn default() -> (o: Self)
        ensures
            o.lead_in_ms == 0,
            o.tail_ms == 0,
            o.gap_ms == 0,
    {
        PlanOptions { lead_in_ms: 0, tail_ms: 0, gap_ms: 0 }
    }
}

#[derive(Debug, Clone, Copy, PartialEq, Eq, Structural)]
pub enum SegmentKind {
    LeadIn,
    Unit,
    Gap,
    Tail,
}

/// One piece of the timeline: a still image shown for a while, with the
/// unit's audio or with silence.
#[derive(Debug, Clone)]
pub enum Segment {
    LeadIn { image: String, duration_ms: u64 },
    Unit { image: String, audio: String, duration_ms: u64 },
    Gap { image: String, duration_ms: u64 },
    Tail { image: String, duration_ms: u64 },
}

/// A segment as a mathematical value.
pub enum SegmentModel {
    LeadIn { image: Seq<char>, duration_ms: u64 },
    Unit { image: Seq<char>, audio: Seq<char>, duration_ms: u64 },
    Gap { image: Seq<char>, duration_ms: u64 },
    Tail { image: Seq<char>, duration_ms: u64 },
}

impl SegmentModel {
    pub open spec fn kind(self) -> SegmentKind {
        match self {
            SegmentModel::LeadIn { .. } => SegmentKind::LeadIn,
            SegmentModel::Unit { .. } => SegmentKind::Unit,
            SegmentModel::Gap { .. } => SegmentKind::Gap,
            SegmentModel::Tail { .. } => SegmentKind::Tail,
        }
    }

    pub open spec fn image(self) -> Seq<char> {
        match self {
            SegmentModel::LeadIn { image, .. } => image,
            SegmentModel::Unit { image, .. } => image,
            SegmentModel::Gap { image, .. } => image,
            SegmentModel::Tail { image, .. } => image,
        }
    }

    pub open spec fn duration_ms(self) -> u64 {
        match self {
            SegmentModel::LeadIn { duration_ms, .. } => duration_ms,
            SegmentModel::Unit { duration_ms, .. } => duration_ms,
            SegmentModel::Gap { duration_ms, .. } => duration_ms,
            SegmentModel::Tail { duration_ms, .. } => duration_ms,
        }
    }
}

impl View for Segment {
    type V = SegmentModel;

    open spec fn view(&self) -> SegmentModel {
        match self {
            Segment::LeadIn { image, duration_ms } => SegmentModel::LeadIn {
                image: image@,
                duration_ms: *duration_ms,
            },
            Segment::Unit { image, audio, duration_ms } => SegmentModel::Unit {
                image: image@,
                audio: audio@,
                duration_ms: *duration_ms,
            },
            Segment::Gap { image, duration_ms } => SegmentModel::Gap {
                image: image@,
                duration_ms: *duration_ms,
            },
            Segment::Tail { image, duration_ms } => SegmentModel::Tail {
                image: image@,
                duration_ms: *duration_ms,
            },
        }
    }
}

impl PartialEq for Segment {
    fn eq(&self, other: &Self) -> (res: bool) {
        match (self, other) {
            (
                Segment::LeadIn { image: a, duration_ms: x },
                Segment::LeadIn { image: b, duration_ms: y },
            ) => *a == *b && *x == *y,
            (
                Segment::Unit { image: a, audio: c, duration_ms: x },
                Segment::Unit { image: b, audio: d, duration_ms: y },
            ) => *a == *b && *c == *d && *x == *y,
            (
                Segment::Gap { image: a, duration_ms: x },
                Segment::Gap { image: b, duration_ms: y },
            ) => *a == *b && *x == *y,
            (
                Segment::Tail { image: a, duration_ms: x },
                Segment::Tail { image: b, duration_ms: y },
            ) => *a == *b && *x == *y,
            _ => false,
        }
    }
}

impl PartialEqSpecImpl for Segment {
    open spec fn obeys_eq_spec() -> bool {
        true
    }

    open spec fn eq_spec(&self, other: &Self) -> bool {
        self@ == other@
    }
}

impl Segment {
    pub fn kind(&self) -> (k: SegmentKind)
        ensures
            k == self@.kind(),
    {
        match self {
            Segment::LeadIn { .. } => SegmentKind::LeadIn,
            Segment::Unit { .. } => SegmentKind::Unit,
            Segment::Gap { .. } => SegmentKind::Gap,
            Segment::Tail { .. } => SegmentKind::Tail,
        }
    }

    pub fn image(&self) -> (image: &String)
        ensures
            image@ == self@.image(),
    {
        match self {
            Segment::LeadIn { image, .. } => image,
            Segment::Unit { image, .. } => image,
            Segment::Gap { image, .. } => image,
            Segment::Tail { image, .. } => image,
        }
    }

    pub fn duration_ms(&self) -> (d: u64)
        ensures
            d == self@.duration_ms(),
    {
        match self {
            Segment::LeadIn { duration_ms, .. } => *duration_ms,
            Segment::Unit { duration_ms, .. } => *duration_ms,
            Segment::Gap { duration_ms, .. } => *duration_ms,
            Segment::Tail { duration_ms, .. } => *duration_ms,
        }
    }
}

/// The segments that unit `i` contributes: the unit itself, then a gap showing
/// its image when another unit follows and the gap is not zero.
pub open spec fn unit_block(units: Seq<Unit>, opts: PlanOptions, i: int) -> Seq<SegmentModel> {
    let unit = SegmentModel::Unit {
        image: units[i].image_path@,
        audio: units[i].audio_path@,
        duration_ms: units[i].audio_duration_ms,
    };
    if i + 1 < units.len() && opts.gap_ms > 0 {
        seq![unit, SegmentModel::Gap { image: units[i].image_path@, duration_ms: opts.gap_ms }]
    } else {
        seq![unit]
    }
}

/// The blocks of the first `k` units, in order.
pub open spec fn planned_body(units: Seq<Unit>, opts: PlanOptions, k: int) -> Seq<SegmentModel>
    decreases k,
{
    if k <= 0 {
        Seq::empty()
    } else {
        planned_body(units, opts, k - 1) + unit_block(units, opts, k - 1)
    }
}

/// The lead-in, showing the first unit's image, when it is not zero.
pub open spec fn planned_lead_in(units: Seq<Unit>, opts: PlanOptions) -> Seq<SegmentModel> {
    if opts.lead_in_ms > 0 {
        seq![SegmentModel::LeadIn { image: units[0].image_path@, duration_ms: opts.lead_in_ms }]
    } else {
        Seq::empty()
    }
}

/// The tail, showing the last unit's image, when it is not zero.
pub open spec fn planned_tail(units: Seq<Unit>, opts: PlanOptions) -> Seq<SegmentModel> {
    if opts.tail_ms > 0 {
        seq![SegmentModel::Tail { image: units.last().image_path@, duration_ms: opts.tail_ms }]
    } else {
        Seq::empty()
    }
}

/// The timeline of a non-empty list of units.
pub open spec fn planned(units: Seq<Unit>, opts: PlanOptions) -> Seq<SegmentModel> {
    planned_lead_in(units, opts) + planned_body(units, opts, units.len() as int) + planned_tail(
        units,
        opts,
    )
}

pub open spec fn views(segments: Seq<Segment>) -> Seq<SegmentModel> {
    segments.map_values(|s: Segment| s@)
}

/// Lays out the timeline: an optional lead-in, every unit in order with an
/// optional gap between neighbours, and an optional tail. Fails with a user
/// error when there is no unit.
pub fn plan_segments(units: &[Unit], opts: &PlanOptions) -> (res: Result<Vec<Segment>, VideoGenError>)
    ensures
        units@.len() == 0 <==> res is Err,
        res matches Err(e) ==> e.spec_kind() == crate::error::ErrorKind::User
            && e.spec_message() == "plan: requires at least one unit"@,
        res matches Ok(segments) ==> views(segments@) == planned(units@, *opts),
{
    if units.len() == 0 {
        return Err(VideoGenError::user("plan: requires at least one unit".to_string()));
    }
    let mut segments: Vec<Segment> = Vec::new();
    if opts.lead_in_ms > 0 {
        segments.push(Segment::LeadIn { image: units[0].image_path.clone(), duration_ms: opts.lead_in_ms });
    }
    assert(views(segments@) =~= planned_lead_in(units@, *opts) + planned_body(units@, *opts, 0));
    let n = units.len();
    let mut i: usize = 0;
    while i < n
        invariant
            n == units@.len(),
            0 < n,
            i <= n,
            views(segments@) == planned_lead_in(units@, *opts) + planned_body(units@, *opts, i as int),
        decreases n - i,
    {
        let unit = &units[i];
        let ghost before = views(segments@);
        segments.push(Segment::Unit {
            image: unit.image_path.clone(),
            audio: unit.audio_path.clone(),
            duration_ms: unit.audio_duration_ms,
        });
        if i + 1 < n && opts.gap_ms > 0 {
            segments.push(Segment::Gap { image: unit.image_path.clone(), duration_ms: opts.gap_ms });
        }
        assert(views(segments@) =~= before + unit_block(units@, *opts, i as int));
        assert(planned_lead_in(units@, *opts) + planned_body(units@, *opts, i + 1) =~= before
            + unit_block(units@, *opts, i as int));
        i = i + 1;
    }
    if opts.tail_ms > 0 {
        segments.push(Segment::Tail { image: units[n - 1].image_path.clone(), duration_ms: opts.tail_ms });
    }
    assert(views(segments@) =~= planned(units@, *opts));
    Ok(segments)
}


/// The summed duration of a list of segments.
pub open spec fn total_duration(segments: Seq<SegmentModel>) -> int
    decreases segments.len(),
{
    if segments.len() == 0 {
        0
    } else {
        total_duration(segments.drop_last()) + segments.last().duration_ms()
    }
}

/// The summed audio duration of the first `k` units.
pub open spec fn audio_total(units: Seq<Unit>, k: int) -> int
    decreases k,
{
    if k <= 0 {
        0
    } else {
        audio_total(units, k - 1) + units[k - 1].audio_duration_ms
    }
}

/// How many segments carry a unit in a list of segments.
pub open spec fn count_units(segments: Seq<SegmentModel>) -> int
    decreases segments.len(),
{
    if segments.len() == 0 {
        0
    } else {
        count_units(segments.drop_last()) + if segments.last().kind() == SegmentKind::Unit {
            1int
        } else {
            0int
        }
    }
}

pub proof fn lemma_total_concat(a: Seq<SegmentModel>, b: Seq<SegmentModel>)
    ensures
        total_duration(a + b) == total_duration(a) + total_duration(b),
        count_units(a + b) == count_units(a) + count_units(b),
    decreases b.len(),
{
    if b.len() > 0 {
        lemma_total_concat(a, b.drop_last());
        assert((a + b).drop_last() =~= a + b.drop_last());
    } else {
        assert(a + b =~= a);
    }
}

proof fn lemma_count_units_nonneg(s: Seq<SegmentModel>)
    ensures
        count_units(s) >= 0,
    decreases s.len(),
{
    if s.len() > 0 {
        lemma_count_units_nonneg(s.drop_last());
    }
}

/// Counting units up to and including segment `k` adds one for a unit
/// segment, and never exceeds the count of the whole list.
pub proof fn lemma_count_units_prefix(s: Seq<SegmentModel>, k: int)
    requires
        0 <= k < s.len(),
    ensures
        count_units(s.take(k + 1)) == count_units(s.take(k)) + if s[k].kind() == SegmentKind::Unit {
            1int
        } else {
            0int
        },
        count_units(s.take(k + 1)) <= count_units(s),
{
    assert(s.take(k + 1).drop_last() =~= s.take(k));
    assert(s.take(k + 1).last() == s[k]);
    lemma_total_concat(s.take(k + 1), s.skip(k + 1));
    assert(s.take(k + 1) + s.skip(k + 1) =~= s);
    lemma_count_units_nonneg(s.skip(k + 1));
}

proof fn lemma_single(x: SegmentModel)
    ensures
        total_duration(seq![x]) == x.duration_ms(),
        count_units(seq![x]) == if x.kind() == SegmentKind::Unit {
            1int
        } else {
            0int
        },
{
    let e = Seq::<SegmentModel>::empty();
    assert(seq![x].drop_last() =~= e);
    assert(total_duration(e) == 0);
    assert(count_units(e) == 0);
    assert(seq![x].last() == x);
}

/// The number of gaps among the first `k` units' blocks.
spec fn gaps_before(n: int, opts: PlanOptions, k: int) -> int {
    if opts.gap_ms > 0 && k > 0 {
        if k < n { k } else { k - 1 }
    } else {
        0
    }
}

proof fn lemma_body_totals(units: Seq<Unit>, opts: PlanOptions, k: int)
    requires
        0 <= k <= units.len(),
    ensures
        total_duration(planned_body(units, opts, k)) == audio_total(units, k) + gaps_before(
            units.len() as int,
            opts,
            k,
        ) * opts.gap_ms,
        count_units(planned_body(units, opts, k)) == k,
        planned_body(units, opts, k).len() == k + gaps_before(units.len() as int, opts, k),
    decreases k,
{
    let n = units.len() as int;
    if k > 0 {
        lemma_body_totals(units, opts, k - 1);
        let prev = planned_body(units, opts, k - 1);
        let block = unit_block(units, opts, k - 1);
        let unit = SegmentModel::Unit {
            image: units[k - 1].image_path@,
            audio: units[k - 1].audio_path@,
            duration_ms: units[k - 1].audio_duration_ms,
        };
        lemma_single(unit);
        lemma_total_concat(prev, block);
        let g = gaps_before(n, opts, k - 1);
        assert(g * opts.gap_ms == (k - 1) * opts.gap_ms || opts.gap_ms == 0);
        if k < n && opts.gap_ms > 0 {
            let gap = SegmentModel::Gap { image: units[k - 1].image_path@, duration_ms: opts.gap_ms };
            lemma_single(gap);
            assert(block =~= seq![unit] + seq![gap]);
            lemma_total_concat(seq![unit], seq![gap]);
            assert((k - 1) * opts.gap_ms + opts.gap_ms == k * opts.gap_ms) by (nonlinear_arith);
        } else {
            assert(block =~= seq![unit]);
            if opts.gap_ms == 0 {
                assert(g * opts.gap_ms == 0) by (nonlinear_arith)
                    requires
                        opts.gap_ms == 0,
                ;
                assert(gaps_before(n, opts, k) * opts.gap_ms == 0) by (nonlinear_arith)
                    requires
                        opts.gap_ms == 0,
                ;
            }
        }
    }
}

/// The length of a video is the lead-in, plus every unit's audio, plus one gap
/// between each pair of neighbouring units, plus the tail.
pub proof fn law_plan_total_duration(units: Seq<Unit>, opts: PlanOptions)
    requires
        units.len() > 0,
    ensures
        total_duration(planned(units, opts)) == opts.lead_in_ms + audio_total(
            units,
            units.len() as int,
        ) + (units.len() - 1) * opts.gap_ms + opts.tail_ms,
{
    let n = units.len() as int;
    lemma_body_totals(units, opts, n);
    let lead = planned_lead_in(units, opts);
    let body = planned_body(units, opts, n);
    let tail = planned_tail(units, opts);
    lemma_total_concat(lead, body);
    lemma_total_concat(lead + body, tail);
    if opts.lead_in_ms > 0 {
        lemma_single(lead[0]);
        assert(lead =~= seq![lead[0]]);
    } else {
        assert(total_duration(lead) == 0 && count_units(lead) == 0);
    }
    if opts.tail_ms > 0 {
        lemma_single(tail[0]);
        assert(tail =~= seq![tail[0]]);
    } else {
        assert(total_duration(tail) == 0 && count_units(tail) == 0);
    }
    if opts.gap_ms == 0 {
        assert((n - 1) * opts.gap_ms == 0) by (nonlinear_arith)
            requires
                opts.gap_ms == 0,
        ;
    }
}

/// A timeline holds exactly one segment per unit, one gap between each pair of
/// neighbours when the gap is not zero, and a lead-in and a tail when those
/// are not zero.
pub proof fn law_plan_segment_count(units: Seq<Unit>, opts: PlanOptions)
    requires
        units.len() > 0,
    ensures
        count_units(planned(units, opts)) == units.len(),
        planned(units, opts).len() == units.len() + (if opts.lead_in_ms > 0 {
            1int
        } else {
            0int
        }) + (if opts.tail_ms > 0 {
            1int
        } else {
            0int
        }) + (if opts.gap_ms > 0 {
            units.len() - 1
        } else {
            0int
        }),
{
    let n = units.len() as int;
    lemma_body_totals(units, opts, n);
    let lead = planned_lead_in(units, opts);
    let body = planned_body(units, opts, n);
    let tail = planned_tail(units, opts);
    lemma_total_concat(lead, body);
    lemma_total_concat(lead + body, tail);
    if opts.lead_in_ms > 0 {
        lemma_single(lead[0]);
        assert(lead =~= seq![lead[0]]);
    } else {
        assert(total_duration(lead) == 0 && count_units(lead) == 0);
    }
    if opts.tail_ms > 0 {
        lemma_single(tail[0]);
        assert(tail =~= seq![tail[0]]);
    } else {
        assert(total_duration(tail) == 0 && count_units(tail) == 0);
    }
}

} // verus!

verus! {

/// Every segment of the blocks of the first `k` units is a unit or a gap of
/// the configured (non-zero) length.
proof fn lemma_body_kinds(units: Seq<Unit>, opts: PlanOptions, k: int)
    requires
        0 <= k <= units.len(),
    ensures
        forall|j: int|
            0 <= j < planned_body(units, opts, k).len() ==> {
                let s = #[trigger] planned_body(units, opts, k)[j];
                s.kind() == SegmentKind::Unit || (s.kind() == SegmentKind::Gap && s.duration_ms()
                    == opts.gap_ms && opts.gap_ms > 0)
            },
    decreases k,
{
    if k > 0 {
        lemma_body_kinds(units, opts, k - 1);
        let prev = planned_body(units, opts, k - 1);
        let block = unit_block(units, opts, k - 1);
        assert forall|j: int| 0 <= j < planned_body(units, opts, k).len() implies {
            let s = #[trigger] planned_body(units, opts, k)[j];
            s.kind() == SegmentKind::Unit || (s.kind() == SegmentKind::Gap && s.duration_ms()
                == opts.gap_ms && opts.gap_ms > 0)
        } by {
            if j < prev.len() {
                assert(planned_body(units, opts, k)[j] == prev[j]);
            } else {
                assert(planned_body(units, opts, k)[j] == block[j - prev.len()]);
            }
        }
    }
}

/// No silence is planned with zero length: every lead-in, gap and tail lasts
/// as long as configured, which is more than zero.
pub proof fn law_plan_padding_not_empty(units: Seq<Unit>, opts: PlanOptions, j: int)
    requires
        units.len() > 0,
        0 <= j < planned(units, opts).len(),
    ensures
        ({
            let s = planned(units, opts)[j];
            &&& s.kind() == SegmentKind::LeadIn ==> s.duration_ms() == opts.lead_in_ms
                && opts.lead_in_ms > 0
            &&& s.kind() == SegmentKind::Gap ==> s.duration_ms() == opts.gap_ms && opts.gap_ms > 0
            &&& s.kind() == SegmentKind::Tail ==> s.duration_ms() == opts.tail_ms && opts.tail_ms
                > 0
        }),
{
    let n = units.len() as int;
    lemma_body_kinds(units, opts, n);
    let lead = planned_lead_in(units, opts);
    let body = planned_body(units, opts, n);
    let tail = planned_tail(units, opts);
    let all = planned(units, opts);
    if j < lead.len() {
        assert(all[j] == lead[j]);
    } else if j < lead.len() + body.len() {
        assert(all[j] == body[j - lead.len()]);
    } else {
        assert(all[j] == tail[j - lead.len() - body.len()]);
    }
}

} // verus!

verus! {

proof fn lemma_body_gaps(units: Seq<Unit>, opts: PlanOptions, k: int)
    requires
        0 <= k <= units.len(),
    ensures
        forall|j: int|
            0 <= j < planned_body(units, opts, k).len() && (#[trigger] planned_body(
                units,
                opts,
                k,
            )[j]).kind() == SegmentKind::Gap ==> j > 0 && planned_body(units, opts, k)[j
                - 1].kind() == SegmentKind::Unit && planned_body(units, opts, k)[j - 1].image()
                == planned_body(units, opts, k)[j].image(),
    decreases k,
{
    if k > 0 {
        lemma_body_gaps(units, opts, k - 1);
        let prev = planned_body(units, opts, k - 1);
        let block = unit_block(units, opts, k - 1);
        let body = planned_body(units, opts, k);
        assert(body == prev + block);
        assert forall|j: int|
            0 <= j < body.len() && (#[trigger] body[j]).kind() == SegmentKind::Gap implies j > 0
                && body[j - 1].kind() == SegmentKind::Unit && body[j - 1].image()
                == body[j].image() by {
            if j < prev.len() {
                assert(body[j] == prev[j]);
                assert(body[j - 1] == prev[j - 1]);
            } else {
                assert(body[j] == block[j - prev.len()]);
                assert(j - prev.len() == 1);
                assert(body[j - 1] == block[0]);
            }
        }
    }
}

/// Every gap comes right after a unit and shows that unit's image.
pub proof fn law_gap_shows_previous_unit(units: Seq<Unit>, opts: PlanOptions, j: int)
    requires
        units.len() > 0,
        0 <= j < planned(units, opts).len(),
        planned(units, opts)[j].kind() == SegmentKind::Gap,
    ensures
        j > 0,
        planned(units, opts)[j - 1].kind() == SegmentKind::Unit,
        planned(units, opts)[j - 1].image() == planned(units, opts)[j].image(),
{
    let n = units.len() as int;
    lemma_body_gaps(units, opts, n);
    let lead = planned_lead_in(units, opts);
    let body = planned_body(units, opts, n);
    let tail = planned_tail(units, opts);
    let all = planned(units, opts);
    if j < lead.len() {
        assert(all[j] == lead[j]);
    } else if j < lead.len() + body.len() {
        assert(all[j] == body[j - lead.len()]);
        assert(all[j - 1] == body[j - lead.len() - 1]);
    } else {
        assert(all[j] == tail[j - lead.len() - body.len()]);
    }
}

} // verus!

verus! {

/// The segment that a unit becomes: its image shown for the length of its audio.
pub open spec fn unit_segment(u: Unit) -> SegmentModel {
    SegmentModel::Unit { image: u.image_path@, audio: u.audio_path@, duration_ms: u.audio_duration_ms }
}

/// The unit segments of a timeline, in their order.
pub open spec fn unit_segments(s: Seq<SegmentModel>) -> Seq<SegmentModel>
    decreases s.len(),
{
    if s.len() == 0 {
        Seq::empty()
    } else if s.last().kind() == SegmentKind::Unit {
        unit_segments(s.drop_last()).push(s.last())
    } else {
        unit_segments(s.drop_last())
    }
}

proof fn lemma_unit_segments_concat(a: Seq<SegmentModel>, b: Seq<SegmentModel>)
    ensures
        unit_segments(a + b) == unit_segments(a) + unit_segments(b),
    decreases b.len(),
{
    if b.len() == 0 {
        assert(a + b =~= a);
        assert(unit_segments(a) + unit_segments(b) =~= unit_segments(a));
    } else {
        lemma_unit_segments_concat(a, b.drop_last());
        assert((a + b).drop_last() =~= a + b.drop_last());
        assert((a + b).last() == b.last());
        if b.last().kind() == SegmentKind::Unit {
            assert(unit_segments(a) + unit_segments(b) =~= (unit_segments(a) + unit_segments(
                b.drop_last(),
            )).push(b.last()));
        }
    }
}

proof fn lemma_unit_segments_single(x: SegmentModel)
    ensures
        unit_segments(seq![x]) == if x.kind() == SegmentKind::Unit {
            seq![x]
        } else {
            Seq::empty()
        },
{
    let e = Seq::<SegmentModel>::empty();
    assert(seq![x].drop_last() =~= e);
    assert(seq![x].last() == x);
    assert(unit_segments(e) =~= e);
    assert(e.push(x) =~= seq![x]);
}

proof fn lemma_unit_segments_body(units: Seq<Unit>, opts: PlanOptions, k: int)
    requires
        0 <= k <= units.len(),
    ensures
        unit_segments(planned_body(units, opts, k)) == units.take(k).map_values(
            |u: Unit| unit_segment(u),
        ),
    decreases k,
{
    if k == 0 {
        assert(units.take(0).map_values(|u: Unit| unit_segment(u)) =~= Seq::<SegmentModel>::empty());
    } else {
        lemma_unit_segments_body(units, opts, k - 1);
        let prev = planned_body(units, opts, k - 1);
        let block = unit_block(units, opts, k - 1);
        lemma_unit_segments_concat(prev, block);
        let unit = unit_segment(units[k - 1]);
        lemma_unit_segments_single(unit);
        if block.len() == 2 {
            assert(block.drop_last() =~= seq![unit]);
            assert(unit_segments(block) =~= seq![unit]);
        } else {
            assert(block =~= seq![unit]);
        }
        assert(units.take(k).map_values(|u: Unit| unit_segment(u)) =~= units.take(k - 1).map_values(
            |u: Unit| unit_segment(u),
        ).push(unit));
    }
}

/// Every unit appears in the timeline exactly once, in the order given, with
/// its image, its audio and its audio's length.
pub proof fn law_plan_units_in_order(units: Seq<Unit>, opts: PlanOptions)
    requires
        units.len() > 0,
    ensures
        unit_segments(planned(units, opts)) == units.map_values(|u: Unit| unit_segment(u)),
{
    let n = units.len() as int;
    let lead = planned_lead_in(units, opts);
    let body = planned_body(units, opts, n);
    let tail = planned_tail(units, opts);
    lemma_unit_segments_body(units, opts, n);
    assert(units.take(n) =~= units);
    lemma_unit_segments_concat(lead, body);
    lemma_unit_segments_concat(lead + body, tail);
    let e = Seq::<SegmentModel>::empty();
    if lead.len() > 0 {
        assert(lead =~= seq![lead[0]]);
        lemma_unit_segments_single(lead[0]);
    }
    if tail.len() > 0 {
        assert(tail =~= seq![tail[0]]);
        lemma_unit_segments_single(tail[0]);
    }
    assert(unit_segments(lead) =~= e);
    assert(unit_segments(tail) =~= e);
    assert(unit_segments(lead) + unit_segments(body) + unit_segments(tail) =~= unit_segments(body));
}

/// A gap inside the blocks of the first `k` units is followed by a unit,
/// unless it ends them, which only happens when units are still to come.
proof fn lemma_body_gap_followed(units: Seq<Unit>, opts: PlanOptions, k: int, j: int)
    requires
        0 <= k <= units.len(),
        0 <= j < planned_body(units, opts, k).len(),
        planned_body(units, opts, k)[j].kind() == SegmentKind::Gap,
    ensures
        j + 1 < planned_body(units, opts, k).len() ==> planned_body(units, opts, k)[j + 1].kind()
            == SegmentKind::Unit,
        j + 1 == planned_body(units, opts, k).len() ==> k < units.len(),
    decreases k,
{
    let prev = planned_body(units, opts, k - 1);
    let block = unit_block(units, opts, k - 1);
    let body = planned_body(units, opts, k);
    assert(body == prev + block);
    if j < prev.len() {
        assert(body[j] == prev[j]);
        lemma_body_gap_followed(units, opts, k - 1, j);
        if j + 1 < prev.len() {
            assert(body[j + 1] == prev[j + 1]);
        } else {
            assert(body[j + 1] == block[0]);
        }
    } else {
        assert(body[j] == block[j - prev.len()]);
    }
}

/// The shape of every timeline: a lead-in can only open it, a tail can only
/// close it, and every gap stands between two units.
pub proof fn law_plan_structure(units: Seq<Unit>, opts: PlanOptions, j: int)
    requires
        units.len() > 0,
        0 <= j < planned(units, opts).len(),
    ensures
        ({
            let s = planned(units, opts);
            &&& s[j].kind() == SegmentKind::LeadIn ==> j == 0
            &&& s[j].kind() == SegmentKind::Tail ==> j == s.len() - 1
            &&& s[j].kind() == SegmentKind::Gap ==> 0 < j < s.len() - 1 && s[j - 1].kind()
                == SegmentKind::Unit && s[j + 1].kind() == SegmentKind::Unit
        }),
{
    let n = units.len() as int;
    let lead = planned_lead_in(units, opts);
    let body = planned_body(units, opts, n);
    let tail = planned_tail(units, opts);
    let all = planned(units, opts);
    assert(all == lead + body + tail);
    if j < lead.len() {
        assert(all[j] == lead[j]);
    } else if j < lead.len() + body.len() {
        let b = j - lead.len();
        assert(all[j] == body[b]);
        assert(body[b].kind() == SegmentKind::Unit || body[b].kind() == SegmentKind::Gap) by {
            lemma_body_kinds(units, opts, n);
        }
        if body[b].kind() == SegmentKind::Gap {
            assert(b > 0 && body[b - 1].kind() == SegmentKind::Unit) by {
                lemma_body_gaps(units, opts, n);
            }
            lemma_body_gap_followed(units, opts, n, b);
            assert(all[j - 1] == body[b - 1]);
            assert(all[j + 1] == body[b + 1]);
        }
    } else {
        assert(all[j] == tail[j - lead.len() - body.len()]);
    }
}

} // verus!
