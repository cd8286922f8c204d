//! The preprocessing pipeline: a preset selects a fixed sequence of steps,
//! which are run in order and timed one by one.

use crate::buffer::{PixelBuffer, Raster};
use crate::error::{ErrorModel, OcrError};
use crate::preprocessing::steps::denoise;
use crate::preprocessing::steps::deskew;
use crate::preprocessing::steps::grayscale;
use crate::preprocessing::steps::normalize;
use crate::preprocessing::steps::resize;
use crate::preprocessing::steps::sharpen;
use crate::preprocessing::steps::threshold;
use vstd::arithmetic::mul::lemma_mul_upper_bound;
use vstd::prelude::*;
use crate::text::{lowercase_of, same_text, to_lowercase};
use vstd::string::StringExecFns;

verus! {

/// A named choice of preprocessing, in the order of rising cost.
#[derive(Debug, Clone, Copy, PartialEq, Eq, Structural, PartialOrd, Ord, Hash)]
pub enum Preset {
    /// No preprocessing at all.
    Off,
    /// Grayscale only, for clean scans.
    Minimal,
    /// Grayscale, resize, normalize, sharpen.
    Default,
    /// Grayscale, resize, denoise, normalize, sharpen, deskew, threshold,
    /// for images of poor quality.
    Aggressive,
}

/// One transformation of the step library.
#[derive(Debug, Clone, Copy, PartialEq, Eq, Structural)]
pub enum Step {
    Grayscale,
    Resize,
    Denoise,
    Normalize,
    Sharpen,
    Deskew,
    Threshold,
}

impl Step {
    /// The name under which the step is timed.
    pub open spec fn name(self) -> Seq<char> {
        match self {
            Step::Grayscale => "grayscale"@,
            Step::Resize => "resize"@,
            Step::Denoise => "denoise"@,
            Step::Normalize => "normalize"@,
            Step::Sharpen => "sharpen"@,
            Step::Deskew => "deskew"@,
            Step::Threshold => "threshold"@,
        }
    }

    /// The inputs on which the step fails.
    pub open spec fn fails(self, input: Raster) -> bool {
        match self {
            Step::Resize => input.width == 0 || input.height == 0,
            Step::Denoise => input.width > denoise::MAX_FILTER_DIMENSION || input.height
                > denoise::MAX_FILTER_DIMENSION,
            Step::Deskew => input.width * input.height > deskew::MAX_PIXELS,
            _ => false,
        }
    }

    /// The message with which the step fails.
    pub open spec fn failure(self) -> Seq<char> {
        match self {
            Step::Resize => "resize: empty image"@,
            Step::Denoise => "denoise: image too large"@,
            Step::Deskew => "deskew: image too large"@,
            _ => ""@,
        }
    }

    /// Why the step fails, where it does.
    pub open spec fn cause(self) -> Seq<char> {
        match self {
            Step::Resize => "empty image"@,
            Step::Denoise => "image too large"@,
            Step::Deskew => "image too large"@,
            _ => ""@,
        }
    }

    /// Whether `output` is a result of the step on `input`. Every step but
    /// resizing has one result; resizing fixes the size and the channels
    /// of its result, not the samples.
    pub open spec fn maps(self, input: Raster, output: Raster) -> bool {
        match self {
            Step::Grayscale => output == grayscale::grayscale_of(input),
            Step::Resize => resize::is_resized(input, output),
            Step::Denoise => output == denoise::denoised(input),
            Step::Normalize => output == normalize::normalized(input),
            Step::Sharpen => output == sharpen::sharpened(input),
            Step::Deskew => output == deskew::deskewed(input),
            Step::Threshold => output == threshold::binarized(input),
        }
    }

    /// The name under which the step is timed.
    pub fn as_str(&self) -> (name: &'static str)
        ensures
            name@ == self.name(),
    {
        match self {
            Step::Grayscale => "grayscale",
            Step::Resize => "resize",
            Step::Denoise => "denoise",
            Step::Normalize => "normalize",
            Step::Sharpen => "sharpen",
            Step::Deskew => "deskew",
            Step::Threshold => "threshold",
        }
    }

    /// Runs the step on an image.
    pub fn run(&self, image: PixelBuffer) -> (r: Result<PixelBuffer, OcrError>)
        ensures
            r is Err <==> self.fails(image@),
            r is Ok ==> self.maps(image@, r->Ok_0@),
            r is Ok ==> r->Ok_0@.wf(),
            r is Err ==> r->Err_0@ == ErrorModel::PreprocessingError(self.failure()),
    {
        match self {
            Step::Grayscale => grayscale::apply(image),
            Step::Resize => resize::apply(image),
            Step::Denoise => denoise::apply(image),
            Step::Normalize => normalize::apply(image),
            Step::Sharpen => sharpen::apply(image),
            Step::Deskew => deskew::apply(image),
            Step::Threshold => threshold::apply(image),
        }
    }
}

/// The steps of a preset, in the order in which they run.
pub open spec fn steps_of(preset: Preset) -> Seq<Step> {
    match preset {
        Preset::Off => seq![],
        Preset::Minimal => seq![Step::Grayscale],
        Preset::Default => seq![Step::Grayscale, Step::Resize, Step::Normalize, Step::Sharpen],
        Preset::Aggressive => seq![
            Step::Grayscale,
            Step::Resize,
            Step::Denoise,
            Step::Normalize,
            Step::Sharpen,
            Step::Deskew,
            Step::Threshold,
        ],
    }
}

/// The preset that a lower-case name stands for.
pub open spec fn preset_named(name: Seq<char>) -> Option<Preset> {
    if name == "none"@ {
        Some(Preset::Off)
    } else if name == "minimal"@ {
        Some(Preset::Minimal)
    } else if name == "default"@ {
        Some(Preset::Default)
    } else if name == "aggressive"@ {
        Some(Preset::Aggressive)
    } else {
        None
    }
}

impl Preset {
    /// The name of the preset.
    pub open spec fn name(self) -> Seq<char> {
        match self {
            Preset::Off => "none"@,
            Preset::Minimal => "minimal"@,
            Preset::Default => "default"@,
            Preset::Aggressive => "aggressive"@,
        }
    }

    /// Position of the preset in the order of rising cost.
    pub open spec fn rank(self) -> nat {
        match self {
            Preset::Off => 0,
            Preset::Minimal => 1,
            Preset::Default => 2,
            Preset::Aggressive => 3,
        }
    }

    /// The preset that a name in lower case stands for, if any.
    pub fn from_lowercase(name: &str) -> (r: Option<Preset>)
        ensures
            r == preset_named(name@),
    {
        if same_text(name, "none") {
            Some(Preset::Off)
        } else if same_text(name, "minimal") {
            Some(Preset::Minimal)
        } else if same_text(name, "default") {
            Some(Preset::Default)
        } else if same_text(name, "aggressive") {
            Some(Preset::Aggressive)
        } else {
            None
        }
    }

    /// The preset that a name stands for, whatever its case.
    pub fn from_str(s: &str) -> (r: Option<Preset>)
        ensures
            r == preset_named(lowercase_of(s@)),
    {
        let lower = to_lowercase(s);
        Preset::from_lowercase(lower.as_str())
    }

    /// The name of the preset.
    pub fn as_str(&self) -> (name: &'static str)
        ensures
            name@ == self.name(),
    {
        match self {
            Preset::Off => "none",
            Preset::Minimal => "minimal",
            Preset::Default => "default",
            Preset::Aggressive => "aggressive",
        }
    }

    /// The steps of the preset, in the order in which they run.
    pub fn steps(&self) -> (steps: Vec<Step>)
        ensures
            steps@ == steps_of(*self),
    {
        let steps = match self {
            Preset::Off => vec![],
            Preset::Minimal => vec![Step::Grayscale],
            Preset::Default => vec![Step::Grayscale, Step::Resize, Step::Normalize, Step::Sharpen],
            Preset::Aggressive => vec![
                Step::Grayscale,
                Step::Resize,
                Step::Denoise,
                Step::Normalize,
                Step::Sharpen,
                Step::Deskew,
                Step::Threshold,
            ],
        };
        assert(steps@ =~= steps_of(*self));
        steps
    }
}

impl Default for Preset {
    fn default() -> (r: Preset)
        ensures
            r == Preset::Default,
    {
        Preset::Default
    }
}

/// A preset of higher rank runs every step of a preset of lower rank, in
/// the same order.
pub proof fn lemma_presets_grow(lower: Preset, higher: Preset)
    requires
        lower.rank() <= higher.rank(),
    ensures
        steps_of(lower).len() <= steps_of(higher).len(),
        forall|i: int|
            0 <= i < steps_of(lower).len() ==> exists|j: int|
                i <= j < steps_of(higher).len() && steps_of(higher)[j] == #[trigger] steps_of(
                    lower,
                )[i],
{
    assert forall|i: int| 0 <= i < steps_of(lower).len() implies exists|j: int|
        i <= j < steps_of(higher).len() && steps_of(higher)[j] == #[trigger] steps_of(lower)[i] by {
        if lower == higher {
            assert(steps_of(higher)[i] == steps_of(lower)[i]);
        } else if lower == Preset::Minimal {
            assert(steps_of(higher)[0] == steps_of(lower)[i]);
        } else if lower == Preset::Default {
            if i < 2 {
                assert(steps_of(higher)[i] == steps_of(lower)[i]);
            } else {
                assert(steps_of(higher)[i + 1] == steps_of(lower)[i]);
            }
        }
    }
}

} // verus!

verus! {

#[verifier::external_type_specification]
#[verifier::external_body]
pub struct ExInstant(std::time::Instant);

/// `std::time::Instant::now`: the current reading of the monotonic clock.
/// Nothing is claimed of it.
#[verifier::external_body]
fn clock_now() -> std::time::Instant {
    std::time::Instant::now()
}

/// `std::time::Instant::elapsed`: the time since `start`. Nothing is
/// claimed of it.
#[verifier::external_body]
fn elapsed(start: &std::time::Instant) -> std::time::Duration {
    start.elapsed()
}

/// `std::time::Duration::as_millis`: a duration in whole milliseconds.
/// Nothing is claimed of it.
#[verifier::external_body]
fn as_millis(duration: &std::time::Duration) -> u128 {
    duration.as_millis()
}

/// A count of milliseconds as far as 64 bits hold it.
pub open spec fn saturated(millis: u128) -> u64 {
    if millis > u64::MAX {
        u64::MAX
    } else {
        millis as u64
    }
}

/// Computes `saturated`.
pub fn saturate(millis: u128) -> (r: u64)
    ensures
        r == saturated(millis),
{
    if millis > u64::MAX as u128 {
        u64::MAX
    } else {
        millis as u64
    }
}

/// The time since `start` in milliseconds, as far as 64 bits hold it:
/// what `saturate` makes of what the clock gives.
fn elapsed_ms(start: &std::time::Instant) -> u64 {
    saturate(as_millis(&elapsed(start)))
}

/// The later of the last reading of a clock and a new one: a reading
/// that fell behind counts as the last one.
pub open spec fn later(last: u64, reading: u64) -> u64 {
    if reading < last {
        last
    } else {
        reading
    }
}

/// Computes `later`.
pub fn advance(last: u64, reading: u64) -> (now: u64)
    ensures
        now == later(last, reading),
        now >= last,
{
    if reading < last {
        last
    } else {
        reading
    }
}

/// How long one step took.
#[derive(Debug, Clone, PartialEq, Eq)]
pub struct StepTiming {
    /// Name of the step.
    pub name: String,
    /// Elapsed time in milliseconds.
    pub time_ms: u64,
}

/// What a run of the pipeline returns.
#[derive(Debug, PartialEq, Eq)]
pub struct PreprocessingResult {
    /// The preprocessed image.
    pub image: PixelBuffer,
    /// Total time in milliseconds.
    pub total_time_ms: u64,
    /// Name of the preset that was used.
    pub preset: String,
    /// The steps that ran, in order, each with its time.
    pub steps: Vec<StepTiming>,
}

/// The time of a step that began at the reading `begin` and ended at the
/// reading `end`, both in milliseconds since the run started and taken
/// after the reading `last`.
pub open spec fn step_time(last: u64, begin: u64, end: u64) -> u64 {
    (later(later(last, begin), end) - later(last, begin)) as u64
}

/// The timing of a step from the readings of the clock at its beginning
/// and at its end, and the reading from which the next step goes on. No
/// reading counts as earlier than the one before it.
pub fn time_step(name: &str, last: u64, begin: u64, end: u64) -> (r: (StepTiming, u64))
    ensures
        r.0.name@ == name@,
        r.0.time_ms == step_time(last, begin, end),
        r.1 == later(later(last, begin), end),
        last + r.0.time_ms <= r.1,
{
    let began = advance(last, begin);
    let ended = advance(began, end);
    (StepTiming { name: String::from_str(name), time_ms: ended - began }, ended)
}

/// The sum of the times of the steps.
pub open spec fn total_step_time(timings: Seq<StepTiming>) -> nat
    decreases timings.len(),
{
    if timings.len() == 0 {
        0
    } else {
        total_step_time(timings.drop_last()) + timings.last().time_ms as nat
    }
}

/// Whether running `steps` in order can turn `input` into `output`: each
/// step maps what the step before it gave.
pub open spec fn chain(steps: Seq<Step>, input: Raster, output: Raster) -> bool
    decreases steps.len(),
{
    if steps.len() == 0 {
        output == input
    } else {
        exists|middle: Raster|
            chain(steps.drop_last(), input, middle) && #[trigger] steps.last().maps(middle, output)
    }
}

/// Whether the timings name exactly the given steps, in order.
pub open spec fn timings_name(timings: Seq<StepTiming>, steps: Seq<Step>) -> bool {
    &&& timings.len() == steps.len()
    &&& forall|i: int| 0 <= i < steps.len() ==> (#[trigger] timings[i]).name@ == steps[i].name()
}

/// Whether a preset has a step that fails on an image without pixels.
pub open spec fn resizes(preset: Preset) -> bool {
    preset == Preset::Default || preset == Preset::Aggressive
}

/// Both sides of a raster are short enough for every step to take it.
pub open spec fn modest(image: Raster) -> bool {
    image.width <= 25000 && image.height <= 25000
}

/// A pipeline that applies the steps of one preset.
pub struct Pipeline {
    preset: Preset,
}

impl Pipeline {
    /// The preset of the pipeline.
    pub closed spec fn preset(&self) -> Preset {
        self.preset
    }

    /// A pipeline for the given preset.
    pub fn new(preset: Preset) -> (pipeline: Pipeline)
        ensures
            pipeline.preset() == preset,
    {
        Pipeline { preset }
    }

    /// Runs one step and records its time.
    ///
    /// `started` is when the run started and `last` the last reading of
    /// the clock, in milliseconds since then. Where the step fails nothing
    /// is recorded and its error is returned. Else the step's timing is
    /// recorded, and the result holds the reading at its end.
    fn run_step(
        &self,
        step: Step,
        image: PixelBuffer,
        timings: &mut Vec<StepTiming>,
        started: &std::time::Instant,
        last: u64,
    ) -> (r: Result<(PixelBuffer, u64), OcrError>)
        ensures
            r is Err <==> step.fails(image@),
            r is Err ==> r->Err_0@ == ErrorModel::PreprocessingError(step.failure()),
            r is Err ==> final(timings)@ == old(timings)@,
            r is Ok ==> step.maps(image@, r->Ok_0.0@),
            r is Ok ==> final(timings)@.len() == old(timings)@.len() + 1,
            r is Ok ==> final(timings)@.drop_last() == old(timings)@,
            r is Ok ==> final(timings)@.last().name@ == step.name(),
            r is Ok ==> last + final(timings)@.last().time_ms <= r->Ok_0.1,
    {
        let begin = elapsed_ms(started);
        let result = step.run(image);
        match result {
            Ok(output) => {
                let end = elapsed_ms(started);
                let (timing, now) = time_step(step.as_str(), last, begin, end);
                timings.push(timing);
                assert(timings@.drop_last() =~= old(timings)@);
                Ok((output, now))
            },
            Err(error) => Err(error),
        }
    }

    /// Processes an image as the preset says.
    ///
    /// With the preset `Off` the image comes back as it is, with no step
    /// recorded and a total time of 0. Otherwise the steps of the preset
    /// run in order, each on the result of the one before, and each is
    /// timed. The run fails only on an image without pixels under a preset
    /// that resizes; then no image is returned.
    pub fn process(&self, image: PixelBuffer) -> (r: Result<PreprocessingResult, OcrError>)
        ensures
            r is Err <==> resizes(self.preset()) && (image@.width == 0 || image@.height == 0),
            r is Err ==> r->Err_0@ == ErrorModel::PreprocessingError(Step::Resize.failure()),
            r is Ok ==> chain(steps_of(self.preset()), image@, r->Ok_0.image@),
            r is Ok ==> r->Ok_0.image@.wf(),
            r is Ok ==> timings_name(r->Ok_0.steps@, steps_of(self.preset())),
            r is Ok ==> r->Ok_0.preset@ == self.preset().name(),
            r is Ok && self.preset() == Preset::Off ==> r->Ok_0.image@ == image@
                && r->Ok_0.total_time_ms == 0 && r->Ok_0.steps@.len() == 0,
            r is Ok ==> total_step_time(r->Ok_0.steps@) <= r->Ok_0.total_time_ms,
    {
        let started = clock_now();
        let name = String::from_str(self.preset.as_str());
        image.well_formed();
        if self.preset == Preset::Off {
            return Ok(
                PreprocessingResult { image, total_time_ms: 0, preset: name, steps: Vec::new() },
            );
        }
        let steps = self.preset.steps();
        let ghost input = image@;
        let mut timings: Vec<StepTiming> = Vec::new();
        let mut current = image;
        let mut now: u64 = 0;
        let mut i: usize = 0;
        proof {
            assert(steps@.take(0) =~= Seq::<Step>::empty());
        }
        while i < steps.len()
            invariant
                i <= steps@.len(),
                steps@ == steps_of(self.preset()),
                self.preset() != Preset::Off,
                chain(steps@.take(i as int), input, current@),
                timings_name(timings@, steps@.take(i as int)),
                current@.width == 0 || current@.height == 0 <==> input.width == 0 || input.height
                    == 0,
                i >= 2 ==> modest(current@),
                i >= 2 ==> input.width != 0 && input.height != 0,
                current@.wf(),
                input == image@,
                total_step_time(timings@) <= now,
            decreases steps@.len() - i,
        {
            let step = steps[i];
            let ghost before = current@;
            let ghost timed = timings@;
            proof {
                assert(steps@[0] == Step::Grayscale);
                assert(steps@.len() > 1 ==> steps@[1] == Step::Resize);
                assert(steps@.len() > 1 ==> resizes(self.preset()));
                if i != 1 {
                    assert(step != Step::Resize);
                    lemma_later_steps_succeed(step, before);
                }
            }
            match self.run_step(step, current, &mut timings, &started, now) {
                Ok((output, ended)) => {
                    current = output;
                    now = ended;
                },
                Err(error) => {
                    assert(i == 1);
                    return Err(error);
                },
            }
            current.well_formed();
            proof {
                lemma_step_keeps_shape(step, before, current@);
                assert(steps@.take(i + 1).drop_last() =~= steps@.take(i as int));
                assert(steps@.take(i + 1).last() == step);
                assert(step.maps(before, current@));
                assert(timings_name(timings@, steps@.take(i + 1))) by {
                    assert forall|k: int| 0 <= k < i + 1 implies (#[trigger] timings@[k]).name@
                        == steps@.take(i + 1)[k].name() by {
                        if k < i {
                            assert(timings@[k] == timings@.drop_last()[k]);
                            assert(steps@.take(i as int)[k] == steps@.take(i + 1)[k]);
                        }
                    }
                }
            }
            i += 1;
        }
        proof {
            assert(steps@.take(i as int) =~= steps@);
        }
        let total = advance(now, elapsed_ms(&started));
        Ok(PreprocessingResult { image: current, total_time_ms: total, preset: name, steps: timings })
    }
}

/// No step but resizing fails on a modest image.
pub proof fn lemma_later_steps_succeed(step: Step, input: Raster)
    requires
        step != Step::Resize,
        modest(input) || step == Step::Grayscale || step == Step::Normalize || step
            == Step::Sharpen,
    ensures
        !step.fails(input),
{
    if modest(input) {
        lemma_mul_upper_bound(input.width as int, 25000, input.height as int, 25000);
    }
}

/// A step leaves an image without pixels without pixels and an image with
/// pixels with pixels; every step but resizing keeps the size, and
/// resizing gives a modest size.
pub proof fn lemma_step_keeps_shape(step: Step, input: Raster, output: Raster)
    requires
        step.maps(input, output),
        !step.fails(input),
        input.width <= u32::MAX,
        input.height <= u32::MAX,
    ensures
        step != Step::Resize ==> output.width == input.width && output.height == input.height,
        step == Step::Resize ==> modest(output),
        output.width == 0 || output.height == 0 <==> input.width == 0 || input.height == 0,
        output.width <= u32::MAX,
        output.height <= u32::MAX,
{
    if step == Step::Resize {
        let w = input.width as int;
        let h = input.height as int;
        resize::lemma_target_bounds(w, h);
    }
}

} // verus!

verus! {

/// Running a sequence of steps and then one more is running the sequence
/// and mapping its result by the last step.
pub proof fn lemma_chain_push(steps: Seq<Step>, last: Step, input: Raster, output: Raster)
    ensures
        chain(steps.push(last), input, output) <==> exists|middle: Raster|
            chain(steps, input, middle) && #[trigger] last.maps(middle, output),
{
    assert(steps.push(last).drop_last() =~= steps);
    assert(steps.push(last).last() == last);
}

/// What the preset `Minimal` gives: the grayscale version of the input.
pub proof fn lemma_minimal_result(input: Raster, output: Raster)
    requires
        chain(steps_of(Preset::Minimal), input, output),
    ensures
        output == grayscale::grayscale_of(input),
{
    let none = Seq::<Step>::empty();
    assert(steps_of(Preset::Minimal) =~= none.push(Step::Grayscale));
    lemma_chain_push(none, Step::Grayscale, input, output);
}

/// What the preset `Default` gives: the grayscale version of the input,
/// resized with whatever samples resampling gave, normalised and sharpened.
pub proof fn lemma_default_result(input: Raster, output: Raster)
    requires
        chain(steps_of(Preset::Default), input, output),
    ensures
        exists|samples: Seq<u8>|
            output == sharpen::sharpened(
                normalize::normalized(
                    #[trigger] resize::resized(grayscale::grayscale_of(input), samples),
                ),
            ),
{
    let s0 = Seq::<Step>::empty();
    let s1 = s0.push(Step::Grayscale);
    let s2 = s1.push(Step::Resize);
    let s3 = s2.push(Step::Normalize);
    assert(steps_of(Preset::Default) =~= s3.push(Step::Sharpen));
    lemma_chain_push(s3, Step::Sharpen, input, output);
    let c = choose|m: Raster| chain(s3, input, m) && #[trigger] Step::Sharpen.maps(m, output);
    lemma_chain_push(s2, Step::Normalize, input, c);
    let b = choose|m: Raster| chain(s2, input, m) && #[trigger] Step::Normalize.maps(m, c);
    lemma_chain_push(s1, Step::Resize, input, b);
    let a = choose|m: Raster| chain(s1, input, m) && #[trigger] Step::Resize.maps(m, b);
    lemma_chain_push(s0, Step::Grayscale, input, a);
    assert(b == resize::resized(grayscale::grayscale_of(input), b.samples));
}

/// What the preset `Aggressive` gives: the grayscale version of the
/// input, resized with whatever samples resampling gave, then denoised,
/// normalised, sharpened, deskewed and binarised. Every sample of it is 0
/// or 255.
pub proof fn lemma_aggressive_result(input: Raster, output: Raster)
    requires
        chain(steps_of(Preset::Aggressive), input, output),
    ensures
        exists|samples: Seq<u8>|
            output == threshold::binarized(
                deskew::deskewed(
                    sharpen::sharpened(
                        normalize::normalized(
                            denoise::denoised(
                                #[trigger] resize::resized(
                                    grayscale::grayscale_of(input),
                                    samples,
                                ),
                            ),
                        ),
                    ),
                ),
            ),
        forall|i: int|
            0 <= i < output.samples.len() ==> {
                let v = #[trigger] output.samples[i];
                v == 0 || v == 255
            },
{
    let s0 = Seq::<Step>::empty();
    let s1 = s0.push(Step::Grayscale);
    let s2 = s1.push(Step::Resize);
    let s3 = s2.push(Step::Denoise);
    let s4 = s3.push(Step::Normalize);
    let s5 = s4.push(Step::Sharpen);
    let s6 = s5.push(Step::Deskew);
    assert(steps_of(Preset::Aggressive) =~= s6.push(Step::Threshold));
    lemma_chain_push(s6, Step::Threshold, input, output);
    let f = choose|m: Raster| chain(s6, input, m) && #[trigger] Step::Threshold.maps(m, output);
    lemma_chain_push(s5, Step::Deskew, input, f);
    let e = choose|m: Raster| chain(s5, input, m) && #[trigger] Step::Deskew.maps(m, f);
    lemma_chain_push(s4, Step::Sharpen, input, e);
    let d = choose|m: Raster| chain(s4, input, m) && #[trigger] Step::Sharpen.maps(m, e);
    lemma_chain_push(s3, Step::Normalize, input, d);
    let c = choose|m: Raster| chain(s3, input, m) && #[trigger] Step::Normalize.maps(m, d);
    lemma_chain_push(s2, Step::Denoise, input, c);
    let b = choose|m: Raster| chain(s2, input, m) && #[trigger] Step::Denoise.maps(m, c);
    lemma_chain_push(s1, Step::Resize, input, b);
    let a = choose|m: Raster| chain(s1, input, m) && #[trigger] Step::Resize.maps(m, b);
    lemma_chain_push(s0, Step::Grayscale, input, a);
    assert(b == resize::resized(grayscale::grayscale_of(input), b.samples));
    threshold::lemma_binarized_is_binary(f);
}

} // verus!

verus! {

/// The message of a step that fails holds the name of the step, a colon
/// and the cause.
pub proof fn lemma_failure_names_step(step: Step)
    requires
        step == Step::Resize || step == Step::Denoise || step == Step::Deskew,
    ensures
        step.failure() == step.name() + ": "@ + step.cause(),
{
    reveal_strlit(": ");
    reveal_strlit("resize");
    reveal_strlit("denoise");
    reveal_strlit("deskew");
    reveal_strlit("empty image");
    reveal_strlit("image too large");
    reveal_strlit("resize: empty image");
    reveal_strlit("denoise: image too large");
    reveal_strlit("deskew: image too large");
    assert(step.failure() =~= step.name() + ": "@ + step.cause());
}

} // verus!
