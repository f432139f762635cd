//! Run pipeline: for each configured setting, in order, resolve its reference
//! image, capture the live page, and diff the pair. Every per-setting error
//! is recorded and the run continues: the pipeline never aborts early, so one
//! flaky page cannot hide regressions on the others.
//!
//! Loading a reference image and capturing a page are outside work, so the
//! pipeline is a state machine: the surrounding program asks for the next
//! action, performs it, and hands the outcome back as an event. The decisions
//! between the events are all made, and verified, here.

use vstd::prelude::*;

use crate::bitmap::Bitmap;
use crate::config::Config;
use crate::config::IndivisualSetting;
use crate::diff::bb_area;
use crate::diff::changed_count;
use crate::diff::diff;
use crate::diff::DiffResult;
use crate::outside::join_url;
use crate::outside::joined_url;

verus! {

/// Why one setting produced no diff artifact in a run.
#[derive(Clone, Copy, Debug, PartialEq, Eq, Structural)]
pub enum FailureReason {
    /// The reference image file is absent.
    ReferenceImageMissing,
    /// The reference image file could not be decoded.
    ReferenceImageUndecodable,
    /// The URL did not join or the capture failed (network, navigation,
    /// timeout).
    CaptureFailed,
    /// The diff canvas of the pair cannot be addressed on this machine.
    DiffFailed,
}

/// One recorded per-setting failure.
#[derive(Debug)]
pub struct Failure {
    pub setting_name: String,
    pub reason: FailureReason,
}

/// What one setting contributed to a run: a diff artifact or a failure.
pub enum RunEntry {
    Passed(DiffResult),
    Failed(Failure),
}

/// The diff artifacts among the entries, in order.
pub open spec fn results_of(rec: Seq<RunEntry>) -> Seq<DiffResult>
    decreases rec.len(),
{
    if rec.len() == 0 {
        Seq::empty()
    } else {
        results_of(rec.drop_last()) + match rec.last() {
            RunEntry::Passed(d) => seq![d],
            RunEntry::Failed(_) => Seq::empty(),
        }
    }
}

/// The failures among the entries, in order.
pub open spec fn failures_of(rec: Seq<RunEntry>) -> Seq<Failure>
    decreases rec.len(),
{
    if rec.len() == 0 {
        Seq::empty()
    } else {
        failures_of(rec.drop_last()) + match rec.last() {
            RunEntry::Passed(_) => Seq::empty(),
            RunEntry::Failed(f) => seq![f],
        }
    }
}

/// Every entry is either a diff artifact or a failure, so a run of N settings
/// always accounts for all N of them.
pub proof fn lemma_every_setting_accounted(rec: Seq<RunEntry>)
    ensures
        results_of(rec).len() + failures_of(rec).len() == rec.len(),
    decreases rec.len(),
{
    if rec.len() > 0 {
        lemma_every_setting_accounted(rec.drop_last());
    }
}

/// A run where exactly one setting failed yields exactly one failure entry,
/// holding that setting's failure, and a diff artifact for every other
/// setting: no early abort, nothing hidden.
pub proof fn lemma_single_failure(rec: Seq<RunEntry>, k: int)
    requires
        0 <= k < rec.len(),
        rec[k] is Failed,
        forall|j: int| 0 <= j < rec.len() && j != k ==> rec[j] is Passed,
    ensures
        failures_of(rec).len() == 1,
        failures_of(rec)[0] == rec[k]->Failed_0,
        results_of(rec).len() == rec.len() - 1,
    decreases rec.len(),
{
    lemma_every_setting_accounted(rec);
    if k == rec.len() - 1 {
        lemma_all_passed(rec.drop_last());
    } else {
        lemma_single_failure(rec.drop_last(), k);
    }
}

/// A run where every setting passed yields no failure entry at all.
pub proof fn lemma_all_passed(rec: Seq<RunEntry>)
    requires
        forall|j: int| 0 <= j < rec.len() ==> rec[j] is Passed,
    ensures
        failures_of(rec).len() == 0,
        results_of(rec).len() == rec.len(),
    decreases rec.len(),
{
    if rec.len() > 0 {
        lemma_all_passed(rec.drop_last());
    }
}

/// The combined outcome of one run: the diff artifacts and the per-setting
/// failures, each in setting order.
pub struct RunOutcome {
    pub results: Vec<DiffResult>,
    pub failures: Vec<Failure>,
}

impl RunOutcome {
    pub open spec fn wf(self) -> bool {
        forall|j: int| 0 <= j < self.results@.len() ==> (#[trigger] self.results@[j]).wf()
    }
}

/// A loaded reference waiting for its page capture.
pub struct PendingCapture {
    pub reference: Bitmap,
    pub url: String,
}

/// What the surrounding program must do next for the pipeline.
pub enum PipelineAction {
    /// Load and decode the reference image `name` from the directory `dir`.
    LoadReference { dir: String, name: String },
    /// Capture the page at `url` with the given viewport.
    Capture { width: u32, height: u32, url: String },
    /// Every setting was attempted; take the outcome.
    Finished,
}

/// One pipeline run in progress.
pub struct PipelineRun {
    pub images_dir: String,
    pub base_url: String,
    /// Reference dimensions are divided by this to get the capture viewport.
    pub scale_divisor: u32,
    /// Per-channel tolerance of the diff.
    pub tolerance: u8,
    pub settings: Vec<IndivisualSetting>,
    pub idx: usize,
    pub pending: Option<PendingCapture>,
    pub results: Vec<DiffResult>,
    pub failures: Vec<Failure>,
    /// What each already attempted setting contributed, in order.
    pub record: Ghost<Seq<RunEntry>>,
}

/// The entry recorded for a setting names that setting; a diff artifact is
/// well formed.
pub open spec fn entry_for(e: RunEntry, s: IndivisualSetting) -> bool {
    match e {
        RunEntry::Passed(d) => d.setting_name@ == s.name@ && d.wf(),
        RunEntry::Failed(f) => f.setting_name@ == s.name@,
    }
}

impl PipelineRun {
    pub open spec fn wf(self) -> bool {
        &&& self.idx <= self.settings@.len()
        &&& self.record@.len() == self.idx as int
        &&& self.results@ == results_of(self.record@)
        &&& self.failures@ == failures_of(self.record@)
        &&& (self.pending is Some ==> self.idx < self.settings@.len()
            && self.pending->Some_0.reference.wf())
        &&& self.scale_divisor >= 1
        &&& forall|j: int|
            0 <= j < self.record@.len() ==> entry_for(#[trigger] self.record@[j], self.settings@[j])
    }

    /// The next setting still needs its reference image.
    pub open spec fn awaiting_reference(self) -> bool {
        self.idx < self.settings@.len() && self.pending is None
    }

    /// The current setting's reference is loaded; its capture is next.
    pub open spec fn awaiting_capture(self) -> bool {
        self.pending is Some
    }

    /// Every setting was attempted.
    pub open spec fn finished(self) -> bool {
        self.idx == self.settings@.len() && self.pending is None
    }

    /// Starts a run over the given configuration.
    pub fn new(config: Config, scale_divisor: u32, tolerance: u8) -> (r: PipelineRun)
        requires
            scale_divisor >= 1,
        ensures
            r.wf(),
            r.idx == 0,
            r.pending is None,
            r.record@ == Seq::<RunEntry>::empty(),
            r.settings@ == config.settings@,
            r.images_dir == config.images,
            r.base_url == config.url,
            r.scale_divisor == scale_divisor,
            r.tolerance == tolerance,
    {
        let r = PipelineRun {
            images_dir: config.images,
            base_url: config.url,
            scale_divisor,
            tolerance,
            settings: config.settings,
            idx: 0,
            pending: None,
            results: Vec::new(),
            failures: Vec::new(),
            record: Ghost(Seq::empty()),
        };
        proof {
            assert(results_of(r.record@) =~= Seq::<DiffResult>::empty());
            assert(failures_of(r.record@) =~= Seq::<Failure>::empty());
        }
        r
    }

    /// What the surrounding program must do next.
    pub fn next_action(&self) -> (a: PipelineAction)
        requires
            self.wf(),
        ensures
            self.finished() ==> a is Finished,
            self.awaiting_reference() ==> (a matches PipelineAction::LoadReference { dir, name }
                && dir@ == self.images_dir@ && name@
                == self.settings@[self.idx as int].name@),
            self.awaiting_capture() ==> (a matches PipelineAction::Capture { width, height, url }
                && width as int == self.pending->Some_0.reference.spec_width()
                / self.scale_divisor as int && height as int
                == self.pending->Some_0.reference.spec_height() / self.scale_divisor as int && url@
                == self.pending->Some_0.url@),
    {
        match &self.pending {
            Some(pc) => PipelineAction::Capture {
                width: pc.reference.width() / self.scale_divisor,
                height: pc.reference.height() / self.scale_divisor,
                url: pc.url.clone(),
            },
            None => {
                if self.idx < self.settings.len() {
                    PipelineAction::LoadReference {
                        dir: self.images_dir.clone(),
                        name: self.settings[self.idx].name.clone(),
                    }
                } else {
                    PipelineAction::Finished
                }
            },
        }
    }

    /// Records a failure for the current setting and moves to the next one.
    fn record_failure(&mut self, reason: FailureReason)
        requires
            old(self).wf(),
            old(self).idx < old(self).settings@.len(),
        ensures
            final(self).wf(),
            final(self).record@ == old(self).record@.push(
                RunEntry::Failed(
                    Failure {
                        setting_name: old(self).settings@[old(self).idx as int].name,
                        reason,
                    },
                ),
            ),
            final(self).idx == old(self).idx + 1,
            final(self).pending is None,
            final(self).results == old(self).results,
            final(self).settings == old(self).settings,
            final(self).base_url == old(self).base_url,
            final(self).images_dir == old(self).images_dir,
            final(self).scale_divisor == old(self).scale_divisor,
            final(self).tolerance == old(self).tolerance,
    {
        let n: usize = self.settings.len();
        let f = Failure { setting_name: self.settings[self.idx].name.clone(), reason };
        proof {
            assert(self.idx < n);
        }
        proof {
            lemma_record_push_failed(self.record@, f);
        }
        self.record = Ghost(self.record@.push(RunEntry::Failed(f)));
        self.failures.push(f);
        self.pending = None;
        self.idx = self.idx + 1;
    }

    /// The reference image file of the current setting is absent.
    pub fn on_reference_missing(&mut self)
        requires
            old(self).wf(),
            old(self).awaiting_reference(),
        ensures
            final(self).wf(),
            final(self).record@ == old(self).record@.push(
                RunEntry::Failed(
                    Failure {
                        setting_name: old(self).settings@[old(self).idx as int].name,
                        reason: FailureReason::ReferenceImageMissing,
                    },
                ),
            ),
            final(self).idx == old(self).idx + 1,
            final(self).pending is None,
            final(self).settings == old(self).settings,
    {
        self.record_failure(FailureReason::ReferenceImageMissing);
    }

    /// The reference image file of the current setting does not decode.
    pub fn on_reference_undecodable(&mut self)
        requires
            old(self).wf(),
            old(self).awaiting_reference(),
        ensures
            final(self).wf(),
            final(self).record@ == old(self).record@.push(
                RunEntry::Failed(
                    Failure {
                        setting_name: old(self).settings@[old(self).idx as int].name,
                        reason: FailureReason::ReferenceImageUndecodable,
                    },
                ),
            ),
            final(self).idx == old(self).idx + 1,
            final(self).pending is None,
            final(self).settings == old(self).settings,
    {
        self.record_failure(FailureReason::ReferenceImageUndecodable);
    }

    /// The reference image of the current setting is loaded: join its URL and
    /// wait for the capture, or record a failure where the URL does not join.
    pub fn on_reference_loaded(&mut self, reference: Bitmap)
        requires
            old(self).wf(),
            old(self).awaiting_reference(),
            reference.wf(),
        ensures
            final(self).wf(),
            final(self).settings == old(self).settings,
            match joined_url(
                old(self).base_url@,
                old(self).settings@[old(self).idx as int].path@,
            ) {
                Some(u) => final(self).pending matches Some(pc) && pc.reference == reference
                    && pc.url@ == u && final(self).idx == old(self).idx && final(self).record@
                    == old(self).record@,
                None => final(self).record@ == old(self).record@.push(
                    RunEntry::Failed(
                        Failure {
                            setting_name: old(self).settings@[old(self).idx as int].name,
                            reason: FailureReason::CaptureFailed,
                        },
                    ),
                ) && final(self).idx == old(self).idx + 1 && final(self).pending is None,
            },
    {
        match join_url(self.base_url.as_str(), self.settings[self.idx].path.as_str()) {
            Some(u) => {
                self.pending = Some(PendingCapture { reference, url: u });
            },
            None => {
                self.record_failure(FailureReason::CaptureFailed);
            },
        }
    }

    /// The capture of the current setting failed (network, navigation or
    /// timeout): record it and continue with the next setting.
    pub fn on_capture_failed(&mut self)
        requires
            old(self).wf(),
            old(self).awaiting_capture(),
        ensures
            final(self).wf(),
            final(self).record@ == old(self).record@.push(
                RunEntry::Failed(
                    Failure {
                        setting_name: old(self).settings@[old(self).idx as int].name,
                        reason: FailureReason::CaptureFailed,
                    },
                ),
            ),
            final(self).idx == old(self).idx + 1,
            final(self).pending is None,
            final(self).settings == old(self).settings,
    {
        self.pending = None;
        self.record_failure(FailureReason::CaptureFailed);
    }

    /// The capture of the current setting succeeded: diff the pair and record
    /// the artifact, or a failure where the diff canvas cannot be addressed.
    pub fn on_capture_ok(&mut self, captured: Bitmap)
        requires
            old(self).wf(),
            old(self).awaiting_capture(),
            captured.wf(),
        ensures
            final(self).wf(),
            final(self).settings == old(self).settings,
            final(self).idx == old(self).idx + 1,
            final(self).pending is None,
            if bb_area(old(self).pending->Some_0.reference, captured) <= usize::MAX as int {
                exists|d: DiffResult|
                    final(self).record@ == old(self).record@.push(RunEntry::Passed(d)) && d.wf()
                        && d.setting_name@ == old(self).settings@[old(self).idx as int].name@
                        && d.total_pixel_count as int == bb_area(
                        old(self).pending->Some_0.reference,
                        captured,
                    ) && d.changed_pixel_count as int == changed_count(
                        old(self).pending->Some_0.reference,
                        captured,
                        old(self).tolerance,
                    )
            } else {
                final(self).record@ == old(self).record@.push(
                    RunEntry::Failed(
                        Failure {
                            setting_name: old(self).settings@[old(self).idx as int].name,
                            reason: FailureReason::DiffFailed,
                        },
                    ),
                )
            },
    {
        let pc = self.pending.take().unwrap();
        let bbw: u64 = if pc.reference.width() >= captured.width() {
            pc.reference.width() as u64
        } else {
            captured.width() as u64
        };
        let bbh: u64 = if pc.reference.height() >= captured.height() {
            pc.reference.height() as u64
        } else {
            captured.height() as u64
        };
        proof {
            assert(bbw * bbh == bb_area(pc.reference, captured)) by (nonlinear_arith)
                requires
                    bbw as int == crate::diff::bb_width(pc.reference, captured),
                    bbh as int == crate::diff::bb_height(pc.reference, captured),
            ;
        }
        if bbh == 0 || bbw <= usize::MAX as u64 / bbh {
            proof {
                lemma_area_fits(bbw as int, bbh as int, usize::MAX as int);
            }
            let n: usize = self.settings.len();
            let name = self.settings[self.idx].name.clone();
            proof {
                assert(self.idx < n);
            }
            let d = diff(name, &pc.reference, &captured, self.tolerance);
            proof {
                lemma_record_push_passed(self.record@, d);
            }
            self.record = Ghost(self.record@.push(RunEntry::Passed(d)));
            self.results.push(d);
            self.idx = self.idx + 1;
        } else {
            proof {
                lemma_area_large(bbw as int, bbh as int, usize::MAX as int);
            }
            self.record_failure(FailureReason::DiffFailed);
        }
    }

    /// Hands out the combined outcome of a finished run.
    pub fn into_outcome(self) -> (r: RunOutcome)
        requires
            self.wf(),
            self.finished(),
        ensures
            r.wf(),
            r.results@ == results_of(self.record@),
            r.failures@ == failures_of(self.record@),
            r.results@.len() + r.failures@.len() == self.settings@.len(),
    {
        proof {
            lemma_every_setting_accounted(self.record@);
            lemma_results_wf(self.record@, self.settings@);
        }
        RunOutcome { results: self.results, failures: self.failures }
    }
}

proof fn lemma_record_push_failed(rec: Seq<RunEntry>, f: Failure)
    ensures
        failures_of(rec.push(RunEntry::Failed(f))) == failures_of(rec).push(f),
        results_of(rec.push(RunEntry::Failed(f))) == results_of(rec),
{
    let r2 = rec.push(RunEntry::Failed(f));
    assert(r2.drop_last() =~= rec);
    assert(failures_of(r2) =~= failures_of(rec).push(f));
    assert(results_of(r2) =~= results_of(rec));
}

proof fn lemma_record_push_passed(rec: Seq<RunEntry>, d: DiffResult)
    ensures
        failures_of(rec.push(RunEntry::Passed(d))) == failures_of(rec),
        results_of(rec.push(RunEntry::Passed(d))) == results_of(rec).push(d),
{
    let r2 = rec.push(RunEntry::Passed(d));
    assert(r2.drop_last() =~= rec);
    assert(failures_of(r2) =~= failures_of(rec));
    assert(results_of(r2) =~= results_of(rec).push(d));
}

/// Every diff artifact of a well-recorded run is well formed.
proof fn lemma_results_wf(rec: Seq<RunEntry>, settings: Seq<IndivisualSetting>)
    requires
        rec.len() <= settings.len(),
        forall|j: int| 0 <= j < rec.len() ==> entry_for(#[trigger] rec[j], settings[j]),
    ensures
        forall|j: int| 0 <= j < results_of(rec).len() ==> (#[trigger] results_of(rec)[j]).wf(),
    decreases rec.len(),
{
    if rec.len() > 0 {
        let dl = rec.drop_last();
        assert forall|j: int| 0 <= j < dl.len() implies entry_for(#[trigger] dl[j], settings[j]) by {
            assert(dl[j] == rec[j]);
            assert(entry_for(rec[j], settings[j]));
        }
        lemma_results_wf(dl, settings);
        assert(entry_for(rec[rec.len() - 1], settings[rec.len() - 1]));
        assert forall|j: int| 0 <= j < results_of(rec).len() implies (#[trigger] results_of(
            rec,
        )[j]).wf() by {
            if j < results_of(dl).len() {
                assert(results_of(rec)[j] == results_of(dl)[j]);
            } else {
                assert(rec.last() is Passed);
                assert(results_of(rec)[j] == rec.last()->Passed_0);
            }
        }
    }
}

proof fn lemma_area_fits(w: int, h: int, cap: int)
    requires
        0 <= w,
        0 <= h,
        0 < cap,
        h == 0 || w <= cap / h,
    ensures
        w * h <= cap,
{
    if h > 0 {
        assert(w * h <= (cap / h) * h) by (nonlinear_arith)
            requires
                0 < h,
                w <= cap / h,
        ;
        vstd::arithmetic::div_mod::lemma_fundamental_div_mod(cap, h);
        vstd::arithmetic::div_mod::lemma_mod_bound(cap, h);
        assert((cap / h) * h == h * (cap / h)) by (nonlinear_arith);
    }
}

proof fn lemma_area_large(w: int, h: int, cap: int)
    requires
        0 <= w,
        0 < h,
        0 < cap,
        w > cap / h,
    ensures
        w * h > cap,
{
    assert(w * h >= (cap / h + 1) * h) by (nonlinear_arith)
        requires
            0 < h,
            w >= cap / h + 1,
    ;
    vstd::arithmetic::div_mod::lemma_fundamental_div_mod(cap, h);
    vstd::arithmetic::div_mod::lemma_mod_bound(cap, h);
    assert((cap / h + 1) * h == h * (cap / h) + h) by (nonlinear_arith);
}

} // verus!
