//! The order of work of one run: which archive is opened when, which input is
//! read into it, when it is finished and whose file times it gets.
//!
//! The library decides; a driver acts. The driver hands each outcome to
//! `Run::advance` and is told what to do next.

use crate::paths::{archive_name, archive_name_of, in_order, sorted};
use crate::settings::{Settings, SettingsView};
use crate::timestamp::{latest, latest_of, Timestamp};
use vstd::prelude::*;
use vstd::string::*;

verus! {

/// One piece of planned work. `S` is the type of text: `String` in a running
/// program, a sequence of characters in contracts.
#[derive(Debug, PartialEq, Eq)]
pub enum Step<S> {
    /// Make sure that every pattern file can be read and every pattern is
    /// well formed, before anything is written.
    Check,
    /// Create the archive file and the writer on it.
    Open { archive: S },
    /// Read the modification time of an input.
    Stat { path: S },
    /// Walk an input and append what is found to the open archive, listing
    /// each entry if `list` is set.
    Append { path: S, list: bool },
    /// Finish the open archive: its container first, then its compression.
    Finish,
    /// Give the archive `to` the file times of `from`.
    Stamp { from: S, to: S },
    /// Give the archive `to` the file times of the input that was modified
    /// last.
    StampNewest { to: S },
    /// Say that the archive is there.
    Report { archive: S },
}

impl View for Step<String> {
    type V = Step<Seq<char>>;

    open spec fn view(&self) -> Step<Seq<char>> {
        match *self {
            Step::Check => Step::Check,
            Step::Open { archive } => Step::Open { archive: archive@ },
            Step::Stat { path } => Step::Stat { path: path@ },
            Step::Append { path, list } => Step::Append { path: path@, list },
            Step::Finish => Step::Finish,
            Step::Stamp { from, to } => Step::Stamp { from: from@, to: to@ },
            Step::StampNewest { to } => Step::StampNewest { to: to@ },
            Step::Report { archive } => Step::Report { archive: archive@ },
        }
    }
}

impl DeepView for Step<String> {
    type V = Step<Seq<char>>;

    open spec fn deep_view(&self) -> Step<Seq<char>> {
        self@
    }
}

/// What the driver is told to do next.
#[derive(Debug, PartialEq, Eq)]
pub enum Action<S> {
    /// See `Step::Check`.
    Check,
    /// See `Step::Open`.
    Open { archive: S },
    /// See `Step::Stat`; the answer is `Event::Mtime`.
    Stat { path: S },
    /// See `Step::Append`.
    Append { path: S, list: bool },
    /// See `Step::Finish`.
    Finish,
    /// See `Step::Stamp`. An empty `from` names no file: the driver's attempt
    /// to read its times fails.
    Stamp { from: S, to: S },
    /// See `Step::Report`.
    Report { archive: S },
    /// The run is complete.
    Done,
    /// The run has failed; nothing more is to be done.
    Abort,
}

impl View for Action<String> {
    type V = Action<Seq<char>>;

    open spec fn view(&self) -> Action<Seq<char>> {
        match *self {
            Action::Check => Action::Check,
            Action::Open { archive } => Action::Open { archive: archive@ },
            Action::Stat { path } => Action::Stat { path: path@ },
            Action::Append { path, list } => Action::Append { path: path@, list },
            Action::Finish => Action::Finish,
            Action::Stamp { from, to } => Action::Stamp { from: from@, to: to@ },
            Action::Report { archive } => Action::Report { archive: archive@ },
            Action::Done => Action::Done,
            Action::Abort => Action::Abort,
        }
    }
}

/// What the driver reports back.
#[derive(Clone, Copy, Debug, PartialEq, Eq, Structural)]
pub enum Event {
    /// Nothing has been done yet.
    Begin,
    /// The last action was carried out.
    Done,
    /// The last action was `Stat`, and this is the time that was read.
    Mtime(Timestamp),
    /// The last action could not be carried out.
    Failed,
}

/// Whether a run is still under way.
#[derive(Clone, Copy, Debug, PartialEq, Eq, Structural)]
pub enum Phase {
    /// Steps are still handed out.
    Running,
    /// Every step was carried out.
    Finished,
    /// A step failed, or a report came that was not due.
    Failed,
}

/// The report that closes the work on `archive`, where reports are wanted.
pub open spec fn closing(archive: Seq<char>, report: bool) -> Seq<Step<Seq<char>>> {
    if report {
        seq![Step::Report { archive }]
    } else {
        Seq::empty()
    }
}

/// The middle of a run with one archive for all inputs: each input in turn
/// has its modification time read and is then appended.
pub open spec fn merged_rounds(inputs: Seq<Seq<char>>, list: bool) -> Seq<Step<Seq<char>>>
    decreases inputs.len(),
{
    if inputs.len() == 0 {
        Seq::empty()
    } else {
        merged_rounds(inputs.drop_last(), list) + seq![
            Step::Stat { path: inputs.last() },
            Step::Append { path: inputs.last(), list },
        ]
    }
}

/// A run with one archive, `target`, for all inputs.
pub open spec fn merged_script(
    target: Seq<char>,
    inputs: Seq<Seq<char>>,
    report: bool,
    list: bool,
) -> Seq<Step<Seq<char>>> {
    seq![Step::Check, Step::Open { archive: target }] + merged_rounds(inputs, list) + seq![
        Step::Finish,
        Step::StampNewest { to: target },
    ] + closing(target, report)
}

/// The work on one input that gets an archive of its own.
pub open spec fn single_round(
    path: Seq<char>,
    codec: crate::codec::Codec,
    report: bool,
    list: bool,
) -> Seq<Step<Seq<char>>> {
    let archive = archive_name_of(path, codec);
    seq![
        Step::Open { archive },
        Step::Append { path, list },
        Step::Finish,
        Step::Stamp { from: path, to: archive },
    ] + closing(archive, report)
}

/// The work on several inputs that each get an archive of their own, one
/// after the other.
pub open spec fn single_rounds(
    inputs: Seq<Seq<char>>,
    codec: crate::codec::Codec,
    report: bool,
    list: bool,
) -> Seq<Step<Seq<char>>>
    decreases inputs.len(),
{
    if inputs.len() == 0 {
        Seq::empty()
    } else {
        single_rounds(inputs.drop_last(), codec, report, list) + single_round(
            inputs.last(),
            codec,
            report,
            list,
        )
    }
}

/// The whole work of a run over `inputs`, taken in the order they stand in.
pub open spec fn script(settings: SettingsView, inputs: Seq<Seq<char>>) -> Seq<Step<Seq<char>>> {
    let report = settings.verbosity >= 1;
    let list = settings.verbosity >= 2;
    match settings.filename {
        Some(target) => merged_script(target, inputs, report, list),
        None => seq![Step::Check] + single_rounds(inputs, settings.codec, report, list),
    }
}

/// The order in which a run takes `paths`: sorted where all go into one
/// archive, as given where each gets its own.
pub open spec fn arranged(settings: SettingsView, paths: Seq<Seq<char>>, inputs: Seq<Seq<char>>) -> bool {
    if settings.filename is Some {
        in_order(inputs) && inputs.to_multiset() == paths.to_multiset()
    } else {
        inputs == paths
    }
}

fn push_closing(steps: &mut Vec<Step<String>>, archive: String, report: bool)
    ensures
        final(steps).deep_view() == old(steps).deep_view() + closing(archive@, report),
{
    if report {
        steps.push(Step::Report { archive });
    }
    assert(steps.deep_view() =~= old(steps).deep_view() + closing(archive@, report));
}

/// Lays out the work of a run over `inputs`, taken in the order they stand
/// in.
pub fn plan(settings: &Settings, inputs: &Vec<String>) -> (r: Vec<Step<String>>)
    ensures
        r.deep_view() == script(settings@, inputs.deep_view()),
{
    let report = settings.reports();
    let list = settings.lists();
    let mut steps: Vec<Step<String>> = Vec::new();
    steps.push(Step::Check);
    let ghost all = inputs.deep_view();
    match &settings.filename {
        Some(target) => {
            steps.push(Step::Open { archive: target.clone() });
            let ghost head = steps.deep_view();
            assert(head =~= seq![Step::Check, Step::Open { archive: target@ }]);
            let mut i: usize = 0;
            assert(head + merged_rounds(all.take(0), list) =~= head);
            while i < inputs.len()
                invariant
                    i <= inputs.len(),
                    all == inputs.deep_view(),
                    steps.deep_view() == head + merged_rounds(all.take(i as int), list),
                decreases inputs.len() - i,
            {
                let ghost before = steps.deep_view();
                steps.push(Step::Stat { path: inputs[i].clone() });
                steps.push(Step::Append { path: inputs[i].clone(), list });
                proof {
                    assert(all.take(i + 1).drop_last() =~= all.take(i as int));
                    assert(all.take(i + 1).last() == inputs[i as int]@);
                    assert(steps.deep_view() =~= before + seq![
                        Step::Stat { path: inputs[i as int]@ },
                        Step::Append { path: inputs[i as int]@, list },
                    ]);
                    assert(steps.deep_view() =~= head + merged_rounds(all.take(i + 1), list));
                }
                i += 1;
            }
            assert(all.take(inputs.len() as int) =~= all);
            let ghost middle = steps.deep_view();
            steps.push(Step::Finish);
            steps.push(Step::StampNewest { to: target.clone() });
            assert(steps.deep_view() =~= middle + seq![
                Step::Finish,
                Step::StampNewest { to: target@ },
            ]);
            push_closing(&mut steps, target.clone(), report);
        },
        None => {
            let codec = settings.codec;
            let ghost head = steps.deep_view();
            assert(head =~= seq![Step::Check]);
            let mut i: usize = 0;
            assert(head + single_rounds(all.take(0), codec, report, list) =~= head);
            while i < inputs.len()
                invariant
                    i <= inputs.len(),
                    all == inputs.deep_view(),
                    steps.deep_view() == head + single_rounds(
                        all.take(i as int),
                        codec,
                        report,
                        list,
                    ),
                decreases inputs.len() - i,
            {
                let ghost before = steps.deep_view();
                let ghost path = inputs[i as int]@;
                let archive = archive_name(inputs[i].as_str(), codec);
                steps.push(Step::Open { archive: archive.clone() });
                steps.push(Step::Append { path: inputs[i].clone(), list });
                steps.push(Step::Finish);
                steps.push(Step::Stamp { from: inputs[i].clone(), to: archive.clone() });
                assert(steps.deep_view() =~= before + seq![
                    Step::Open { archive: archive@ },
                    Step::Append { path, list },
                    Step::Finish,
                    Step::Stamp { from: path, to: archive@ },
                ]);
                push_closing(&mut steps, archive, report);
                proof {
                    assert(all.take(i + 1).drop_last() =~= all.take(i as int));
                    assert(all.take(i + 1).last() == path);
                    assert(steps.deep_view() =~= before + single_round(path, codec, report, list));
                    assert(steps.deep_view() =~= head + single_rounds(
                        all.take(i + 1),
                        codec,
                        report,
                        list,
                    ));
                }
                i += 1;
            }
            assert(all.take(inputs.len() as int) =~= all);
        },
    }
    steps
}

/// How many steps of `steps` read a modification time.
pub open spec fn stats(steps: Seq<Step<Seq<char>>>) -> nat
    decreases steps.len(),
{
    if steps.len() == 0 {
        0
    } else {
        stats(steps.drop_last()) + if steps.last() is Stat {
            1nat
        } else {
            0nat
        }
    }
}

/// The input that was modified last, going by the times in `seen`, of which
/// the first belongs to the first input and so on; of several such inputs the
/// last. Where no time was seen, or the newest belongs to no input, the empty
/// path.
pub open spec fn newest_path(inputs: Seq<Seq<char>>, seen: Seq<Timestamp>) -> Seq<char> {
    match latest_of(seen) {
        Some(k) => if 0 <= k < inputs.len() {
            inputs[k]
        } else {
            Seq::empty()
        },
        None => Seq::empty(),
    }
}

/// The action by which a planned step is carried out, once the times in
/// `seen` are known.
pub open spec fn issue_of(
    step: Step<Seq<char>>,
    inputs: Seq<Seq<char>>,
    seen: Seq<Timestamp>,
) -> Action<Seq<char>> {
    match step {
        Step::Check => Action::Check,
        Step::Open { archive } => Action::Open { archive },
        Step::Stat { path } => Action::Stat { path },
        Step::Append { path, list } => Action::Append { path, list },
        Step::Finish => Action::Finish,
        Step::Stamp { from, to } => Action::Stamp { from, to },
        Step::StampNewest { to } => Action::Stamp { from: newest_path(inputs, seen), to },
        Step::Report { archive } => Action::Report { archive },
    }
}

/// A run as contracts see it.
pub struct RunView {
    /// The inputs, in the order in which the run takes them.
    pub inputs: Seq<Seq<char>>,
    /// The planned work.
    pub script: Seq<Step<Seq<char>>>,
    /// How many steps of the script have been handed out.
    pub issued: nat,
    /// The modification times reported so far, oldest report first.
    pub seen: Seq<Timestamp>,
    /// Whether the run is under way, complete or failed.
    pub phase: Phase,
}

impl RunView {
    /// How many steps of the script have been answered.
    pub open spec fn answered(self) -> nat {
        if self.phase == Phase::Finished {
            self.script.len()
        } else if self.issued == 0 {
            0
        } else {
            (self.issued - 1) as nat
        }
    }

    /// No more steps were handed out than the script holds, and one time was
    /// seen for each answered step that reads one.
    pub open spec fn wf(self) -> bool {
        &&& self.issued <= self.script.len()
        &&& self.phase == Phase::Finished ==> self.issued == self.script.len()
        &&& self.seen.len() == stats(self.script.take(self.answered() as int))
    }

    /// Whether `event` is the answer that is due: `Begin` before the first
    /// step, a time after `Stat`, `Done` after any other step.
    pub open spec fn expects(self, event: Event) -> bool {
        if self.issued == 0 {
            event is Begin
        } else if self.issued <= self.script.len() && self.script[self.issued - 1] is Stat {
            event is Mtime
        } else {
            event is Done
        }
    }

    /// The run after `event`, and the action that answers it.
    ///
    /// A failed run stays failed and a complete run complete. In a run under
    /// way any event but the one that is due, a failure among them, fails the
    /// run. The due event has its time, if it brings one, recorded; then the
    /// next step of the script is handed out, or the run is complete.
    pub open spec fn next(self, event: Event) -> (RunView, Action<Seq<char>>) {
        match self.phase {
            Phase::Failed => (self, Action::Abort),
            Phase::Finished => (self, Action::Done),
            Phase::Running => {
                if !self.expects(event) {
                    (RunView { phase: Phase::Failed, ..self }, Action::Abort)
                } else {
                    let seen = match event {
                        Event::Mtime(t) => self.seen.push(t),
                        _ => self.seen,
                    };
                    if self.issued >= self.script.len() {
                        (RunView { phase: Phase::Finished, seen, ..self }, Action::Done)
                    } else {
                        (
                            RunView { issued: self.issued + 1, seen, ..self },
                            issue_of(self.script[self.issued as int], self.inputs, seen),
                        )
                    }
                }
            },
        }
    }
}

/// The work of one run and how far it has come.
#[derive(Debug)]
pub struct Run {
    inputs: Vec<String>,
    steps: Vec<Step<String>>,
    issued: usize,
    seen: Vec<Timestamp>,
    phase: Phase,
}

impl View for Run {
    type V = RunView;

    closed spec fn view(&self) -> RunView {
        RunView {
            inputs: self.inputs.deep_view(),
            script: self.steps.deep_view(),
            issued: self.issued as nat,
            seen: self.seen@,
            phase: self.phase,
        }
    }
}

fn copied(paths: &Vec<String>) -> (r: Vec<String>)
    ensures
        r.deep_view() == paths.deep_view(),
{
    let mut out: Vec<String> = Vec::new();
    let mut i: usize = 0;
    while i < paths.len()
        invariant
            i <= paths.len(),
            out.len() == i,
            forall|k: int| 0 <= k < i ==> (#[trigger] out[k])@ == paths[k]@,
        decreases paths.len() - i,
    {
        out.push(paths[i].clone());
        i += 1;
    }
    assert(out.deep_view() =~= paths.deep_view());
    out
}

impl Run {
    /// Prepares a run over `paths`. Where all inputs go into one archive they
    /// are taken in sorted order, else in the order given.
    pub fn new(settings: &Settings, paths: &Vec<String>) -> (r: Run)
        ensures
            r@.wf(),
            r@.issued == 0,
            r@.seen == Seq::<Timestamp>::empty(),
            r@.phase == Phase::Running,
            arranged(settings@, paths.deep_view(), r@.inputs),
            r@.script == script(settings@, r@.inputs),
    {
        let inputs = if settings.filename.is_some() {
            sorted(paths)
        } else {
            copied(paths)
        };
        let steps = plan(settings, &inputs);
        let r = Run { inputs, steps, issued: 0, seen: Vec::new(), phase: Phase::Running };
        assert(r@.script.take(0) =~= Seq::empty());
        r
    }

    fn issue(&self, k: usize) -> (r: Action<String>)
        requires
            k < self.steps.len(),
        ensures
            r@ == issue_of(self@.script[k as int], self@.inputs, self@.seen),
    {
        match &self.steps[k] {
            Step::Check => Action::Check,
            Step::Open { archive } => Action::Open { archive: archive.clone() },
            Step::Stat { path } => Action::Stat { path: path.clone() },
            Step::Append { path, list } => Action::Append { path: path.clone(), list: *list },
            Step::Finish => Action::Finish,
            Step::Stamp { from, to } => Action::Stamp { from: from.clone(), to: to.clone() },
            Step::StampNewest { to } => {
                let from = match latest(&self.seen) {
                    Some(k) => if k < self.inputs.len() {
                        self.inputs[k].clone()
                    } else {
                        String::new()
                    },
                    None => String::new(),
                };
                Action::Stamp { from, to: to.clone() }
            },
            Step::Report { archive } => Action::Report { archive: archive.clone() },
        }
    }

    /// Takes the driver's report and says what to do next.
    pub fn advance(&mut self, event: Event) -> (r: Action<String>)
        ensures
            (final(self)@, r@) == old(self)@.next(event),
            old(self)@.wf() ==> final(self)@.wf(),
    {
        match self.phase {
            Phase::Failed => {
                return Action::Abort;
            },
            Phase::Finished => {
                return Action::Done;
            },
            Phase::Running => {},
        }
        let due = if self.issued == 0 {
            match event {
                Event::Begin => true,
                _ => false,
            }
        } else if self.issued <= self.steps.len() {
            match (&self.steps[self.issued - 1], event) {
                (Step::Stat { .. }, Event::Mtime(_)) => true,
                (Step::Stat { .. }, _) => false,
                (_, Event::Done) => true,
                _ => false,
            }
        } else {
            match event {
                Event::Done => true,
                _ => false,
            }
        };
        if !due {
            self.phase = Phase::Failed;
            return Action::Abort;
        }
        match event {
            Event::Mtime(t) => {
                self.seen.push(t);
            },
            _ => {},
        }
        if self.issued >= self.steps.len() {
            self.phase = Phase::Finished;
            proof {
                if old(self)@.wf() {
                    next_keeps_wf(old(self)@, event);
                }
            }
            return Action::Done;
        }
        let action = self.issue(self.issued);
        self.issued = self.issued + 1;
        proof {
            if old(self)@.wf() {
                next_keeps_wf(old(self)@, event);
            }
        }
        action
    }

    /// Whether the run is under way, complete or failed.
    pub fn phase(&self) -> (r: Phase)
        ensures
            r == self@.phase,
    {
        self.phase
    }
}

/// Whatever is reported, a run stays as it should be: no step is handed out
/// that the script does not hold, and the times seen are those of the
/// answered steps that read one.
pub proof fn next_keeps_wf(run: RunView, event: Event)
    requires
        run.wf(),
    ensures
        run.next(event).0.wf(),
{
    let after = run.next(event).0;
    if run.phase == Phase::Running && run.expects(event) {
        let a = run.answered() as int;
        if run.issued == 0 {
            assert(after.answered() == 0 || run.script.len() == 0);
            assert(run.script.take(0) =~= run.script.take(after.answered() as int));
        } else {
            assert(after.answered() == a + 1);
            assert(run.script.take(a + 1).drop_last() =~= run.script.take(a));
            assert(run.script.take(a + 1).last() == run.script[a]);
        }
    }
}

} // verus!
