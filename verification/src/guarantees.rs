//! What holds of every run, whatever its settings and inputs.

use crate::orchestrator::{
    closing, issue_of, merged_rounds, merged_script, script, single_round, single_rounds, stats,
    Action, Event, Phase, RunView, Step,
};
use crate::settings::SettingsView;
use crate::timestamp::{is_latest, latest_of, newest_exists, Timestamp};
use vstd::prelude::*;

verus! {

/// Whether an archive is open after `step`, given whether one was open
/// before it; `None` where the step is out of place. An archive is opened only
/// while none is open, read into and finished only while one is open, and
/// everything else happens only while none is open.
pub open spec fn after_step(open: bool, step: Step<Seq<char>>) -> Option<bool> {
    match step {
        Step::Open { .. } => if open {
            None
        } else {
            Some(true)
        },
        Step::Stat { .. } | Step::Append { .. } => if open {
            Some(true)
        } else {
            None
        },
        Step::Finish => if open {
            Some(false)
        } else {
            None
        },
        _ => if open {
            None
        } else {
            Some(false)
        },
    }
}

/// Whether an archive is open after `steps`, given whether one was open
/// before them; `None` where a step is out of place.
pub open spec fn after_steps(open: bool, steps: Seq<Step<Seq<char>>>) -> Option<bool>
    decreases steps.len(),
{
    if steps.len() == 0 {
        Some(open)
    } else {
        match after_steps(open, steps.drop_last()) {
            Some(now) => after_step(now, steps.last()),
            None => None,
        }
    }
}

proof fn after_steps_joined(open: bool, a: Seq<Step<Seq<char>>>, b: Seq<Step<Seq<char>>>)
    ensures
        after_steps(open, a + b) == match after_steps(open, a) {
            Some(now) => after_steps(now, b),
            None => None,
        },
    decreases b.len(),
{
    if b.len() == 0 {
        assert(a + b =~= a);
    } else {
        assert((a + b).drop_last() =~= a + b.drop_last());
        assert((a + b).last() == b.last());
        after_steps_joined(open, a, b.drop_last());
    }
}

proof fn merged_rounds_keep_open(inputs: Seq<Seq<char>>, list: bool)
    ensures
        after_steps(true, merged_rounds(inputs, list)) == Some(true),
    decreases inputs.len(),
{
    if inputs.len() > 0 {
        let round = seq![
            Step::Stat { path: inputs.last() },
            Step::Append { path: inputs.last(), list },
        ];
        merged_rounds_keep_open(inputs.drop_last(), list);
        after_steps_joined(true, merged_rounds(inputs.drop_last(), list), round);
        assert(round.drop_last() =~= seq![Step::Stat { path: inputs.last() }]);
        assert(round.drop_last().drop_last() =~= Seq::empty());
        assert(after_steps(true, round.drop_last().drop_last()) == Some(true));
        assert(after_steps(true, round.drop_last()) == Some(true));
        assert(after_steps(true, round) == Some(true));
    }
}

proof fn closing_keeps_closed(archive: Seq<char>, report: bool)
    ensures
        after_steps(false, closing(archive, report)) == Some(false),
{
    if report {
        let c = closing(archive, report);
        assert(c.drop_last() =~= Seq::empty());
        assert(after_steps(false, c.drop_last()) == Some(false));
    }
}

proof fn single_round_closes(path: Seq<char>, codec: crate::codec::Codec, report: bool, list: bool)
    ensures
        after_steps(false, single_round(path, codec, report, list)) == Some(false),
{
    let archive = crate::paths::archive_name_of(path, codec);
    let work = seq![
        Step::Open { archive },
        Step::Append { path, list },
        Step::Finish,
        Step::Stamp { from: path, to: archive },
    ];
    let w3 = work.drop_last();
    let w2 = w3.drop_last();
    let w1 = w2.drop_last();
    assert(w1.drop_last() =~= Seq::empty());
    assert(after_steps(false, w1.drop_last()) == Some(false));
    assert(after_steps(false, w1) == Some(true));
    assert(after_steps(false, w2) == Some(true));
    assert(after_steps(false, w3) == Some(false));
    assert(after_steps(false, work) == Some(false));
    closing_keeps_closed(archive, report);
    after_steps_joined(false, work, closing(archive, report));
}

proof fn single_rounds_close(
    inputs: Seq<Seq<char>>,
    codec: crate::codec::Codec,
    report: bool,
    list: bool,
)
    ensures
        after_steps(false, single_rounds(inputs, codec, report, list)) == Some(false),
    decreases inputs.len(),
{
    if inputs.len() > 0 {
        single_rounds_close(inputs.drop_last(), codec, report, list);
        single_round_closes(inputs.last(), codec, report, list);
        after_steps_joined(
            false,
            single_rounds(inputs.drop_last(), codec, report, list),
            single_round(inputs.last(), codec, report, list),
        );
    }
}

/// Every archive that a run opens is finished exactly once: after all that
/// is appended to it, and before another archive is opened, file times are
/// set or a report is made. No step is out of place, and at the end no
/// archive is open.
pub proof fn every_archive_is_finished_once(settings: SettingsView, inputs: Seq<Seq<char>>)
    ensures
        after_steps(false, script(settings, inputs)) == Some(false),
{
    let report = settings.verbosity >= 1;
    let list = settings.verbosity >= 2;
    match settings.filename {
        Some(target) => {
            let head = seq![Step::Check, Step::Open { archive: target }];
            let tail = seq![Step::Finish, Step::StampNewest { to: target }];
            assert(head.drop_last().drop_last() =~= Seq::empty());
            assert(after_steps(false, head.drop_last().drop_last()) == Some(false));
            assert(after_steps(false, head.drop_last()) == Some(false));
            assert(after_steps(false, head) == Some(true));
            merged_rounds_keep_open(inputs, list);
            after_steps_joined(false, head, merged_rounds(inputs, list));
            assert(tail.drop_last().drop_last() =~= Seq::empty());
            assert(after_steps(true, tail.drop_last().drop_last()) == Some(true));
            assert(after_steps(true, tail.drop_last()) == Some(false));
            assert(after_steps(true, tail) == Some(false));
            after_steps_joined(false, head + merged_rounds(inputs, list), tail);
            closing_keeps_closed(target, report);
            after_steps_joined(
                false,
                head + merged_rounds(inputs, list) + tail,
                closing(target, report),
            );
        },
        None => {
            let head = seq![Step::<Seq<char>>::Check];
            assert(head.drop_last() =~= Seq::empty());
            assert(after_steps(false, head.drop_last()) == Some(false));
            assert(after_steps(false, head) == Some(false));
            single_rounds_close(inputs, settings.codec, report, list);
            after_steps_joined(
                false,
                head,
                single_rounds(inputs, settings.codec, report, list),
            );
        },
    }
}

proof fn stats_joined(a: Seq<Step<Seq<char>>>, b: Seq<Step<Seq<char>>>)
    ensures
        stats(a + b) == stats(a) + stats(b),
    decreases b.len(),
{
    if b.len() == 0 {
        assert(a + b =~= a);
    } else {
        assert((a + b).drop_last() =~= a + b.drop_last());
        assert((a + b).last() == b.last());
        stats_joined(a, b.drop_last());
    }
}

proof fn merged_rounds_shape(inputs: Seq<Seq<char>>, list: bool)
    ensures
        merged_rounds(inputs, list).len() == 2 * inputs.len(),
        stats(merged_rounds(inputs, list)) == inputs.len(),
        forall|j: int|
            0 <= j < 2 * inputs.len() ==> !(#[trigger] merged_rounds(inputs, list)[j]
                is StampNewest),
    decreases inputs.len(),
{
    if inputs.len() > 0 {
        let round = seq![
            Step::Stat { path: inputs.last() },
            Step::Append { path: inputs.last(), list },
        ];
        merged_rounds_shape(inputs.drop_last(), list);
        stats_joined(merged_rounds(inputs.drop_last(), list), round);
        assert(round.drop_last() =~= seq![Step::Stat { path: inputs.last() }]);
        assert(round.drop_last().drop_last() =~= Seq::empty());
        assert(stats(round.drop_last().drop_last()) == 0);
        assert(stats(round.drop_last()) == 1);
        assert(stats(round) == 1);
    }
}

/// Where all inputs go into one archive, that archive gets the file times
/// of the input that was modified last: when the step that sets them is
/// handed out, one time has been seen for each input, and the input named is
/// one whose time no other exceeds (of several such, the last in the order of
/// the run).
pub proof fn merged_archive_takes_newest_times(
    run: RunView,
    target: Seq<char>,
    report: bool,
    list: bool,
    event: Event,
)
    requires
        run.wf(),
        run.phase == Phase::Running,
        run.script == merged_script(target, run.inputs, report, list),
        run.inputs.len() > 0,
        run.issued < run.script.len(),
        run.script[run.issued as int] is StampNewest,
        run.expects(event),
    ensures
        run.next(event).0.seen.len() == run.inputs.len(),
        latest_of(run.next(event).0.seen) matches Some(k) && is_latest(run.next(event).0.seen, k)
            && run.next(event).1 == (Action::Stamp { from: run.inputs[k], to: target }),
{
    let n = run.inputs.len() as int;
    let head = seq![Step::Check, Step::Open { archive: target }];
    let rounds = merged_rounds(run.inputs, list);
    let tail = seq![Step::Finish, Step::StampNewest { to: target }];
    merged_rounds_shape(run.inputs, list);
    let at = run.issued as int;
    assert(run.script == head + rounds + tail + closing(target, report));
    if at < 2 {
    } else if at < 2 + 2 * n {
        assert(run.script[at] == rounds[at - 2]);
    } else if at == 2 * n + 2 {
    } else if at == 2 * n + 3 {
    } else {
    }
    assert(at == 2 * n + 3);
    assert(run.script[at - 1] is Finish);
    assert(run.script.take(at - 1) =~= head + rounds);
    stats_joined(head, rounds);
    assert(head.drop_last() =~= seq![Step::<Seq<char>>::Check]);
    assert(head.drop_last().drop_last() =~= Seq::empty());
    assert(stats(head.drop_last().drop_last()) == 0);
    assert(stats(head.drop_last()) == 0);
    assert(stats(head) == 0);
    let after = run.next(event).0;
    assert(after.seen == run.seen);
    newest_exists(after.seen);
}

/// No action follows a failure: a failure reported to a run under way fails
/// the run, and a failed run answers everything by `Abort` and stays as it is.
pub proof fn failure_ends_the_run(run: RunView, later: Event)
    ensures
        run.phase == Phase::Running ==> run.next(Event::Failed).1 == Action::<Seq<char>>::Abort
            && run.next(Event::Failed).0.phase == Phase::Failed,
        run.phase == Phase::Failed ==> run.next(later) == (run, Action::<Seq<char>>::Abort),
{
}

/// An event is of the same kind as another: both a beginning, both a
/// completion, both a time, or both a failure.
pub open spec fn same_kind(a: Event, b: Event) -> bool {
    ||| a is Begin && b is Begin
    ||| a is Done && b is Done
    ||| a is Mtime && b is Mtime
    ||| a is Failed && b is Failed
}

/// File times steer nothing but the choice of whose times a merged archive
/// gets. Two runs of the same script that have come equally far, and are
/// told events of the same kind, hand out the same action whatever times they
/// have seen or now see, unless it sets the times of a merged archive, and
/// then it names the same archive; and afterwards they have again come
/// equally far.
pub proof fn times_steer_only_the_stamp(a: RunView, b: RunView, ea: Event, eb: Event)
    requires
        a.inputs == b.inputs,
        a.script == b.script,
        a.issued == b.issued,
        a.phase == b.phase,
        same_kind(ea, eb),
    ensures
        a.next(ea).0.inputs == b.next(eb).0.inputs,
        a.next(ea).0.script == b.next(eb).0.script,
        a.next(ea).0.issued == b.next(eb).0.issued,
        a.next(ea).0.phase == b.next(eb).0.phase,
        a.next(ea).1 is Stamp <==> b.next(eb).1 is Stamp,
        !(a.next(ea).1 is Stamp) ==> a.next(ea).1 == b.next(eb).1,
        a.next(ea).1 matches Action::Stamp { to: x, .. } ==> b.next(eb).1 matches Action::Stamp {
            to: y,
            ..
        } && x == y,
        a.phase == Phase::Running && a.expects(ea) && a.issued < a.script.len() && !(
        a.script[a.issued as int] is StampNewest) ==> a.next(ea).1 == b.next(eb).1,
{
}

/// The steps of `steps` that do more than print: reports are left out and no
/// entry is listed.
pub open spec fn silenced(steps: Seq<Step<Seq<char>>>) -> Seq<Step<Seq<char>>>
    decreases steps.len(),
{
    if steps.len() == 0 {
        Seq::empty()
    } else {
        silenced(steps.drop_last()) + match steps.last() {
            Step::Report { .. } => Seq::empty(),
            Step::Append { path, .. } => seq![Step::Append { path, list: false }],
            other => seq![other],
        }
    }
}

proof fn silenced_joined(a: Seq<Step<Seq<char>>>, b: Seq<Step<Seq<char>>>)
    ensures
        silenced(a + b) == silenced(a) + silenced(b),
    decreases b.len(),
{
    if b.len() == 0 {
        assert(a + b =~= a);
        assert(silenced(a) + silenced(b) =~= silenced(a));
    } else {
        assert((a + b).drop_last() =~= a + b.drop_last());
        assert((a + b).last() == b.last());
        silenced_joined(a, b.drop_last());
        let last = match b.last() {
            Step::Report { .. } => Seq::empty(),
            Step::Append { path, .. } => seq![Step::Append { path, list: false }],
            other => seq![other],
        };
        assert(silenced(a + b) =~= silenced(a) + (silenced(b.drop_last()) + last));
    }
}

proof fn silenced_one(step: Step<Seq<char>>)
    ensures
        silenced(seq![step]) == match step {
            Step::Report { .. } => Seq::empty(),
            Step::Append { path, .. } => seq![Step::Append { path, list: false }],
            other => seq![other],
        },
{
    let one = seq![step];
    assert(one.drop_last() =~= Seq::empty());
    assert(silenced(one.drop_last()) =~= Seq::empty());
    let last = match step {
        Step::Report { .. } => Seq::<Step<Seq<char>>>::empty(),
        Step::Append { path, .. } => seq![Step::Append { path, list: false }],
        other => seq![other],
    };
    assert(silenced(one) =~= Seq::empty() + last);
    assert(Seq::<Step<Seq<char>>>::empty() + last =~= last);
}

proof fn silenced_closing(archive: Seq<char>, report: bool)
    ensures
        silenced(closing(archive, report)) == Seq::<Step<Seq<char>>>::empty(),
{
    if report {
        silenced_one(Step::Report { archive });
    }
}

proof fn silenced_merged_rounds(inputs: Seq<Seq<char>>, list: bool)
    ensures
        silenced(merged_rounds(inputs, list)) == merged_rounds(inputs, false),
    decreases inputs.len(),
{
    if inputs.len() > 0 {
        let s = Step::Stat { path: inputs.last() };
        let a = Step::Append { path: inputs.last(), list };
        silenced_merged_rounds(inputs.drop_last(), list);
        silenced_joined(merged_rounds(inputs.drop_last(), list), seq![s, a]);
        assert(seq![s, a] =~= seq![s] + seq![a]);
        silenced_joined(seq![s], seq![a]);
        silenced_one(s);
        silenced_one(a);
        assert(seq![s] + seq![Step::Append { path: inputs.last(), list: false }] =~= seq![
            s,
            Step::Append { path: inputs.last(), list: false },
        ]);
    } else {
        assert(silenced(merged_rounds(inputs, list)) =~= merged_rounds(inputs, false));
    }
}

proof fn silenced_single_round(
    path: Seq<char>,
    codec: crate::codec::Codec,
    report: bool,
    list: bool,
)
    ensures
        silenced(single_round(path, codec, report, list)) == single_round(
            path,
            codec,
            false,
            false,
        ),
{
    let archive = crate::paths::archive_name_of(path, codec);
    let o = Step::Open { archive };
    let a = Step::Append { path, list };
    let q = Step::Append { path, list: false };
    let f = Step::<Seq<char>>::Finish;
    let t = Step::Stamp { from: path, to: archive };
    let work = seq![o, a, f, t];
    assert(work =~= seq![o] + seq![a] + seq![f] + seq![t]);
    silenced_joined(seq![o] + seq![a] + seq![f], seq![t]);
    silenced_joined(seq![o] + seq![a], seq![f]);
    silenced_joined(seq![o], seq![a]);
    silenced_one(o);
    silenced_one(a);
    silenced_one(f);
    silenced_one(t);
    assert(seq![o] + seq![q] + seq![f] + seq![t] =~= seq![o, q, f, t]);
    silenced_closing(archive, report);
    silenced_joined(work, closing(archive, report));
    assert(seq![o, q, f, t] + Seq::empty() =~= seq![o, q, f, t] + closing(archive, false));
}

proof fn silenced_single_rounds(
    inputs: Seq<Seq<char>>,
    codec: crate::codec::Codec,
    report: bool,
    list: bool,
)
    ensures
        silenced(single_rounds(inputs, codec, report, list)) == single_rounds(
            inputs,
            codec,
            false,
            false,
        ),
    decreases inputs.len(),
{
    if inputs.len() > 0 {
        silenced_single_rounds(inputs.drop_last(), codec, report, list);
        silenced_single_round(inputs.last(), codec, report, list);
        silenced_joined(
            single_rounds(inputs.drop_last(), codec, report, list),
            single_round(inputs.last(), codec, report, list),
        );
    } else {
        assert(silenced(single_rounds(inputs, codec, report, list)) =~= single_rounds(
            inputs,
            codec,
            false,
            false,
        ));
    }
}

/// How much is printed changes nothing else: leave the reports and the
/// listing of entries out of a run's script, and what is left is the script
/// of the run that prints nothing.
pub proof fn printing_changes_nothing_else(settings: SettingsView, inputs: Seq<Seq<char>>)
    ensures
        silenced(script(settings, inputs)) == script(
            SettingsView { verbosity: 0, ..settings },
            inputs,
        ),
{
    let report = settings.verbosity >= 1;
    let list = settings.verbosity >= 2;
    match settings.filename {
        Some(target) => {
            let c = Step::<Seq<char>>::Check;
            let o = Step::Open { archive: target };
            let f = Step::<Seq<char>>::Finish;
            let t = Step::StampNewest { to: target };
            let head = seq![c, o];
            let tail = seq![f, t];
            assert(head =~= seq![c] + seq![o]);
            assert(tail =~= seq![f] + seq![t]);
            silenced_joined(seq![c], seq![o]);
            silenced_joined(seq![f], seq![t]);
            silenced_one(c);
            silenced_one(o);
            silenced_one(f);
            silenced_one(t);
            silenced_merged_rounds(inputs, list);
            silenced_closing(target, report);
            silenced_joined(head, merged_rounds(inputs, list));
            silenced_joined(head + merged_rounds(inputs, list), tail);
            silenced_joined(head + merged_rounds(inputs, list) + tail, closing(target, report));
            assert(head + merged_rounds(inputs, false) + tail + Seq::empty() =~= head
                + merged_rounds(inputs, false) + tail + closing(target, false));
        },
        None => {
            let c = Step::<Seq<char>>::Check;
            silenced_one(c);
            silenced_single_rounds(inputs, settings.codec, report, list);
            silenced_joined(seq![c], single_rounds(inputs, settings.codec, report, list));
        },
    }
}

/// The reports of a driver that carries out every step of `script`: first
/// that nothing has been done yet, then for each step the answer that is due
/// to it, a time after `Stat` and a completion after anything else.
pub open spec fn faithful(script: Seq<Step<Seq<char>>>, events: Seq<Event>) -> bool {
    &&& events.len() == script.len() + 1
    &&& events[0] is Begin
    &&& forall|k: int|
        0 <= k < script.len() ==> if (#[trigger] script[k]) is Stat {
            events[k + 1] is Mtime
        } else {
            events[k + 1] is Done
        }
}

/// The times among `events`, in the order of the events.
pub open spec fn times_in(events: Seq<Event>) -> Seq<Timestamp>
    decreases events.len(),
{
    if events.len() == 0 {
        Seq::empty()
    } else {
        match events.last() {
            Event::Mtime(t) => times_in(events.drop_last()).push(t),
            _ => times_in(events.drop_last()),
        }
    }
}

/// The run after it was told `events`, one after the other.
pub open spec fn after_events(run: RunView, events: Seq<Event>) -> RunView
    decreases events.len(),
{
    if events.len() == 0 {
        run
    } else {
        after_events(run, events.drop_last()).next(events.last()).0
    }
}

/// A run that has not begun.
pub open spec fn fresh(run: RunView) -> bool {
    run.issued == 0 && run.phase == Phase::Running && run.seen == Seq::<Timestamp>::empty()
}

proof fn faithful_prefix(run: RunView, events: Seq<Event>, n: int)
    requires
        fresh(run),
        faithful(run.script, events),
        0 <= n <= run.script.len(),
    ensures
        after_events(run, events.take(n)) == (RunView {
            issued: n as nat,
            seen: times_in(events.take(n)),
            ..run
        }),
    decreases n,
{
    if n == 0 {
        assert(events.take(0) =~= Seq::empty());
    } else {
        faithful_prefix(run, events, n - 1);
        let fed = events.take(n);
        assert(fed.drop_last() =~= events.take(n - 1));
        assert(fed.last() == events[n - 1]);
        let before = after_events(run, events.take(n - 1));
        if n - 1 > 0 {
            assert(run.script[n - 2] is Stat ==> events[n - 1] is Mtime);
            assert(!(run.script[n - 2] is Stat) ==> events[n - 1] is Done);
        }
        assert(before.expects(events[n - 1]));
    }
}

/// A driver that carries out every step is handed the script, step by step
/// and in order, and then told that the run is complete: the answer to its
/// report number `n` is the step at place `n`, made out with the times
/// reported so far, and the answer to its last report is `Done`.
pub proof fn faithful_driver_walks_the_script(run: RunView, events: Seq<Event>, n: int)
    requires
        fresh(run),
        faithful(run.script, events),
        0 <= n <= run.script.len(),
    ensures
        n < run.script.len() ==> after_events(run, events.take(n)).next(events[n]).1 == issue_of(
            run.script[n],
            run.inputs,
            times_in(events.take(n + 1)),
        ),
        n == run.script.len() ==> after_events(run, events.take(n)).next(events[n]).1
            == Action::<Seq<char>>::Done && after_events(run, events.take(n)).next(
            events[n],
        ).0.phase == Phase::Finished,
{
    faithful_prefix(run, events, n);
    let before = after_events(run, events.take(n));
    if n > 0 {
        assert(run.script[n - 1] is Stat ==> events[n] is Mtime);
        assert(!(run.script[n - 1] is Stat) ==> events[n] is Done);
    }
    assert(before.expects(events[n]));
    let fed = events.take(n + 1);
    assert(fed.drop_last() =~= events.take(n));
    assert(fed.last() == events[n]);
}

/// Patterns and pattern files are checked before anything else is done: the
/// check is the first step of every run, and whatever is opened, read or
/// written comes after it.
pub proof fn rules_are_checked_first(settings: SettingsView, inputs: Seq<Seq<char>>)
    ensures
        script(settings, inputs).len() > 0,
        script(settings, inputs)[0] == Step::<Seq<char>>::Check,
{
    match settings.filename {
        Some(target) => {
            let head = seq![Step::Check, Step::Open { archive: target }];
            assert(script(settings, inputs)[0] == head[0]);
        },
        None => {
            let head = seq![Step::<Seq<char>>::Check];
            assert(script(settings, inputs)[0] == head[0]);
        },
    }
}

} // verus!
