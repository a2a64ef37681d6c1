use tarball::orchestrator::{plan, Action, Event, Phase, Run, Step};
use tarball::{Codec, Settings, Timestamp};

fn texts(items: &[&str]) -> Vec<String> {
    items.iter().map(|s| s.to_string()).collect()
}

fn open(archive: &str) -> Action<String> {
    Action::Open { archive: archive.to_string() }
}

fn stat(path: &str) -> Action<String> {
    Action::Stat { path: path.to_string() }
}

fn append(path: &str, list: bool) -> Action<String> {
    Action::Append { path: path.to_string(), list }
}

fn stamp(from: &str, to: &str) -> Action<String> {
    Action::Stamp { from: from.to_string(), to: to.to_string() }
}

fn report(archive: &str) -> Action<String> {
    Action::Report { archive: archive.to_string() }
}

fn merged(target: &str) -> Settings {
    let mut s = Settings::new();
    s.set('f', Some(target.to_string()));
    s
}

fn work(steps: Vec<Step<String>>) -> Vec<Step<String>> {
    steps
        .into_iter()
        .filter(|s| !matches!(s, Step::Report { .. }))
        .map(|s| match s {
            Step::Append { path, .. } => Step::Append { path, list: false },
            other => other,
        })
        .collect()
}

#[test]
fn merged_run_takes_sorted_inputs_and_stamps_from_the_newest() {
    let t1 = Timestamp::new(100, 0);
    let t2 = Timestamp::new(200, 0);
    let mut run = Run::new(&merged("out.tar"), &texts(&["b", "a"]));
    assert_eq!(run.advance(Event::Begin), Action::Check);
    assert_eq!(run.advance(Event::Done), open("out.tar"));
    assert_eq!(run.advance(Event::Done), stat("a"));
    assert_eq!(run.advance(Event::Mtime(t1)), append("a", false));
    assert_eq!(run.advance(Event::Done), stat("b"));
    assert_eq!(run.advance(Event::Mtime(t2)), append("b", false));
    assert_eq!(run.advance(Event::Done), Action::Finish);
    assert_eq!(run.advance(Event::Done), stamp("b", "out.tar"));
    assert_eq!(run.advance(Event::Done), report("out.tar"));
    assert_eq!(run.phase(), Phase::Running);
    assert_eq!(run.advance(Event::Done), Action::Done);
    assert_eq!(run.phase(), Phase::Finished);
    assert_eq!(run.advance(Event::Done), Action::Done);
}

#[test]
fn merged_run_stamps_from_the_newest_when_it_comes_first() {
    let t1 = Timestamp::new(100, 0);
    let t2 = Timestamp::new(200, 0);
    let mut run = Run::new(&merged("out.tar"), &texts(&["a", "b"]));
    run.advance(Event::Begin);
    run.advance(Event::Done);
    assert_eq!(run.advance(Event::Done), stat("a"));
    run.advance(Event::Mtime(t2));
    assert_eq!(run.advance(Event::Done), stat("b"));
    run.advance(Event::Mtime(t1));
    assert_eq!(run.advance(Event::Done), Action::Finish);
    assert_eq!(run.advance(Event::Done), stamp("a", "out.tar"));
}

#[test]
fn merged_run_prefers_the_last_of_equally_new_inputs() {
    let t = Timestamp::new(7, 7);
    let mut run = Run::new(&merged("o"), &texts(&["c", "a", "b"]));
    run.advance(Event::Begin);
    run.advance(Event::Done);
    for path in ["a", "b", "c"] {
        assert_eq!(run.advance(Event::Done), stat(path));
        assert_eq!(run.advance(Event::Mtime(t)), append(path, false));
    }
    assert_eq!(run.advance(Event::Done), Action::Finish);
    assert_eq!(run.advance(Event::Done), stamp("c", "o"));
}

#[test]
fn merged_run_without_inputs_names_no_source() {
    let mut run = Run::new(&merged("out.tar"), &Vec::new());
    assert_eq!(run.advance(Event::Begin), Action::Check);
    assert_eq!(run.advance(Event::Done), open("out.tar"));
    assert_eq!(run.advance(Event::Done), Action::Finish);
    assert_eq!(run.advance(Event::Done), stamp("", "out.tar"));
    assert_eq!(run.advance(Event::Done), report("out.tar"));
    assert_eq!(run.advance(Event::Done), Action::Done);
}

#[test]
fn each_input_gets_its_own_archive() {
    let mut settings = Settings::new();
    settings.set('z', None);
    let mut run = Run::new(&settings, &texts(&["foo", "bar"]));
    assert_eq!(run.advance(Event::Begin), Action::Check);
    assert_eq!(run.advance(Event::Done), open("foo.tar.zst"));
    assert_eq!(run.advance(Event::Done), append("foo", false));
    assert_eq!(run.advance(Event::Done), Action::Finish);
    assert_eq!(run.advance(Event::Done), stamp("foo", "foo.tar.zst"));
    assert_eq!(run.advance(Event::Done), report("foo.tar.zst"));
    assert_eq!(run.advance(Event::Done), open("bar.tar.zst"));
    assert_eq!(run.advance(Event::Done), append("bar", false));
    assert_eq!(run.advance(Event::Done), Action::Finish);
    assert_eq!(run.advance(Event::Done), stamp("bar", "bar.tar.zst"));
    assert_eq!(run.advance(Event::Done), report("bar.tar.zst"));
    assert_eq!(run.advance(Event::Done), Action::Done);
}

#[test]
fn archive_without_codec_is_a_plain_tar() {
    let mut run = Run::new(&Settings::new(), &texts(&["foo"]));
    run.advance(Event::Begin);
    assert_eq!(run.advance(Event::Done), open("foo.tar"));
}

#[test]
fn run_without_inputs_only_checks() {
    let mut run = Run::new(&Settings::new(), &Vec::new());
    assert_eq!(run.advance(Event::Begin), Action::Check);
    assert_eq!(run.advance(Event::Done), Action::Done);
}

#[test]
fn quiet_run_reports_nothing() {
    let mut settings = merged("o");
    settings.set('q', None);
    let steps = plan(&settings, &texts(&["a"]));
    assert_eq!(
        steps,
        vec![
            Step::Check,
            Step::Open { archive: "o".to_string() },
            Step::Stat { path: "a".to_string() },
            Step::Append { path: "a".to_string(), list: false },
            Step::Finish,
            Step::StampNewest { to: "o".to_string() },
        ]
    );
}

#[test]
fn verbose_run_lists_entries() {
    let mut settings = Settings::new();
    settings.set('v', None);
    settings.set('g', None);
    let steps = plan(&settings, &texts(&["a"]));
    assert_eq!(
        steps,
        vec![
            Step::Check,
            Step::Open { archive: "a.tar.gz".to_string() },
            Step::Append { path: "a".to_string(), list: true },
            Step::Finish,
            Step::Stamp { from: "a".to_string(), to: "a.tar.gz".to_string() },
            Step::Report { archive: "a.tar.gz".to_string() },
        ]
    );
}

#[test]
fn printing_does_not_change_the_work() {
    let inputs = texts(&["x", "y"]);
    for target in [None, Some("o.tar".to_string())] {
        let mut silent = Settings::new();
        silent.filename = target.clone();
        silent.verbosity = 0;
        let mut loud = Settings::new();
        loud.filename = target.clone();
        loud.verbosity = 2;
        assert_eq!(work(plan(&loud, &inputs)), plan(&silent, &inputs));
    }
}

#[test]
fn plan_takes_inputs_as_they_stand() {
    let steps = plan(&merged("o"), &texts(&["b", "a"]));
    assert_eq!(steps[2], Step::Stat { path: "b".to_string() });
    assert_eq!(steps[4], Step::Stat { path: "a".to_string() });
}

#[test]
fn every_archive_is_opened_and_finished_in_turn() {
    for target in [None, Some("o.tar".to_string())] {
        let mut settings = Settings::new();
        settings.filename = target;
        let mut open = false;
        for step in plan(&settings, &texts(&["p", "q", "r"])) {
            match step {
                Step::Open { .. } => {
                    assert!(!open);
                    open = true;
                }
                Step::Stat { .. } | Step::Append { .. } => assert!(open),
                Step::Finish => {
                    assert!(open);
                    open = false;
                }
                _ => assert!(!open),
            }
        }
        assert!(!open);
    }
}

#[test]
fn failure_aborts_for_good() {
    let mut run = Run::new(&Settings::new(), &texts(&["a", "b"]));
    run.advance(Event::Begin);
    run.advance(Event::Done);
    assert_eq!(run.advance(Event::Failed), Action::Abort);
    assert_eq!(run.phase(), Phase::Failed);
    assert_eq!(run.advance(Event::Done), Action::Abort);
    assert_eq!(run.advance(Event::Begin), Action::Abort);
    assert_eq!(run.advance(Event::Mtime(Timestamp::new(1, 1))), Action::Abort);
    assert_eq!(run.phase(), Phase::Failed);
}

#[test]
fn answer_that_is_not_due_fails_the_run() {
    let mut run = Run::new(&merged("o"), &texts(&["a"]));
    assert_eq!(run.advance(Event::Done), Action::Abort);

    let mut run = Run::new(&merged("o"), &texts(&["a"]));
    run.advance(Event::Begin);
    assert_eq!(run.advance(Event::Begin), Action::Abort);

    let mut run = Run::new(&merged("o"), &texts(&["a"]));
    run.advance(Event::Begin);
    run.advance(Event::Done);
    assert_eq!(run.advance(Event::Done), stat("a"));
    assert_eq!(run.advance(Event::Done), Action::Abort);

    let mut run = Run::new(&merged("o"), &texts(&["a"]));
    run.advance(Event::Begin);
    assert_eq!(run.advance(Event::Mtime(Timestamp::new(0, 0))), Action::Abort);
}

#[test]
fn codec_of_the_settings_names_the_archives() {
    for (flag, name) in
        [('b', "d.tar.bz2"), ('Z', "d.tar.Z"), ('g', "d.tar.gz"), ('l', "d.tar.lz4"), ('x', "d.tar.xz")]
    {
        let mut settings = Settings::new();
        settings.set(flag, None);
        assert_ne!(settings.codec, Codec::Plain);
        let mut run = Run::new(&settings, &texts(&["d"]));
        run.advance(Event::Begin);
        assert_eq!(run.advance(Event::Done), open(name));
    }
}
