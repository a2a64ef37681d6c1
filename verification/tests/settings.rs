use tarball::settings::{usage, Effect, FLAGS, USAGE_TAIL};
use tarball::{Codec, Compression, Mode, Settings};

#[test]
fn settings_start_plain_and_normal() {
    let s = Settings::new();
    assert_eq!(s.codec, Codec::Plain);
    assert_eq!(s.filename, None);
    assert!(!s.follow_symlinks);
    assert!(s.ignore_files.is_empty());
    assert!(s.ignore_globs.is_empty());
    assert_eq!(s.level, Compression::Default);
    assert_eq!(s.mode, Mode::Normal);
    assert_eq!(s.verbosity, 1);
    assert!(s.reports());
    assert!(!s.lists());
}

#[test]
fn codec_flags_select_the_codec() {
    let table = [
        ('Z', Codec::Deflate),
        ('b', Codec::Bzip2),
        ('g', Codec::Gzip),
        ('l', Codec::Lz4),
        ('x', Codec::Xz),
        ('z', Codec::Zstd),
    ];
    for (flag, codec) in table {
        let mut s = Settings::new();
        assert_eq!(s.set(flag, None), Effect::Applied);
        assert_eq!(s.codec, codec);
        assert_eq!(s.level, Compression::Default);
        assert_eq!(s.verbosity, 1);
    }
}

#[test]
fn later_codec_flag_wins() {
    let mut s = Settings::new();
    s.set('g', None);
    s.set('z', None);
    assert_eq!(s.codec, Codec::Zstd);
}

#[test]
fn level_flags_select_the_level() {
    let mut s = Settings::new();
    assert_eq!(s.set('1', None), Effect::Applied);
    assert_eq!(s.level, Compression::Minimum);
    assert_eq!(s.set('9', None), Effect::Applied);
    assert_eq!(s.level, Compression::Maximum);
    for (flag, n) in [('0', 0), ('2', 2), ('3', 3), ('4', 4), ('5', 5), ('6', 6), ('7', 7), ('8', 8)]
    {
        assert_eq!(s.set(flag, None), Effect::Applied);
        assert_eq!(s.level, Compression::Level(n));
    }
}

#[test]
fn mode_and_link_flags() {
    let mut s = Settings::new();
    assert_eq!(s.set('m', None), Effect::Applied);
    assert_eq!(s.mode, Mode::Minimal);
    assert_eq!(s.set('s', None), Effect::Applied);
    assert!(s.follow_symlinks);
}

#[test]
fn verbosity_goes_up_and_down() {
    let mut s = Settings::new();
    s.set('v', None);
    assert_eq!(s.verbosity, 2);
    assert!(s.reports() && s.lists());
    s.set('q', None);
    s.set('q', None);
    assert_eq!(s.verbosity, 0);
    assert!(!s.reports() && !s.lists());
    s.set('q', None);
    assert_eq!(s.verbosity, -1);
    s.set('v', None);
    s.set('v', None);
    assert_eq!(s.verbosity, 1);
    assert!(s.reports() && !s.lists());
}

#[test]
fn verbosity_stops_at_the_ends() {
    let mut s = Settings::new();
    s.verbosity = i32::MAX;
    assert_eq!(s.set('v', None), Effect::Applied);
    assert_eq!(s.verbosity, i32::MAX);
    s.verbosity = i32::MIN;
    assert_eq!(s.set('q', None), Effect::Applied);
    assert_eq!(s.verbosity, i32::MIN);
}

#[test]
fn valued_flags_take_their_value() {
    let mut s = Settings::new();
    assert_eq!(s.set('f', Some("out.tar".to_string())), Effect::Applied);
    assert_eq!(s.filename, Some("out.tar".to_string()));
    assert_eq!(s.set('f', Some("other.tar".to_string())), Effect::Applied);
    assert_eq!(s.filename, Some("other.tar".to_string()));
    assert_eq!(s.set('I', Some(".gitignore".to_string())), Effect::Applied);
    assert_eq!(s.set('I', Some("more".to_string())), Effect::Applied);
    assert_eq!(s.ignore_files, vec![".gitignore".to_string(), "more".to_string()]);
    assert_eq!(s.set('i', Some("*.log".to_string())), Effect::Applied);
    assert_eq!(s.set('i', Some("!keep.log".to_string())), Effect::Applied);
    assert_eq!(s.ignore_globs, vec!["*.log".to_string(), "!keep.log".to_string()]);
}

#[test]
fn help_changes_nothing() {
    let mut s = Settings::new();
    s.set('z', None);
    assert_eq!(s.set('h', None), Effect::Help);
    assert_eq!(s.codec, Codec::Zstd);
    assert_eq!(s.verbosity, 1);
    assert_eq!(s.filename, None);
}

#[test]
fn unknown_flags_change_nothing() {
    let mut s = Settings::new();
    assert_eq!(s.set('y', None), Effect::Unknown);
    assert_eq!(s.set('f', None), Effect::Unknown);
    assert_eq!(s.set('I', None), Effect::Unknown);
    assert_eq!(s.set('z', Some("x".to_string())), Effect::Unknown);
    assert_eq!(s.set('h', Some("x".to_string())), Effect::Unknown);
    assert_eq!(s.set(':', None), Effect::Unknown);
    assert_eq!(s.codec, Codec::Plain);
    assert_eq!(s.filename, None);
    assert!(s.ignore_files.is_empty());
    assert_eq!(s.level, Compression::Default);
}

#[test]
fn every_listed_flag_is_known() {
    let listed: Vec<char> = FLAGS.chars().collect();
    for (i, flag) in listed.iter().enumerate() {
        if *flag == ':' {
            continue;
        }
        let valued = listed.get(i + 1) == Some(&':');
        let value = if valued { Some("v".to_string()) } else { None };
        let effect = Settings::new().set(*flag, value);
        if *flag == 'h' {
            assert_eq!(effect, Effect::Help);
        } else {
            assert_eq!(effect, Effect::Applied);
        }
    }
}

#[test]
fn flags_are_accepted_by_getopt() {
    let args: Vec<String> =
        ["prog", "-5zv", "-f", "out", "-i*.log", "--", "-x"].iter().map(|s| s.to_string()).collect();
    let mut parser = getopt::Parser::new(&args, FLAGS);
    let mut s = Settings::new();
    while let Some(opt) = parser.next() {
        let getopt::Opt(flag, value) = opt.unwrap();
        assert_eq!(s.set(flag, value), Effect::Applied);
    }
    assert_eq!(parser.index(), 6);
    assert_eq!(s.level, Compression::Level(5));
    assert_eq!(s.codec, Codec::Zstd);
    assert_eq!(s.verbosity, 2);
    assert_eq!(s.filename, Some("out".to_string()));
    assert_eq!(s.ignore_globs, vec!["*.log".to_string()]);
}

#[test]
fn usage_names_the_program() {
    let text = usage("tarball");
    let first = text.lines().next().unwrap();
    assert_eq!(
        first,
        "Usage: tarball [-0123456789ghmqvx] [-I file] [-i pattern] [-f file] path [path ...]"
    );
    assert_eq!(text, format!("Usage: {}{}", "tarball", USAGE_TAIL));
    assert!(text.ends_with("  -h       display this help\n"));
    assert_eq!(text.lines().count(), 23);
}

#[test]
fn usage_lists_every_line() {
    let text = usage("x");
    let lines: Vec<&str> = text.lines().collect();
    assert_eq!(lines[1], "  -1       fastest compression");
    assert_eq!(lines[2], "  -9       best compression");
    assert_eq!(lines[3], "");
    assert_eq!(lines[4], "  -b       compress with bzip2");
    assert_eq!(lines[5], "  -g       compress with gzip");
    assert_eq!(lines[6], "  -l       compress with lz4");
    assert_eq!(lines[7], "  -x       compress with xz");
    assert_eq!(lines[8], "  -z       compress with zstd");
    assert_eq!(lines[9], "  -Z       compress with deflate");
    assert_eq!(lines[10], "");
    assert_eq!(lines[11], "  -m       create a minimal archive");
    assert_eq!(lines[12], "  -s       follow symlinks");
    assert_eq!(lines[13], "");
    assert_eq!(lines[14], "  -f FILE  archive all arguments into FILE");
    assert_eq!(lines[15], "");
    assert_eq!(lines[16], "  -i GLOB  ignore files matching gitignore pattern GLOB");
    assert_eq!(lines[17], "  -I FILE  ignore files matching gitignore patterns in FILE");
    assert_eq!(lines[18], "");
    assert_eq!(lines[19], "  -q       suppress output");
    assert_eq!(lines[20], "  -v       print files being archived");
    assert_eq!(lines[21], "");
    assert_eq!(lines[22], "  -h       display this help");
}
