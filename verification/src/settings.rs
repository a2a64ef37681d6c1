//! What one run was asked to do, as gathered from its command-line flags.

use crate::codec::Codec;
use crate::compression::Compression;
use crate::mode::Mode;
use vstd::prelude::*;
use vstd::string::*;

verus! {

/// The flags that `Settings::set` knows, in the notation of POSIX `getopt`: a
/// flag followed by a colon takes a value.
pub const FLAGS: &'static str = "0123456789I:Zbf:ghi:lmqsvxz";

/// What follows the program's name in the help text.
pub const USAGE_TAIL: &'static str =
    " [-0123456789ghmqvx] [-I file] [-i pattern] [-f file] path [path ...]\n  -1       fastest compression\n  -9       best compression\n\n  -b       compress with bzip2\n  -g       compress with gzip\n  -l       compress with lz4\n  -x       compress with xz\n  -z       compress with zstd\n  -Z       compress with deflate\n\n  -m       create a minimal archive\n  -s       follow symlinks\n\n  -f FILE  archive all arguments into FILE\n\n  -i GLOB  ignore files matching gitignore pattern GLOB\n  -I FILE  ignore files matching gitignore patterns in FILE\n\n  -q       suppress output\n  -v       print files being archived\n\n  -h       display this help\n";

/// The help text of a program called `program`.
pub open spec fn usage_text(program: Seq<char>) -> Seq<char> {
    "Usage: "@ + program + USAGE_TAIL@
}

/// Writes the help text of a program called `program`.
pub fn usage(program: &str) -> (r: String)
    ensures
        r@ == usage_text(program@),
{
    let mut text = String::from_str("Usage: ");
    text.append(program);
    text.append(USAGE_TAIL);
    text
}

/// The settings of one run.
#[derive(Debug)]
pub struct Settings {
    /// Compression algorithm of every archive of the run.
    pub codec: Codec,
    /// Name of the one archive that takes all inputs; without it each input
    /// gets an archive of its own.
    pub filename: Option<String>,
    /// Whether links are archived as what they point to.
    pub follow_symlinks: bool,
    /// Files of ignore patterns, in the order given.
    pub ignore_files: Vec<String>,
    /// Ignore patterns given directly, in the order given.
    pub ignore_globs: Vec<String>,
    /// Requested compression effort.
    pub level: Compression,
    /// Metadata policy.
    pub mode: Mode,
    /// How much is printed: below 1 nothing, from 1 each finished archive,
    /// from 2 each entry as well.
    pub verbosity: i32,
}

/// The settings of one run, with text as character sequences.
pub struct SettingsView {
    pub codec: Codec,
    pub filename: Option<Seq<char>>,
    pub follow_symlinks: bool,
    pub ignore_files: Seq<Seq<char>>,
    pub ignore_globs: Seq<Seq<char>>,
    pub level: Compression,
    pub mode: Mode,
    pub verbosity: int,
}

impl View for Settings {
    type V = SettingsView;

    open spec fn view(&self) -> SettingsView {
        SettingsView {
            codec: self.codec,
            filename: match self.filename {
                Some(name) => Some(name@),
                None => None,
            },
            follow_symlinks: self.follow_symlinks,
            ignore_files: self.ignore_files.deep_view(),
            ignore_globs: self.ignore_globs.deep_view(),
            level: self.level,
            mode: self.mode,
            verbosity: self.verbosity as int,
        }
    }
}

/// What a flag did to the settings.
#[derive(Clone, Copy, Debug, PartialEq, Eq, Structural)]
pub enum Effect {
    /// The flag changed a setting (or set it to what it was).
    Applied,
    /// The flag asks for the help text; the settings are as before.
    Help,
    /// No such flag, or a flag with a value it does not take or without the
    /// value it needs; the settings are as before.
    Unknown,
}

/// The numeric level that a digit flag other than `1` and `9` asks for.
pub open spec fn digit_level(flag: char) -> Option<u32> {
    if '0' <= flag && flag <= '8' && flag != '1' {
        Some((flag as u32 - '0' as u32) as u32)
    } else {
        None
    }
}

impl SettingsView {
    /// The settings before any flag is read.
    pub open spec fn initial() -> SettingsView {
        SettingsView {
            codec: Codec::Plain,
            filename: None,
            follow_symlinks: false,
            ignore_files: Seq::empty(),
            ignore_globs: Seq::empty(),
            level: Compression::Default,
            mode: Mode::Normal,
            verbosity: 1,
        }
    }

    /// What a flag that takes no value selects, if `flag` is such a flag and
    /// not the one for help.
    pub open spec fn switched(self, flag: char) -> Option<SettingsView> {
        if flag == '1' {
            Some(SettingsView { level: Compression::Minimum, ..self })
        } else if flag == '9' {
            Some(SettingsView { level: Compression::Maximum, ..self })
        } else if digit_level(flag) is Some {
            Some(SettingsView { level: Compression::Level(digit_level(flag)->0), ..self })
        } else if flag == 'Z' {
            Some(SettingsView { codec: Codec::Deflate, ..self })
        } else if flag == 'b' {
            Some(SettingsView { codec: Codec::Bzip2, ..self })
        } else if flag == 'g' {
            Some(SettingsView { codec: Codec::Gzip, ..self })
        } else if flag == 'l' {
            Some(SettingsView { codec: Codec::Lz4, ..self })
        } else if flag == 'x' {
            Some(SettingsView { codec: Codec::Xz, ..self })
        } else if flag == 'z' {
            Some(SettingsView { codec: Codec::Zstd, ..self })
        } else if flag == 'm' {
            Some(SettingsView { mode: Mode::Minimal, ..self })
        } else if flag == 's' {
            Some(SettingsView { follow_symlinks: true, ..self })
        } else if flag == 'q' {
            Some(
                SettingsView {
                    verbosity: if self.verbosity > i32::MIN {
                        self.verbosity - 1
                    } else {
                        self.verbosity
                    },
                    ..self
                },
            )
        } else if flag == 'v' {
            Some(
                SettingsView {
                    verbosity: if self.verbosity < i32::MAX {
                        self.verbosity + 1
                    } else {
                        self.verbosity
                    },
                    ..self
                },
            )
        } else {
            None
        }
    }

    /// What a flag with the value `value` selects, if `flag` takes a value.
    pub open spec fn valued(self, flag: char, value: Seq<char>) -> Option<SettingsView> {
        if flag == 'I' {
            Some(SettingsView { ignore_files: self.ignore_files.push(value), ..self })
        } else if flag == 'f' {
            Some(SettingsView { filename: Some(value), ..self })
        } else if flag == 'i' {
            Some(SettingsView { ignore_globs: self.ignore_globs.push(value), ..self })
        } else {
            None
        }
    }

    /// The settings after `flag`, given with `value` or without a value.
    pub open spec fn after(self, flag: char, value: Option<Seq<char>>) -> SettingsView {
        match value {
            None => match self.switched(flag) {
                Some(next) => next,
                None => self,
            },
            Some(text) => match self.valued(flag, text) {
                Some(next) => next,
                None => self,
            },
        }
    }

    /// What `flag`, given with `value` or without a value, does.
    pub open spec fn effect(self, flag: char, value: Option<Seq<char>>) -> Effect {
        match value {
            None => if flag == 'h' {
                Effect::Help
            } else if self.switched(flag) is Some {
                Effect::Applied
            } else {
                Effect::Unknown
            },
            Some(text) => if self.valued(flag, text) is Some {
                Effect::Applied
            } else {
                Effect::Unknown
            },
        }
    }
}

impl Settings {
    /// The settings before any flag is read: no compression, one archive per
    /// input, full metadata, finished archives reported.
    pub fn new() -> (r: Settings)
        ensures
            r@ == SettingsView::initial(),
    {
        let r = Settings {
            codec: Codec::Plain,
            filename: None,
            follow_symlinks: false,
            ignore_files: Vec::new(),
            ignore_globs: Vec::new(),
            level: Compression::Default,
            mode: Mode::Normal,
            verbosity: 1,
        };
        assert(r.ignore_files.deep_view() =~= Seq::empty());
        assert(r.ignore_globs.deep_view() =~= Seq::empty());
        r
    }

    /// Takes one flag, with its value if it has one. Later flags win over
    /// earlier ones, except that pattern files and patterns add up.
    pub fn set(&mut self, flag: char, value: Option<String>) -> (r: Effect)
        ensures
            final(self)@ == old(self)@.after(flag, option_text(value)),
            r == old(self)@.effect(flag, option_text(value)),
    {
        match value {
            None => {
                if flag == '1' {
                    self.level = Compression::Minimum;
                } else if flag == '9' {
                    self.level = Compression::Maximum;
                } else if '0' <= flag && flag <= '8' {
                    self.level = Compression::Level(flag as u32 - '0' as u32);
                } else if flag == 'Z' {
                    self.codec = Codec::Deflate;
                } else if flag == 'b' {
                    self.codec = Codec::Bzip2;
                } else if flag == 'g' {
                    self.codec = Codec::Gzip;
                } else if flag == 'l' {
                    self.codec = Codec::Lz4;
                } else if flag == 'x' {
                    self.codec = Codec::Xz;
                } else if flag == 'z' {
                    self.codec = Codec::Zstd;
                } else if flag == 'm' {
                    self.mode = Mode::Minimal;
                } else if flag == 's' {
                    self.follow_symlinks = true;
                } else if flag == 'q' {
                    if self.verbosity > i32::MIN {
                        self.verbosity = self.verbosity - 1;
                    }
                } else if flag == 'v' {
                    if self.verbosity < i32::MAX {
                        self.verbosity = self.verbosity + 1;
                    }
                } else if flag == 'h' {
                    return Effect::Help;
                } else {
                    return Effect::Unknown;
                }
                Effect::Applied
            },
            Some(text) => {
                if flag == 'I' {
                    let ghost before = self.ignore_files.deep_view();
                    self.ignore_files.push(text);
                    assert(self.ignore_files.deep_view() =~= before.push(text@));
                } else if flag == 'f' {
                    self.filename = Some(text);
                } else if flag == 'i' {
                    let ghost before = self.ignore_globs.deep_view();
                    self.ignore_globs.push(text);
                    assert(self.ignore_globs.deep_view() =~= before.push(text@));
                } else {
                    return Effect::Unknown;
                }
                Effect::Applied
            },
        }
    }

    /// Whether each finished archive is reported.
    pub fn reports(&self) -> (r: bool)
        ensures
            r == (self@.verbosity >= 1),
    {
        self.verbosity >= 1
    }

    /// Whether each archived entry is listed.
    pub fn lists(&self) -> (r: bool)
        ensures
            r == (self@.verbosity >= 2),
    {
        self.verbosity >= 2
    }
}

/// The characters of an optional text.
pub open spec fn option_text(value: Option<String>) -> Option<Seq<char>> {
    match value {
        Some(text) => Some(text@),
        None => None,
    }
}

} // verus!
