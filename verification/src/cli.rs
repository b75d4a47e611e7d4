//! The command line of the chuda compiler driver: `[options] <source_files>`, where the
//! options are `--help`, `--lex` and `-D <path>`, and no option follows a source file.
use vstd::prelude::*;
use crate::source_files::strings_view;
use crate::text::{chars_of, range_is};

verus! {

/// Why a command line is refused.
#[derive(Debug, Clone, Copy, PartialEq, Eq, Structural)]
pub enum ArgsError {
    /// Nothing follows the program's name.
    NotEnoughArguments,
    /// An option follows a source file.
    OptionAfterFile,
    /// `-D <path>` is given more than once.
    PathGivenTwice,
}

/// What the command line asks for. `path` is the directory given with `-D`, if any;
/// without it the current directory is meant.
#[derive(Debug)]
pub struct Config {
    pub help: bool,
    pub lex: bool,
    pub parse: bool,
    pub code_gen: bool,
    pub type_check: bool,
    pub path: Option<String>,
    pub source_files: Vec<String>,
}

/// What a `Config` holds, with its strings taken as character sequences.
pub struct ConfigView {
    pub help: bool,
    pub lex: bool,
    pub parse: bool,
    pub code_gen: bool,
    pub type_check: bool,
    pub path: Option<Seq<char>>,
    pub source_files: Seq<Seq<char>>,
}

impl View for Config {
    type V = ConfigView;

    open spec fn view(&self) -> ConfigView {
        ConfigView {
            help: self.help,
            lex: self.lex,
            parse: self.parse,
            code_gen: self.code_gen,
            type_check: self.type_check,
            path: match self.path {
                Some(p) => Some(p@),
                None => None,
            },
            source_files: strings_view(self.source_files@),
        }
    }
}

/// The configuration before any argument is read.
pub open spec fn empty_config() -> ConfigView {
    ConfigView {
        help: false,
        lex: false,
        parse: false,
        code_gen: false,
        type_check: false,
        path: None,
        source_files: Seq::empty(),
    }
}

/// Reads the arguments from `args[i]` on into `config`; `seen_file` tells whether a
/// source file came before, `updated_path` whether `-D` did.
pub open spec fn parse_from(
    args: Seq<Seq<char>>,
    i: nat,
    config: ConfigView,
    seen_file: bool,
    updated_path: bool,
) -> Result<ConfigView, ArgsError>
    decreases args.len() - i,
{
    if i >= args.len() {
        Ok(config)
    } else {
        let arg = args[i as int];
        if arg == "--help"@ {
            if seen_file {
                Err(ArgsError::OptionAfterFile)
            } else {
                parse_from(args, i + 1, ConfigView { help: true, ..config }, seen_file, updated_path)
            }
        } else if arg == "--lex"@ {
            if seen_file {
                Err(ArgsError::OptionAfterFile)
            } else {
                parse_from(args, i + 1, ConfigView { lex: true, ..config }, seen_file, updated_path)
            }
        } else if arg == "-D"@ {
            if seen_file {
                Err(ArgsError::OptionAfterFile)
            } else if updated_path {
                Err(ArgsError::PathGivenTwice)
            } else if i + 1 < args.len() {
                parse_from(args, i + 2, ConfigView { path: Some(args[i + 1 as int]), ..config }, seen_file, true)
            } else {
                Ok(config)
            }
        } else {
            parse_from(
                args,
                i + 1,
                ConfigView { source_files: config.source_files.push(arg), ..config },
                true,
                updated_path,
            )
        }
    }
}

/// The configuration that the command line `args` (the program's name first) asks for.
pub open spec fn parsed_args(args: Seq<Seq<char>>) -> Result<ConfigView, ArgsError> {
    if args.len() == 1 {
        Err(ArgsError::NotEnoughArguments)
    } else {
        parse_from(args, 1, empty_config(), false, false)
    }
}

/// Whether `s` is `lit`.
fn str_is(s: &str, lit: &str) -> (b: bool)
    ensures
        b == (s@ == lit@),
{
    let chars = chars_of(s);
    let r = range_is(&chars, 0, chars.len(), lit);
    assert(chars@.subrange(0, chars@.len() as int) =~= chars@);
    r
}

/// Reads the command line `args`, the program's name first, then the options, then the
/// source files.
pub fn parse_args(args: &[String]) -> (r: Result<Config, ArgsError>)
    ensures
        match r {
            Ok(config) => parsed_args(strings_view(args@)) == Ok::<ConfigView, ArgsError>(config@),
            Err(e) => parsed_args(strings_view(args@)) == Err::<ConfigView, ArgsError>(e),
        },
{
    let ghost argv = strings_view(args@);
    if args.len() == 1 {
        return Err(ArgsError::NotEnoughArguments);
    }
    let mut config = Config {
        help: false,
        lex: false,
        parse: false,
        code_gen: false,
        type_check: false,
        path: None,
        source_files: Vec::new(),
    };
    assert(config@.source_files =~= Seq::<Seq<char>>::empty());
    let mut seen_file = false;
    let mut updated_path = false;
    let mut i: usize = 1;
    while i < args.len()
        invariant
            argv == strings_view(args@),
            argv.len() != 1,
            1 <= i,
            parse_from(argv, i as nat, config@, seen_file, updated_path) == parsed_args(argv),
        decreases args@.len() - i,
    {
        let arg = args[i].as_str();
        assert(argv[i as int] == arg@);
        if str_is(arg, "--help") {
            if seen_file {
                return Err(ArgsError::OptionAfterFile);
            }
            config.help = true;
            i = i + 1;
        } else if str_is(arg, "--lex") {
            if seen_file {
                return Err(ArgsError::OptionAfterFile);
            }
            config.lex = true;
            i = i + 1;
        } else if str_is(arg, "-D") {
            if seen_file {
                return Err(ArgsError::OptionAfterFile);
            }
            if updated_path {
                return Err(ArgsError::PathGivenTwice);
            }
            updated_path = true;
            if i + 1 < args.len() {
                assert(argv[i + 1] == args@[i + 1]@);
                config.path = Some(args[i + 1].clone());
                i = i + 2;
            } else {
                return Ok(config);
            }
        } else {
            seen_file = true;
            let ghost before = config@.source_files;
            config.source_files.push(args[i].clone());
            assert(config@.source_files =~= before.push(arg@));
            i = i + 1;
        }
    }
    Ok(config)
}

/// What the driver does for a configuration.
#[derive(Debug, Clone, Copy, PartialEq, Eq, Structural)]
pub enum Task {
    /// Print the usage.
    Help,
    /// Lex each source file into a `.lexed` file.
    Lex,
    Parse,
    TypeCheck,
    CodeGen,
    /// No stage was asked for.
    Unhandled,
}

/// The task for `config`: the usage when there is no source file or `--help` is given,
/// else the first stage asked for.
pub open spec fn task_of(config: ConfigView) -> Task {
    if config.source_files.len() == 0 || config.help {
        Task::Help
    } else if config.lex {
        Task::Lex
    } else if config.parse {
        Task::Parse
    } else if config.type_check {
        Task::TypeCheck
    } else if config.code_gen {
        Task::CodeGen
    } else {
        Task::Unhandled
    }
}

impl Config {
    /// What the driver does for this configuration.
    pub fn task(&self) -> (t: Task)
        ensures
            t == task_of(self@),
    {
        if self.source_files.len() == 0 || self.help {
            Task::Help
        } else if self.lex {
            Task::Lex
        } else if self.parse {
            Task::Parse
        } else if self.type_check {
            Task::TypeCheck
        } else if self.code_gen {
            Task::CodeGen
        } else {
            Task::Unhandled
        }
    }
}

} // verus!
