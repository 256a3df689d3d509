//! The command line.

use vstd::prelude::*;
use vstd::slice::slice_subrange;
use vstd::string::*;

use crate::text::{chars_of, has_prefix, is_text, starts_with, string_of};

verus! {

/// Where the settings are by default.
pub const DEFAULT_CONFIG_PATH: &'static str = "/etc/rockpi-penta.conf";

/// Where the pins of the board are by default.
pub const DEFAULT_ENV_FILE: &'static str = "/etc/rockpi-penta.env";

/// Where the temperature of the processor is by default.
pub const DEFAULT_CPU_TEMP_PATH: &'static str = "/sys/class/thermal/thermal_zone0/temp";

/// What the command line asks for.
#[derive(Debug, Clone, PartialEq, Eq)]
pub struct Args {
    pub config_path: String,
    pub env_file: String,
    pub cpu_temp_path: String,
    pub dry_run: bool,
    pub once: bool,
    pub help: bool,
}

/// What the command line asks for, as mathematical data.
pub struct ArgsView {
    pub config_path: Seq<char>,
    pub env_file: Seq<char>,
    pub cpu_temp_path: Seq<char>,
    pub dry_run: bool,
    pub once: bool,
    pub help: bool,
}

impl View for Args {
    type V = ArgsView;

    open spec fn view(&self) -> ArgsView {
        ArgsView {
            config_path: self.config_path@,
            env_file: self.env_file@,
            cpu_temp_path: self.cpu_temp_path@,
            dry_run: self.dry_run,
            once: self.once,
            help: self.help,
        }
    }
}

/// What is done where the command line asks for nothing.
pub open spec fn default_args() -> ArgsView {
    ArgsView {
        config_path: DEFAULT_CONFIG_PATH@,
        env_file: DEFAULT_ENV_FILE@,
        cpu_temp_path: DEFAULT_CPU_TEMP_PATH@,
        dry_run: false,
        once: false,
        help: false,
    }
}

impl Default for Args {
    fn default() -> (r: Self)
        ensures
            r@ == default_args(),
    {
        Args {
            config_path: DEFAULT_CONFIG_PATH.to_owned(),
            env_file: DEFAULT_ENV_FILE.to_owned(),
            cpu_temp_path: DEFAULT_CPU_TEMP_PATH.to_owned(),
            dry_run: false,
            once: false,
            help: false,
        }
    }
}

/// The words of a command line; a word that is no text is `None`.
pub open spec fn words_of(args: Seq<Option<String>>) -> Seq<Option<Seq<char>>> {
    Seq::new(
        args.len(),
        |i: int|
            match args[i] {
                Some(word) => Some(word@),
                None => None,
            },
    )
}

/// The path after a flag.
pub open spec fn path_at(words: Seq<Option<Seq<char>>>, at: int, flag: Seq<char>) -> Result<
    Seq<char>,
    Seq<char>,
> {
    if at >= words.len() {
        Err(flag + " requires a value"@)
    } else {
        match words[at] {
            None => Err(flag + " value must be valid UTF-8"@),
            Some(path) => if path.len() == 0 {
                Err(flag + " value must not be empty"@)
            } else {
                Ok(path)
            },
        }
    }
}

/// What the words from `at` on make of what the words before ask for.
pub open spec fn args_from(words: Seq<Option<Seq<char>>>, at: int, args: ArgsView) -> Result<
    ArgsView,
    Seq<char>,
>
    decreases words.len() - at,
{
    if at >= words.len() {
        Ok(args)
    } else {
        match words[at] {
            None => Err("arguments must be valid UTF-8"@),
            Some(word) => if word == "--help"@ || word == "-h"@ {
                args_from(words, at + 1, ArgsView { help: true, ..args })
            } else if word == "--dry-run"@ {
                args_from(words, at + 1, ArgsView { dry_run: true, ..args })
            } else if word == "--once"@ {
                args_from(words, at + 1, ArgsView { once: true, ..args })
            } else if starts_with(word, "--config="@) {
                args_from(words, at + 1, ArgsView { config_path: word.skip(9), ..args })
            } else if word == "--config"@ {
                match path_at(words, at + 1, "--config"@) {
                    Ok(path) => args_from(words, at + 2, ArgsView { config_path: path, ..args }),
                    Err(error) => Err(error),
                }
            } else if starts_with(word, "--env-file="@) {
                args_from(words, at + 1, ArgsView { env_file: word.skip(11), ..args })
            } else if word == "--env-file"@ {
                match path_at(words, at + 1, "--env-file"@) {
                    Ok(path) => args_from(words, at + 2, ArgsView { env_file: path, ..args }),
                    Err(error) => Err(error),
                }
            } else if starts_with(word, "--cpu-temp-path="@) {
                args_from(words, at + 1, ArgsView { cpu_temp_path: word.skip(16), ..args })
            } else if word == "--cpu-temp-path"@ {
                match path_at(words, at + 1, "--cpu-temp-path"@) {
                    Ok(path) => args_from(words, at + 2, ArgsView { cpu_temp_path: path, ..args }),
                    Err(error) => Err(error),
                }
            } else {
                Err("unknown argument: "@ + word)
            },
        }
    }
}

/// Whether a result is the one given as mathematical data.
pub open spec fn is_args(r: Result<Args, String>, expected: Result<ArgsView, Seq<char>>) -> bool {
    match r {
        Ok(args) => expected == Ok::<ArgsView, Seq<char>>(args@),
        Err(error) => expected == Err::<ArgsView, Seq<char>>(error@),
    }
}

/// Finds the path after a flag.
pub fn next_path(args: &Vec<Option<String>>, at: usize, flag: &str) -> (r: Result<String, String>)
    ensures
        match r {
            Ok(path) => path_at(words_of(args@), at as int, flag@) == Ok::<Seq<char>, Seq<char>>(
                path@,
            ),
            Err(error) => path_at(words_of(args@), at as int, flag@) == Err::<
                Seq<char>,
                Seq<char>,
            >(error@),
        },
        r is Ok ==> at < args@.len(),
{
    let mut error = flag.to_owned();
    if at >= args.len() {
        error.append(" requires a value");
        return Err(error);
    }
    match &args[at] {
        None => {
            error.append(" value must be valid UTF-8");
            Err(error)
        },
        Some(path) => {
            let chars = chars_of(path.as_str());
            if chars.len() == 0 {
                error.append(" value must not be empty");
                Err(error)
            } else {
                Ok(path.clone())
            }
        },
    }
}

fn without(chars: &Vec<char>, prefix: &str, length: usize) -> (r: Option<String>)
    requires
        length == prefix@.len(),
    ensures
        match r {
            Some(rest) => starts_with(chars@, prefix@) && rest@ == chars@.skip(length as int),
            None => !starts_with(chars@, prefix@),
        },
{
    if has_prefix(chars, prefix) {
        let rest = slice_subrange(chars.as_slice(), length, chars.len());
        assert(rest@ == chars@.skip(length as int));
        Some(string_of(rest))
    } else {
        None
    }
}

impl Args {
    /// Reads a command line, of which the first word is the name of the program.
    pub fn parse_from(args: &Vec<Option<String>>) -> (r: Result<Args, String>)
        ensures
            is_args(r, args_from(words_of(args@), 1, default_args())),
    {
        proof {
            reveal_strlit("--config=");
            reveal_strlit("--env-file=");
            reveal_strlit("--cpu-temp-path=");
        }
        let ghost words = words_of(args@);
        let mut parsed = Args::default();
        let count: usize = args.len();
        if count == 0 {
            return Ok(parsed);
        }
        let mut at: usize = 1;
        while at < count
            invariant
                count == args@.len(),
                1 <= at <= count,
                words == words_of(args@),
                "--config="@.len() == 9,
                "--env-file="@.len() == 11,
                "--cpu-temp-path="@.len() == 16,
                args_from(words, 1, default_args()) == args_from(words, at as int, parsed@),
            decreases count - at,
        {
            let word = match &args[at] {
                None => {
                    return Err("arguments must be valid UTF-8".to_owned());
                },
                Some(word) => chars_of(word.as_str()),
            };
            assert(words[at as int] == Some(word@));
            if is_text(&word, "--help") || is_text(&word, "-h") {
                parsed.help = true;
            } else if is_text(&word, "--dry-run") {
                parsed.dry_run = true;
            } else if is_text(&word, "--once") {
                parsed.once = true;
            } else if let Some(value) = without(&word, "--config=", 9) {
                parsed.config_path = value;
            } else if is_text(&word, "--config") {
                parsed.config_path = next_path(args, at + 1, "--config")?;
                at = at + 1;
            } else if let Some(value) = without(&word, "--env-file=", 11) {
                parsed.env_file = value;
            } else if is_text(&word, "--env-file") {
                parsed.env_file = next_path(args, at + 1, "--env-file")?;
                at = at + 1;
            } else if let Some(value) = without(&word, "--cpu-temp-path=", 16) {
                parsed.cpu_temp_path = value;
            } else if is_text(&word, "--cpu-temp-path") {
                parsed.cpu_temp_path = next_path(args, at + 1, "--cpu-temp-path")?;
                at = at + 1;
            } else {
                let mut error = "unknown argument: ".to_owned();
                error.append(string_of(&word).as_str());
                return Err(error);
            }
            at = at + 1;
        }
        Ok(parsed)
    }
}

/// The help for a program of the given name.
pub open spec fn usage_text(program: Seq<char>) -> Seq<char> {
    "Usage: "@ + program + " [OPTIONS]\n\nOptions:\n"@
        + "      --config <PATH>         Config file path [default: "@ + DEFAULT_CONFIG_PATH@
        + "]\n      --env-file <PATH>       Board pin env file path [default: "@ + DEFAULT_ENV_FILE@
        + "]\n      --cpu-temp-path <PATH>  CPU temp path [default: "@ + DEFAULT_CPU_TEMP_PATH@
        + "]\n      --dry-run               Print fan decisions without hardware output\n"@
        + "      --once                  Take one sample and exit\n"@
        + "  -h, --help                  Show this help\n"@
}

/// Gives the help for a program of the given name.
pub fn usage(program: &str) -> (r: String)
    ensures
        r@ == usage_text(program@),
{
    let mut out = "Usage: ".to_owned();
    out.append(program);
    out.append(" [OPTIONS]\n\nOptions:\n");
    out.append("      --config <PATH>         Config file path [default: ");
    out.append(DEFAULT_CONFIG_PATH);
    out.append("]\n      --env-file <PATH>       Board pin env file path [default: ");
    out.append(DEFAULT_ENV_FILE);
    out.append("]\n      --cpu-temp-path <PATH>  CPU temp path [default: ");
    out.append(DEFAULT_CPU_TEMP_PATH);
    out.append("]\n      --dry-run               Print fan decisions without hardware output\n");
    out.append("      --once                  Take one sample and exit\n");
    out.append("  -h, --help                  Show this help\n");
    out
}

/// A command line without options asks for what is done by default.
pub proof fn no_options_means_defaults(words: Seq<Option<Seq<char>>>)
    requires
        words.len() <= 1,
    ensures
        args_from(words, 1, default_args()) == Ok::<ArgsView, Seq<char>>(default_args()),
{
}

proof fn lemma_options_differ()
    ensures
        "--config="@ == "--config"@ + seq!['='],
        "--env-file="@ == "--env-file"@ + seq!['='],
        "--cpu-temp-path="@ == "--cpu-temp-path"@ + seq!['='],
        "--config="@.len() == 9,
        "--env-file="@.len() == 11,
        "--cpu-temp-path="@.len() == 16,
        "--help"@ != "--dry-run"@,
        "--help"@ != "--once"@,
        "-h"@ != "--dry-run"@,
        "-h"@ != "--once"@,
        "--dry-run"@ != "--once"@,
        forall|path: Seq<char>|
            #![trigger "--config="@ + path]
            "--config="@ + path != "--help"@ && "--config="@ + path != "-h"@ && "--config="@ + path
                != "--dry-run"@ && "--config="@ + path != "--once"@ && starts_with(
                "--config="@ + path,
                "--config="@,
            ) && ("--config="@ + path).skip(9) == path,
        forall|path: Seq<char>|
            #![trigger "--env-file="@ + path]
            "--env-file="@ + path != "--help"@ && "--env-file="@ + path != "-h"@ && "--env-file="@
                + path != "--dry-run"@ && "--env-file="@ + path != "--once"@ && !starts_with(
                "--env-file="@ + path,
                "--config="@,
            ) && "--env-file="@ + path != "--config"@ && starts_with(
                "--env-file="@ + path,
                "--env-file="@,
            ) && ("--env-file="@ + path).skip(11) == path,
        forall|path: Seq<char>|
            #![trigger "--cpu-temp-path="@ + path]
            "--cpu-temp-path="@ + path != "--help"@ && "--cpu-temp-path="@ + path != "-h"@
                && "--cpu-temp-path="@ + path != "--dry-run"@ && "--cpu-temp-path="@ + path
                != "--once"@ && !starts_with("--cpu-temp-path="@ + path, "--config="@)
                && "--cpu-temp-path="@ + path != "--config"@ && !starts_with(
                "--cpu-temp-path="@ + path,
                "--env-file="@,
            ) && "--cpu-temp-path="@ + path != "--env-file"@ && starts_with(
                "--cpu-temp-path="@ + path,
                "--cpu-temp-path="@,
            ) && ("--cpu-temp-path="@ + path).skip(16) == path,
        !starts_with("--config"@, "--config="@) && "--config"@ != "--help"@ && "--config"@ != "-h"@
            && "--config"@ != "--dry-run"@ && "--config"@ != "--once"@,
        !starts_with("--env-file"@, "--env-file="@) && !starts_with("--env-file"@, "--config="@)
            && "--env-file"@ != "--config"@ && "--env-file"@ != "--help"@ && "--env-file"@ != "-h"@
            && "--env-file"@ != "--dry-run"@ && "--env-file"@ != "--once"@,
        !starts_with("--cpu-temp-path"@, "--cpu-temp-path="@) && !starts_with(
            "--cpu-temp-path"@,
            "--config="@,
        ) && !starts_with("--cpu-temp-path"@, "--env-file="@) && "--cpu-temp-path"@ != "--config"@
            && "--cpu-temp-path"@ != "--env-file"@ && "--cpu-temp-path"@ != "--help"@
            && "--cpu-temp-path"@ != "-h"@ && "--cpu-temp-path"@ != "--dry-run"@
            && "--cpu-temp-path"@ != "--once"@,
{
    reveal_strlit("--help");
    reveal_strlit("-h");
    reveal_strlit("--dry-run");
    reveal_strlit("--once");
    reveal_strlit("--config=");
    reveal_strlit("--config");
    reveal_strlit("--env-file=");
    reveal_strlit("--env-file");
    reveal_strlit("--cpu-temp-path=");
    reveal_strlit("--cpu-temp-path");
    assert("--config="@ =~= "--config"@ + seq!['=']);
    assert("--env-file="@ =~= "--env-file"@ + seq!['=']);
    assert("--cpu-temp-path="@ =~= "--cpu-temp-path"@ + seq!['=']);
    assert("--help"@[2] == 'h' && "--dry-run"@[2] == 'd' && "--once"@[2] == 'o' && "--config"@[2]
        == 'c' && "--env-file"@[2] == 'e' && "--cpu-temp-path"@[2] == 'c' && "--cpu-temp-path"@[3]
        == 'p' && "--config"@[3] == 'o' && "-h"@[1] == 'h' && "--once"@[1] == '-');
    assert("-h"@.len() == 2);
    assert forall|path: Seq<char>|
        #![trigger "--config="@ + path]
        "--config="@ + path != "--help"@ && "--config="@ + path != "-h"@ && "--config="@ + path
            != "--dry-run"@ && "--config="@ + path != "--once"@ && starts_with(
            "--config="@ + path,
            "--config="@,
        ) && ("--config="@ + path).skip(9) == path by {
        let word = "--config="@ + path;
        assert(word[2] == 'c' && word.len() >= 9);
        assert(word.take(9) =~= "--config="@);
        assert(word.skip(9) =~= path);
    }
    assert forall|path: Seq<char>|
        #![trigger "--env-file="@ + path]
        "--env-file="@ + path != "--help"@ && "--env-file="@ + path != "-h"@ && "--env-file="@ + path
            != "--dry-run"@ && "--env-file="@ + path != "--once"@ && !starts_with(
            "--env-file="@ + path,
            "--config="@,
        ) && "--env-file="@ + path != "--config"@ && starts_with(
            "--env-file="@ + path,
            "--env-file="@,
        ) && ("--env-file="@ + path).skip(11) == path by {
        let word = "--env-file="@ + path;
        assert(word[2] == 'e' && word.len() >= 11);
        assert(word.take(11) =~= "--env-file="@);
        assert(word.skip(11) =~= path);
        assert(word.take(9)[2] == 'e');
        assert("--config="@[2] == 'c');
    }
    assert forall|path: Seq<char>|
        #![trigger "--cpu-temp-path="@ + path]
        "--cpu-temp-path="@ + path != "--help"@ && "--cpu-temp-path="@ + path != "-h"@
            && "--cpu-temp-path="@ + path != "--dry-run"@ && "--cpu-temp-path="@ + path != "--once"@
            && !starts_with("--cpu-temp-path="@ + path, "--config="@) && "--cpu-temp-path="@ + path
            != "--config"@ && !starts_with("--cpu-temp-path="@ + path, "--env-file="@)
            && "--cpu-temp-path="@ + path != "--env-file"@ && starts_with(
            "--cpu-temp-path="@ + path,
            "--cpu-temp-path="@,
        ) && ("--cpu-temp-path="@ + path).skip(16) == path by {
        let word = "--cpu-temp-path="@ + path;
        assert(word[2] == 'c' && word[3] == 'p' && word.len() >= 16);
        assert(word.take(16) =~= "--cpu-temp-path="@);
        assert(word.skip(16) =~= path);
        assert(word.take(9)[3] == 'p');
        assert("--config="@[3] == 'o');
        assert(word.take(11)[2] == 'c');
        assert("--env-file="@[2] == 'e');
    }
    assert("--env-file"@.take(9)[2] == 'e' && "--config="@[2] == 'c');
    assert("--cpu-temp-path"@.take(9)[3] == 'p' && "--config="@[3] == 'o');
    assert("--cpu-temp-path"@.take(11)[2] == 'c' && "--env-file="@[2] == 'e');
}

/// Every option does one thing and leaves the rest as by default. A path may
/// stand after its option or behind an equals sign; behind an equals sign it may
/// be empty.
pub proof fn options_do_one_thing(program: Option<Seq<char>>, path: Seq<char>)
    ensures
        ({
            let d = default_args();
            let alone = |word: Seq<char>| args_from(seq![program, Some(word)], 1, d);
            let followed = |word: Seq<char>| args_from(seq![program, Some(word), Some(path)], 1, d);
            &&& alone("--help"@) == Ok::<ArgsView, Seq<char>>(ArgsView { help: true, ..d })
            &&& alone("-h"@) == Ok::<ArgsView, Seq<char>>(ArgsView { help: true, ..d })
            &&& alone("--dry-run"@) == Ok::<ArgsView, Seq<char>>(ArgsView { dry_run: true, ..d })
            &&& alone("--once"@) == Ok::<ArgsView, Seq<char>>(ArgsView { once: true, ..d })
            &&& alone("--config="@ + path) == Ok::<ArgsView, Seq<char>>(
                ArgsView { config_path: path, ..d },
            )
            &&& alone("--env-file="@ + path) == Ok::<ArgsView, Seq<char>>(
                ArgsView { env_file: path, ..d },
            )
            &&& alone("--cpu-temp-path="@ + path) == Ok::<ArgsView, Seq<char>>(
                ArgsView { cpu_temp_path: path, ..d },
            )
            &&& path.len() > 0 ==> {
                &&& followed("--config"@) == Ok::<ArgsView, Seq<char>>(
                    ArgsView { config_path: path, ..d },
                )
                &&& followed("--env-file"@) == Ok::<ArgsView, Seq<char>>(
                    ArgsView { env_file: path, ..d },
                )
                &&& followed("--cpu-temp-path"@) == Ok::<ArgsView, Seq<char>>(
                    ArgsView { cpu_temp_path: path, ..d },
                )
            }
        }),
{
    lemma_options_differ();
    reveal_with_fuel(args_from, 3);
}

/// An option that needs a path is refused without one, with an empty one, and
/// with one that is no text; so are words that are no text and words that are not
/// known.
pub proof fn wrong_options_are_refused(program: Option<Seq<char>>, word: Seq<char>)
    ensures
        ({
            let d = default_args();
            let alone = |w: Option<Seq<char>>| args_from(seq![program, w], 1, d);
            let followed = |flag: Seq<char>, w: Option<Seq<char>>|
                args_from(seq![program, Some(flag), w], 1, d);
            &&& alone(None) == Err::<ArgsView, Seq<char>>("arguments must be valid UTF-8"@)
            &&& forall|flag: Seq<char>|
                #![trigger flag + " requires a value"@]
                flag == "--config"@ || flag == "--env-file"@ || flag == "--cpu-temp-path"@ ==> {
                    &&& alone(Some(flag)) == Err::<ArgsView, Seq<char>>(flag + " requires a value"@)
                    &&& followed(flag, None) == Err::<ArgsView, Seq<char>>(
                        flag + " value must be valid UTF-8"@,
                    )
                    &&& followed(flag, Some(Seq::empty())) == Err::<ArgsView, Seq<char>>(
                        flag + " value must not be empty"@,
                    )
                }
            &&& (word.len() == 0 || word[0] != '-') ==> alone(Some(word)) == Err::<
                ArgsView,
                Seq<char>,
            >("unknown argument: "@ + word)
        }),
{
    lemma_options_differ();
    reveal_with_fuel(args_from, 3);
    if word.len() == 0 || word[0] != '-' {
        reveal_strlit("--help");
        reveal_strlit("-h");
        reveal_strlit("--dry-run");
        reveal_strlit("--once");
        reveal_strlit("--config=");
        reveal_strlit("--config");
        reveal_strlit("--env-file=");
        reveal_strlit("--env-file");
        reveal_strlit("--cpu-temp-path=");
        reveal_strlit("--cpu-temp-path");
        if starts_with(word, "--config="@) {
            assert(word.take(9)[0] == word[0]);
        }
        if starts_with(word, "--env-file="@) {
            assert(word.take(11)[0] == word[0]);
        }
        if starts_with(word, "--cpu-temp-path="@) {
            assert(word.take(16)[0] == word[0]);
        }
        assert("--help"@[0] == '-' && "-h"@[0] == '-' && "--dry-run"@[0] == '-' && "--once"@[0]
            == '-' && "--config"@[0] == '-' && "--env-file"@[0] == '-' && "--cpu-temp-path"@[0]
            == '-');
    }
}

/// Options add up: what further words ask for is added to what the words before
/// them ask for.
pub proof fn options_add_up(
    words: Seq<Option<Seq<char>>>,
    more: Seq<Option<Seq<char>>>,
    at: int,
    args: ArgsView,
)
    requires
        0 <= at <= words.len(),
    ensures
        args_from(words, at, args) matches Ok(asked) ==> args_from(words + more, at, args)
            == args_from(more, 0, asked),
    decreases words.len() - at,
{
    let all = words + more;
    if at >= words.len() {
        lemma_args_shift(words, more, 0, args);
    } else {
        assert(all[at] == words[at]);
        if let Ok(asked) = args_from(words, at, args) {
            if let Some(word) = words[at] {
                if at + 1 < words.len() {
                    assert(all[at + 1] == words[at + 1]);
                }
                if word == "--help"@ || word == "-h"@ {
                    options_add_up(words, more, at + 1, ArgsView { help: true, ..args });
                } else if word == "--dry-run"@ {
                    options_add_up(words, more, at + 1, ArgsView { dry_run: true, ..args });
                } else if word == "--once"@ {
                    options_add_up(words, more, at + 1, ArgsView { once: true, ..args });
                } else if starts_with(word, "--config="@) {
                    options_add_up(words, more, at + 1, ArgsView { config_path: word.skip(9), ..args });
                } else if word == "--config"@ {
                    let path = path_at(words, at + 1, word)->Ok_0;
                    options_add_up(words, more, at + 2, ArgsView { config_path: path, ..args });
                } else if starts_with(word, "--env-file="@) {
                    options_add_up(words, more, at + 1, ArgsView { env_file: word.skip(11), ..args });
                } else if word == "--env-file"@ {
                    let path = path_at(words, at + 1, word)->Ok_0;
                    options_add_up(words, more, at + 2, ArgsView { env_file: path, ..args });
                } else if starts_with(word, "--cpu-temp-path="@) {
                    options_add_up(
                        words,
                        more,
                        at + 1,
                        ArgsView { cpu_temp_path: word.skip(16), ..args },
                    );
                } else {
                    let path = path_at(words, at + 1, word)->Ok_0;
                    options_add_up(words, more, at + 2, ArgsView { cpu_temp_path: path, ..args });
                }
            }
        }
    }
}

proof fn lemma_args_shift(
    words: Seq<Option<Seq<char>>>,
    more: Seq<Option<Seq<char>>>,
    at: int,
    args: ArgsView,
)
    requires
        0 <= at,
    ensures
        args_from(words + more, words.len() + at, args) == args_from(more, at, args),
    decreases more.len() - at,
{
    let all = words + more;
    let n = words.len() as int;
    if at < more.len() {
        assert(all[n + at] == more[at]);
        if at + 1 < more.len() {
            assert(all[n + at + 1] == more[at + 1]);
        }
        if let Some(word) = more[at] {
            lemma_args_shift(words, more, at + 1, ArgsView { help: true, ..args });
            lemma_args_shift(words, more, at + 1, ArgsView { dry_run: true, ..args });
            lemma_args_shift(words, more, at + 1, ArgsView { once: true, ..args });
            lemma_args_shift(words, more, at + 1, ArgsView { config_path: word.skip(9), ..args });
            lemma_args_shift(words, more, at + 1, ArgsView { env_file: word.skip(11), ..args });
            lemma_args_shift(words, more, at + 1, ArgsView { cpu_temp_path: word.skip(16), ..args });
            if at + 1 < more.len() {
                if let Some(path) = more[at + 1] {
                    lemma_args_shift(words, more, at + 2, ArgsView { config_path: path, ..args });
                    lemma_args_shift(words, more, at + 2, ArgsView { env_file: path, ..args });
                    lemma_args_shift(words, more, at + 2, ArgsView { cpu_temp_path: path, ..args });
                }
            }
        }
    }
}

/// Without options the settings, the pins and the temperature are read from where
/// they are on the system, and the fan is driven until the end.
pub proof fn default_paths_are_those_of_the_system()
    ensures
        default_args().config_path == "/etc/rockpi-penta.conf"@,
        default_args().env_file == "/etc/rockpi-penta.env"@,
        default_args().cpu_temp_path == "/sys/class/thermal/thermal_zone0/temp"@,
        !default_args().dry_run && !default_args().once && !default_args().help,
{
}

} // verus!
