//! The command line.

use crate::text::{
    chars, decimal, digit_char, is_digit, is_digit_spec, lemma_decimal_digits, same, starts_with,
    views,
};
use crate::thresholds::{HISTORY_MAX, HISTORY_MIN, INTERVAL_MAX, INTERVAL_MIN};
use vstd::prelude::*;

verus! {

/// Why a text is no number.
#[derive(Clone, Copy, Debug, PartialEq, Eq, Structural)]
pub enum NumberError {
    Empty,
    InvalidDigit,
    TooLarge,
}

/// Why the arguments are refused.
#[derive(Debug)]
pub enum ArgumentError {
    MissingInterval,
    MissingHistory,
    Number(NumberError),
    Unknown(String),
    IntervalRange,
    HistoryRange,
}

/// What is wrong with the arguments.
pub enum Fault {
    MissingInterval,
    MissingHistory,
    Number(NumberError),
    Unknown(Seq<char>),
    IntervalRange,
    HistoryRange,
}

impl View for ArgumentError {
    type V = Fault;

    open spec fn view(&self) -> Fault {
        match self {
            ArgumentError::MissingInterval => Fault::MissingInterval,
            ArgumentError::MissingHistory => Fault::MissingHistory,
            ArgumentError::Number(error) => Fault::Number(*error),
            ArgumentError::Unknown(option) => Fault::Unknown(option@),
            ArgumentError::IntervalRange => Fault::IntervalRange,
            ArgumentError::HistoryRange => Fault::HistoryRange,
        }
    }
}

pub open spec fn fault_message(fault: Fault) -> Seq<char> {
    match fault {
        Fault::MissingInterval => "missing interval"@,
        Fault::MissingHistory => "missing history"@,
        Fault::Number(NumberError::Empty) => "cannot parse integer from empty string"@,
        Fault::Number(NumberError::InvalidDigit) => "invalid digit found in string"@,
        Fault::Number(NumberError::TooLarge) => "number too large to fit in target type"@,
        Fault::Unknown(option) => "unknown option: "@ + option,
        Fault::IntervalRange => "interval must be between 1 and 60 seconds"@,
        Fault::HistoryRange => "history must be between 20 and 3600"@,
    }
}

impl ArgumentError {
    /// The error in words.
    pub fn message(&self) -> (out: String)
        ensures
            out@ == fault_message(self@),
    {
        match self {
            ArgumentError::MissingInterval => "missing interval".to_string(),
            ArgumentError::MissingHistory => "missing history".to_string(),
            ArgumentError::Number(NumberError::Empty) => {
                "cannot parse integer from empty string".to_string()
            },
            ArgumentError::Number(NumberError::InvalidDigit) => {
                "invalid digit found in string".to_string()
            },
            ArgumentError::Number(NumberError::TooLarge) => {
                "number too large to fit in target type".to_string()
            },
            ArgumentError::Unknown(option) => "unknown option: ".to_string().concat(
                option.as_str(),
            ),
            ArgumentError::IntervalRange => {
                "interval must be between 1 and 60 seconds".to_string()
            },
            ArgumentError::HistoryRange => "history must be between 20 and 3600".to_string(),
        }
    }
}

/// What the first `count` digits of a number come to: the number, or what is
/// wrong with the first digit that cannot be taken.
pub open spec fn number_up_to(digits: Seq<char>, count: nat) -> Result<u64, NumberError>
    decreases count,
{
    if count == 0 {
        Ok(0)
    } else {
        match number_up_to(digits, (count - 1) as nat) {
            Ok(value) => {
                let c = digits[count - 1];
                let next = value * 10 + (c as u32 - 48);
                if !is_digit_spec(c) {
                    Err(NumberError::InvalidDigit)
                } else if next > u64::MAX {
                    Err(NumberError::TooLarge)
                } else {
                    Ok(next as u64)
                }
            },
            Err(error) => Err(error),
        }
    }
}

/// A whole number of 64 bits: digits, after a plus sign if there is one.
pub open spec fn number_spec(s: Seq<char>) -> Result<u64, NumberError> {
    if s.len() == 0 {
        Err(NumberError::Empty)
    } else if s.len() == 1 && (s[0] == '+' || s[0] == '-') {
        Err(NumberError::InvalidDigit)
    } else {
        let digits = if s[0] == '+' {
            s.drop_first()
        } else {
            s
        };
        number_up_to(digits, digits.len())
    }
}

proof fn lemma_error_stays(digits: Seq<char>, i: nat, count: nat)
    requires
        i <= count,
        number_up_to(digits, i) is Err,
    ensures
        number_up_to(digits, count) == number_up_to(digits, i),
    decreases count,
{
    if i < count {
        lemma_error_stays(digits, i, (count - 1) as nat);
    }
}

/// Reads a whole number of 64 bits.
pub fn parse_number(s: &str) -> (result: Result<u64, NumberError>)
    ensures
        result == number_spec(s@),
{
    let list = chars(s);
    if list.len() == 0 {
        return Err(NumberError::Empty);
    }
    if list.len() == 1 && (list[0] == '+' || list[0] == '-') {
        return Err(NumberError::InvalidDigit);
    }
    let from: usize = if list[0] == '+' {
        1
    } else {
        0
    };
    let ghost digits = if s@[0] == '+' {
        s@.drop_first()
    } else {
        s@
    };
    assert(digits =~= s@.skip(from as int));
    let mut value: u64 = 0;
    for i in from..list.len()
        invariant
            list@ == s@,
            from <= i <= list@.len(),
            digits == s@.skip(from as int),
            number_spec(s@) == number_up_to(digits, digits.len()),
            number_up_to(digits, (i - from) as nat) == Ok::<u64, NumberError>(value),
    {
        let c = list[i];
        let ghost at = (i + 1 - from) as nat;
        assert(digits[i - from] == c);
        if !is_digit(c) {
            proof {
                assert(number_up_to(digits, at) == Err::<u64, NumberError>(
                    NumberError::InvalidDigit,
                ));
                lemma_error_stays(digits, at, digits.len());
            }
            return Err(NumberError::InvalidDigit);
        }
        let next: u128 = value as u128 * 10 + (c as u32 - 48) as u128;
        if next > u64::MAX as u128 {
            proof {
                assert(number_up_to(digits, at) == Err::<u64, NumberError>(NumberError::TooLarge));
                lemma_error_stays(digits, at, digits.len());
            }
            return Err(NumberError::TooLarge);
        }
        value = next as u64;
    }
    Ok(value)
}

/// How the monitor runs.
#[derive(Clone, Copy, Debug, PartialEq, Eq, Structural)]
pub struct Options {
    pub interval: u64,
    pub history: u64,
    pub once: bool,
}

/// What the command line asks for.
#[derive(Clone, Copy, Debug, PartialEq, Eq, Structural)]
pub enum Invocation {
    Run(Options),
    Version,
    Help,
}

/// Whether options keep to their ranges.
pub open spec fn checked(options: Options) -> Result<Invocation, Fault> {
    if options.interval < INTERVAL_MIN || options.interval > INTERVAL_MAX {
        Err(Fault::IntervalRange)
    } else if options.history < HISTORY_MIN || options.history > HISTORY_MAX {
        Err(Fault::HistoryRange)
    } else {
        Ok(Invocation::Run(options))
    }
}

/// What the arguments from a place on ask for. The first argument may be the
/// interval itself. A request for the version or for help ends the reading; an
/// argument that cannot be read does so too.
pub open spec fn arguments_spec(args: Seq<Seq<char>>, at: nat, options: Options) -> Result<
    Invocation,
    Fault,
>
    decreases args.len() - at,
{
    if at >= args.len() {
        checked(options)
    } else {
        let arg = args[at as int];
        if arg == "-i"@ || arg == "--interval"@ {
            if at + 1 >= args.len() {
                Err(Fault::MissingInterval)
            } else {
                match number_spec(args[at as int + 1]) {
                    Ok(interval) => arguments_spec(args, at + 2, Options { interval, ..options }),
                    Err(error) => Err(Fault::Number(error)),
                }
            }
        } else if arg == "-n"@ || arg == "--history"@ {
            if at + 1 >= args.len() {
                Err(Fault::MissingHistory)
            } else {
                match number_spec(args[at as int + 1]) {
                    Ok(history) => arguments_spec(args, at + 2, Options { history, ..options }),
                    Err(error) => Err(Fault::Number(error)),
                }
            }
        } else if arg == "-1"@ || arg == "--once"@ {
            arguments_spec(args, at + 1, Options { once: true, ..options })
        } else if arg == "-V"@ || arg == "--version"@ {
            Ok(Invocation::Version)
        } else if arg == "-h"@ || arg == "--help"@ {
            Ok(Invocation::Help)
        } else if at == 0 && !"-"@.is_prefix_of(arg) {
            match number_spec(arg) {
                Ok(interval) => arguments_spec(args, at + 1, Options { interval, ..options }),
                Err(error) => Err(Fault::Number(error)),
            }
        } else {
            Err(Fault::Unknown(arg))
        }
    }
}

/// Whether a result is what the arguments ask for.
pub open spec fn yields(
    result: Result<Invocation, ArgumentError>,
    expected: Result<Invocation, Fault>,
) -> bool {
    match (result, expected) {
        (Ok(invocation), Ok(wanted)) => invocation == wanted,
        (Err(error), Err(fault)) => error@ == fault,
        _ => false,
    }
}

/// Reads the command line. `interval` and `history` are what the settings ask
/// for, which the arguments replace.
pub fn parse_arguments(args: &Vec<String>, interval: u64, history: u64) -> (result: Result<
    Invocation,
    ArgumentError,
>)
    ensures
        yields(
            result,
            arguments_spec(views(args@), 0, Options { interval, history, once: false }),
        ),
{
    let ghost all = views(args@);
    let mut options = Options { interval, history, once: false };
    let count: usize = args.len();
    let mut i: usize = 0;
    while i < count
        invariant
            count == args@.len(),
            all == views(args@),
            all.len() == count,
            i <= count,
            arguments_spec(all, 0, Options { interval, history, once: false }) == arguments_spec(
                all,
                i as nat,
                options,
            ),
        decreases count - i,
    {
        let arg = args[i].as_str();
        assert(all[i as int] == arg@);
        if same(arg, "-i") || same(arg, "--interval") {
            if count - i <= 1 {
                return Err(ArgumentError::MissingInterval);
            }
            assert(all[i + 1] == args@[i + 1]@);
            match parse_number(args[i + 1].as_str()) {
                Ok(value) => {
                    options.interval = value;
                },
                Err(error) => {
                    return Err(ArgumentError::Number(error));
                },
            }
            i = i + 2;
        } else if same(arg, "-n") || same(arg, "--history") {
            if count - i <= 1 {
                return Err(ArgumentError::MissingHistory);
            }
            assert(all[i + 1] == args@[i + 1]@);
            match parse_number(args[i + 1].as_str()) {
                Ok(value) => {
                    options.history = value;
                },
                Err(error) => {
                    return Err(ArgumentError::Number(error));
                },
            }
            i = i + 2;
        } else if same(arg, "-1") || same(arg, "--once") {
            options.once = true;
            i = i + 1;
        } else if same(arg, "-V") || same(arg, "--version") {
            return Ok(Invocation::Version);
        } else if same(arg, "-h") || same(arg, "--help") {
            return Ok(Invocation::Help);
        } else if i == 0 && !starts_with(arg, "-") {
            match parse_number(arg) {
                Ok(value) => {
                    options.interval = value;
                },
                Err(error) => {
                    return Err(ArgumentError::Number(error));
                },
            }
            i = i + 1;
        } else {
            return Err(ArgumentError::Unknown(args[i].clone()));
        }
    }
    if options.interval < INTERVAL_MIN || options.interval > INTERVAL_MAX {
        Err(ArgumentError::IntervalRange)
    } else if options.history < HISTORY_MIN as u64 || options.history > HISTORY_MAX as u64 {
        Err(ArgumentError::HistoryRange)
    } else {
        Ok(Invocation::Run(options))
    }
}

/// Whatever the arguments are, the monitor runs only with an interval and a
/// history in range.
pub proof fn a_run_keeps_to_its_ranges(args: Seq<Seq<char>>, at: nat, options: Options)
    ensures
        match arguments_spec(args, at, options) {
            Ok(Invocation::Run(run)) => INTERVAL_MIN <= run.interval <= INTERVAL_MAX && HISTORY_MIN
                <= run.history <= HISTORY_MAX,
            _ => true,
        },
    decreases args.len() - at,
{
    if at < args.len() {
        let arg = args[at as int];
        if arg == "-i"@ || arg == "--interval"@ {
            if at + 1 < args.len() {
                if let Ok(interval) = number_spec(args[at as int + 1]) {
                    a_run_keeps_to_its_ranges(args, at + 2, Options { interval, ..options });
                }
            }
        } else if arg == "-n"@ || arg == "--history"@ {
            if at + 1 < args.len() {
                if let Ok(history) = number_spec(args[at as int + 1]) {
                    a_run_keeps_to_its_ranges(args, at + 2, Options { history, ..options });
                }
            }
        } else if arg == "-1"@ || arg == "--once"@ {
            a_run_keeps_to_its_ranges(args, at + 1, Options { once: true, ..options });
        } else if let Ok(interval) = number_spec(arg) {
            a_run_keeps_to_its_ranges(args, at + 1, Options { interval, ..options });
        }
    }
}

pub open spec fn diagnostics_default_hint_spec(linux: bool) -> Seq<char> {
    if linux {
        "~/.local/state/mlxtop/mlxtop.log"@
    } else {
        "~/Library/Logs/mlxtop/mlxtop.log"@
    }
}

/// Where the log is kept unless something else is said.
pub fn diagnostics_default_hint(linux: bool) -> (result: &'static str)
    ensures
        result@ == diagnostics_default_hint_spec(linux),
{
    if linux {
        "~/.local/state/mlxtop/mlxtop.log"
    } else {
        "~/Library/Logs/mlxtop/mlxtop.log"
    }
}

/// How the monitor is used.
pub fn help_text(linux: bool) -> (out: String)
    ensures
        out@
            == "Usage: mlxtop [refresh-seconds] [options]\n\nOptions: -i, --interval N  refresh interval (default 1)\n-n, --history N    chart/journal history (20–3600)\n-1, --once         static report\n-V, --version      show version\n-h, --help         show help\nConfig file: ~/.config/mlxtop/config.json\nDiagnostics: "@
            + diagnostics_default_hint_spec(linux)
            + " (override with MLXTOP_LOG_PATH)\n\nInteractive keys: q quit · 1 overview · 2 top · 3 journal · tab views · +/- interval · ? help"@,
{
    "Usage: mlxtop [refresh-seconds] [options]\n\nOptions: -i, --interval N  refresh interval (default 1)\n-n, --history N    chart/journal history (20–3600)\n-1, --once         static report\n-V, --version      show version\n-h, --help         show help\nConfig file: ~/.config/mlxtop/config.json\nDiagnostics: ".to_string().concat(
        diagnostics_default_hint(linux),
    ).concat(
        " (override with MLXTOP_LOG_PATH)\n\nInteractive keys: q quit · 1 overview · 2 top · 3 journal · tab views · +/- interval · ? help",
    )
}

/// Whether the terminal has to be restored.
#[derive(Clone, Copy, Debug, PartialEq, Eq, Structural)]
pub struct TerminalGuard {
    pub active: bool,
}

impl TerminalGuard {
    /// A guard over a terminal that was taken over.
    pub fn new() -> (result: TerminalGuard)
        ensures
            result.active,
    {
        TerminalGuard { active: true }
    }

    /// The terminal was restored already.
    pub fn disarm(&mut self)
        ensures
            !final(self).active,
    {
        self.active = false;
    }
}


proof fn lemma_number_of_prefix(a: Seq<char>, b: Seq<char>, count: nat)
    requires
        count <= a.len(),
        count <= b.len(),
        forall|i: int| 0 <= i < count ==> a[i] == b[i],
    ensures
        number_up_to(a, count) == number_up_to(b, count),
    decreases count,
{
    if count > 0 {
        lemma_number_of_prefix(a, b, (count - 1) as nat);
    }
}

proof fn lemma_number_of_decimal(n: u64)
    ensures
        number_up_to(decimal(n as nat), decimal(n as nat).len()) == Ok::<u64, NumberError>(n),
    decreases n,
{
    let s = decimal(n as nat);
    lemma_decimal_digits(n as nat);
    if n < 10 {
        assert(s =~= seq![digit_char(n as nat)]);
        assert(number_up_to(s, 0) == Ok::<u64, NumberError>(0));
        assert(s[0] as u32 - 48 == n);
    } else {
        let tens = decimal((n / 10) as nat);
        assert(s =~= tens.push(digit_char((n % 10) as nat)));
        lemma_number_of_decimal(n / 10);
        lemma_number_of_prefix(s, tens, tens.len());
        assert(s[tens.len() as int] as u32 - 48 == n % 10);
        assert((n / 10) * 10 + n % 10 == n);
    }
}

/// A number reads back as it is written, with or without a plus sign. A text
/// without digits is no number, and neither is one with a minus sign.
pub proof fn written_numbers_read_back(n: u64, rest: Seq<char>)
    ensures
        number_spec(decimal(n as nat)) == Ok::<u64, NumberError>(n),
        number_spec(seq!['+'] + decimal(n as nat)) == Ok::<u64, NumberError>(n),
        number_spec(Seq::empty()) == Err::<u64, NumberError>(NumberError::Empty),
        number_spec(seq!['-'] + rest) == Err::<u64, NumberError>(NumberError::InvalidDigit),
{
    let s = decimal(n as nat);
    lemma_decimal_digits(n as nat);
    lemma_number_of_decimal(n);
    assert(is_digit_spec(s[0]));
    assert((seq!['+'] + s).drop_first() =~= s);
    let minus = seq!['-'] + rest;
    assert(number_up_to(minus, 0) == Ok::<u64, NumberError>(0));
    assert(number_up_to(minus, 1) == Err::<u64, NumberError>(NumberError::InvalidDigit));
    lemma_error_stays(minus, 1, minus.len());
}

/// The names of an option, the short one and the long one.
pub open spec fn names(option: Seq<char>, short: Seq<char>, long: Seq<char>) -> bool {
    option == short || option == long
}

proof fn lemma_options_differ()
    ensures
        "-i"@ != "-n"@,
        "-i"@ != "--history"@,
        "-i"@ != "-1"@,
        "-i"@ != "--once"@,
        "--interval"@ != "-n"@,
        "--interval"@ != "--history"@,
        "--interval"@ != "-1"@,
        "--interval"@ != "--once"@,
        "-n"@ != "-1"@,
        "-n"@ != "--once"@,
        "--history"@ != "-1"@,
        "--history"@ != "--once"@,
{
    reveal_strlit("-i");
    reveal_strlit("--interval");
    reveal_strlit("-n");
    reveal_strlit("--history");
    reveal_strlit("-1");
    reveal_strlit("--once");
    assert("-i"@[1] == 'i');
    assert("-n"@[1] == 'n');
    assert("-1"@[1] == '1');
    assert("--interval"@[2] == 'i');
    assert("--history"@[2] == 'h');
    assert("--once"@.len() == 6);
}

proof fn lemma_later_options_differ()
    ensures
        forall|a: Seq<char>| #![trigger names(a, "-V"@, "--version"@)]
            names(a, "-V"@, "--version"@) ==> !names(a, "-i"@, "--interval"@) && !names(
                a,
                "-n"@,
                "--history"@,
            ) && !names(a, "-1"@, "--once"@) && !names(a, "-h"@, "--help"@),
        forall|a: Seq<char>| #![trigger names(a, "-h"@, "--help"@)]
            names(a, "-h"@, "--help"@) ==> !names(a, "-i"@, "--interval"@) && !names(
                a,
                "-n"@,
                "--history"@,
            ) && !names(a, "-1"@, "--once"@) && !names(a, "-V"@, "--version"@),
{
    reveal_strlit("-i");
    reveal_strlit("--interval");
    reveal_strlit("-n");
    reveal_strlit("--history");
    reveal_strlit("-1");
    reveal_strlit("--once");
    reveal_strlit("-V");
    reveal_strlit("--version");
    reveal_strlit("-h");
    reveal_strlit("--help");
    assert("-i"@[1] == 'i');
    assert("-n"@[1] == 'n');
    assert("-1"@[1] == '1');
    assert("-V"@[1] == 'V');
    assert("-h"@[1] == 'h');
    assert("--help"@.len() == 6);
    assert("--help"@[2] == 'h');
    assert("--once"@[2] == 'o');
    assert("--version"@[2] == 'v');
    assert("--history"@[2] == 'h');
}

/// Each option sets what it is named for, under its short name and its long one,
/// and in either order: the interval, the history, and whether to sample once. An
/// interval is from one second to a minute, a history from 20 samples to 3600.
pub proof fn options_set_what_they_are_named_for(
    interval: Seq<char>,
    history: Seq<char>,
    once: Seq<char>,
    i: u64,
    n: u64,
    options: Options,
)
    requires
        names(interval, "-i"@, "--interval"@),
        names(history, "-n"@, "--history"@),
        names(once, "-1"@, "--once"@),
    ensures
        ({
            let set = Options { interval: i, history: n, once: true };
            let expected = if i < 1 || i > 60 {
                Err(Fault::IntervalRange)
            } else if n < 20 || n > 3600 {
                Err(Fault::HistoryRange)
            } else {
                Ok(Invocation::Run(set))
            };
            let written = (decimal(i as nat), decimal(n as nat));
            &&& arguments_spec(seq![interval, written.0, history, written.1, once], 0, options)
                == expected
            &&& arguments_spec(seq![once, history, written.1, interval, written.0], 0, options)
                == expected
        }),
{
    written_numbers_read_back(i, Seq::empty());
    written_numbers_read_back(n, Seq::empty());
    lemma_options_differ();
    let one = seq![interval, decimal(i as nat), history, decimal(n as nat), once];
    let other = seq![once, history, decimal(n as nat), interval, decimal(i as nat)];
    let set = Options { interval: i, history: n, once: true };
    let first = Options { interval: i, ..options };
    let second = Options { history: n, ..first };
    assert(arguments_spec(one, 0, options) == arguments_spec(one, 2, first));
    assert(arguments_spec(one, 2, first) == arguments_spec(one, 4, second));
    assert(arguments_spec(one, 4, second) == arguments_spec(one, 5, set));
    assert(arguments_spec(one, 5, set) == checked(set));
    let first = Options { once: true, ..options };
    let second = Options { history: n, ..first };
    assert(arguments_spec(other, 0, options) == arguments_spec(other, 1, first));
    assert(arguments_spec(other, 1, first) == arguments_spec(other, 3, second));
    assert(arguments_spec(other, 3, second) == arguments_spec(other, 5, set));
    assert(arguments_spec(other, 5, set) == checked(set));
}

/// What is not asked for stays as it was: without options nothing is set, and
/// one option sets nothing but its own. A bare number in the first place is the
/// interval.
pub proof fn options_set_nothing_else(
    interval: Seq<char>,
    history: Seq<char>,
    once: Seq<char>,
    n: u64,
    options: Options,
)
    requires
        names(interval, "-i"@, "--interval"@),
        names(history, "-n"@, "--history"@),
        names(once, "-1"@, "--once"@),
        1 <= options.interval <= 60,
        20 <= options.history <= 3600,
    ensures
        arguments_spec(Seq::empty(), 0, options) == Ok::<Invocation, Fault>(
            Invocation::Run(options),
        ),
        1 <= n <= 60 ==> arguments_spec(seq![interval, decimal(n as nat)], 0, options) == Ok::<
            Invocation,
            Fault,
        >(Invocation::Run(Options { interval: n, ..options })),
        1 <= n <= 60 ==> arguments_spec(seq![decimal(n as nat)], 0, options) == Ok::<
            Invocation,
            Fault,
        >(Invocation::Run(Options { interval: n, ..options })),
        20 <= n <= 3600 ==> arguments_spec(seq![history, decimal(n as nat)], 0, options) == Ok::<
            Invocation,
            Fault,
        >(Invocation::Run(Options { history: n, ..options })),
        arguments_spec(seq![once], 0, options) == Ok::<Invocation, Fault>(
            Invocation::Run(Options { once: true, ..options }),
        ),
        arguments_spec(seq![interval], 0, options) == Err::<Invocation, Fault>(
            Fault::MissingInterval,
        ),
        arguments_spec(seq![history], 0, options) == Err::<Invocation, Fault>(
            Fault::MissingHistory,
        ),
{
    written_numbers_read_back(n, Seq::empty());
    lemma_options_differ();
    let interval_only = Options { interval: n, ..options };
    let history_only = Options { history: n, ..options };
    let once_only = Options { once: true, ..options };
    let args = seq![interval, decimal(n as nat)];
    assert(arguments_spec(args, 0, options) == arguments_spec(args, 2, interval_only));
    assert(arguments_spec(args, 2, interval_only) == checked(interval_only));
    let args = seq![history, decimal(n as nat)];
    assert(arguments_spec(args, 0, options) == arguments_spec(args, 2, history_only));
    assert(arguments_spec(args, 2, history_only) == checked(history_only));
    let args = seq![once];
    assert(arguments_spec(args, 0, options) == arguments_spec(args, 1, once_only));
    assert(arguments_spec(args, 1, once_only) == checked(once_only));
    lemma_numbers_are_no_options(n);
    let args = seq![decimal(n as nat)];
    assert(arguments_spec(args, 0, options) == arguments_spec(args, 1, interval_only));
    assert(arguments_spec(args, 1, interval_only) == checked(interval_only));
}

proof fn lemma_numbers_are_no_options(n: u64)
    ensures
        !"-"@.is_prefix_of(decimal(n as nat)),
        !names(decimal(n as nat), "-i"@, "--interval"@),
        !names(decimal(n as nat), "-n"@, "--history"@),
        !names(decimal(n as nat), "-1"@, "--once"@),
        !names(decimal(n as nat), "-V"@, "--version"@),
        !names(decimal(n as nat), "-h"@, "--help"@),
{
    let s = decimal(n as nat);
    lemma_decimal_digits(n as nat);
    assert(is_digit_spec(s[0]));
    reveal_strlit("-");
    reveal_strlit("-i");
    reveal_strlit("--interval");
    reveal_strlit("-n");
    reveal_strlit("--history");
    reveal_strlit("-1");
    reveal_strlit("--once");
    reveal_strlit("-V");
    reveal_strlit("--version");
    reveal_strlit("-h");
    reveal_strlit("--help");
    assert("-"@[0] == '-');
    if "-"@.is_prefix_of(s) {
        assert(s[0] == s.subrange(0, 1)[0]);
    }
    assert("-i"@[0] == '-' && "--interval"@[0] == '-');
    assert("-n"@[0] == '-' && "--history"@[0] == '-');
    assert("-1"@[0] == '-' && "--once"@[0] == '-');
    assert("-V"@[0] == '-' && "--version"@[0] == '-');
    assert("-h"@[0] == '-' && "--help"@[0] == '-');
}

/// Asking for the version or for help is answered before anything behind it is
/// looked at, and an option of another name is refused under its own.
pub proof fn questions_are_answered_first(args: Seq<Seq<char>>, at: nat, options: Options)
    requires
        at < args.len(),
    ensures
        names(args[at as int], "-V"@, "--version"@) ==> arguments_spec(args, at, options) == Ok::<
            Invocation,
            Fault,
        >(Invocation::Version),
        names(args[at as int], "-h"@, "--help"@) ==> arguments_spec(args, at, options) == Ok::<
            Invocation,
            Fault,
        >(Invocation::Help),
        (at > 0 || "-"@.is_prefix_of(args[at as int])) && !names(
            args[at as int],
            "-i"@,
            "--interval"@,
        ) && !names(args[at as int], "-n"@, "--history"@) && !names(
            args[at as int],
            "-1"@,
            "--once"@,
        ) && !names(args[at as int], "-V"@, "--version"@) && !names(
            args[at as int],
            "-h"@,
            "--help"@,
        ) ==> arguments_spec(args, at, options) == Err::<Invocation, Fault>(
            Fault::Unknown(args[at as int]),
        ),
{
    lemma_later_options_differ();
    let arg = args[at as int];
    assert(names(arg, "-V"@, "--version"@) || !names(arg, "-V"@, "--version"@));
    assert(names(arg, "-h"@, "--help"@) || !names(arg, "-h"@, "--help"@));
}
} // verus!
