//! Configuration objects: targets, appender ids, formats, and the rolling
//! policy with its human-readable byte-size parsing.
use vstd::prelude::*;

use crate::level::LevelFilter;
use crate::chars::{
    chars_of, digit_of, is_digit, lower, spec_is_digit, spec_lower, spec_trim, string_of,
    trim_chars,
};

verus! {

/// A log target: routing matches an event's target string by prefix against
/// these.
#[derive(Clone, Debug)]
pub struct Target(pub String);

impl Target {
    pub fn as_str(&self) -> (r: &str)
        ensures
            r@ == self.0@,
    {
        self.0.as_str()
    }
}

/// The name of an appender; unique within one configuration.
#[derive(Clone, Debug)]
pub struct AppenderId(pub String);

/// How a route renders events: the framework-default structured form, the
/// bare message, or a custom `{field}` template string.
#[derive(Clone, Debug)]
pub enum Format {
    Normal,
    MessageOnly,
    Custom(String),
}

impl Format {
    pub fn is_normal(&self) -> (r: bool)
        ensures
            r == (self matches Format::Normal),
    {
        matches!(self, Format::Normal)
    }
}

/// An error found while reading a configuration value.
#[derive(Clone, Debug)]
pub enum ConfigError {
    /// The size's unit suffix is not one of the accepted forms; holds the
    /// offending (trimmed) unit text.
    UnexpectedUnit(String),
    /// The size in bytes does not fit in `u64`; holds the parsed count and
    /// the unit text.
    Overflow(u64, String),
    /// The leading number is missing or too large for `u64`.
    ParseIntError,
}

pub const KB: u64 = 1024;

pub const MB: u64 = KB * 1024;

pub const GB: u64 = MB * 1024;

pub const TB: u64 = GB * 1024;

/// The index of the first character of `s` that is not an ASCII digit, or
/// `s.len()` if all are digits.
pub open spec fn first_nondigit(s: Seq<char>) -> int
    decreases s.len(),
{
    if s.len() == 0 {
        0
    } else if !spec_is_digit(s[0]) {
        0
    } else {
        1 + first_nondigit(s.skip(1))
    }
}

/// The value of a sequence of ASCII digits read as a decimal number.
pub open spec fn digits_val(s: Seq<char>) -> int
    decreases s.len(),
{
    if s.len() == 0 {
        0
    } else {
        digits_val(s.drop_last()) * 10 + digit_of(s.last())
    }
}

/// Case-insensitive (ASCII) equality of two character sequences.
pub open spec fn eq_ignore_case(a: Seq<char>, b: Seq<char>) -> bool {
    a.len() == b.len() && forall|i: int| 0 <= i < a.len() ==> spec_lower(a[i]) == spec_lower(b[i])
}

/// The byte multiplier a unit suffix stands for, all units base-1024, or
/// `None` for an unrecognized suffix.
pub open spec fn spec_unit_factor(u: Seq<char>) -> Option<u64> {
    if eq_ignore_case(u, seq!['b']) {
        Some(1u64)
    } else if eq_ignore_case(u, seq!['k', 'b']) || eq_ignore_case(u, seq!['k', 'i', 'b']) {
        Some(KB)
    } else if eq_ignore_case(u, seq!['m', 'b']) || eq_ignore_case(u, seq!['m', 'i', 'b']) {
        Some(MB)
    } else if eq_ignore_case(u, seq!['g', 'b']) || eq_ignore_case(u, seq!['g', 'i', 'b']) {
        Some(GB)
    } else if eq_ignore_case(u, seq!['t', 'b']) || eq_ignore_case(u, seq!['t', 'i', 'b']) {
        Some(TB)
    } else {
        None
    }
}

/// The digit run that starts a size string.
pub open spec fn size_num_part(s: Seq<char>) -> Seq<char> {
    s.take(first_nondigit(s))
}

/// Does a size string carry a unit suffix (anything after the digits)?
pub open spec fn size_has_unit(s: Seq<char>) -> bool {
    first_nondigit(s) < s.len()
}

/// The trimmed unit suffix of a size string.
pub open spec fn size_unit_part(s: Seq<char>) -> Seq<char> {
    spec_trim(s.skip(first_nondigit(s)))
}

/// Is the leading number present and within `u64`?
pub open spec fn size_num_ok(s: Seq<char>) -> bool {
    size_num_part(s).len() > 0 && digits_val(size_num_part(s)) <= u64::MAX
}

/// Does the whole size string parse to a byte count within `u64`?
pub open spec fn spec_size_ok(s: Seq<char>) -> bool {
    size_num_ok(s) && (size_has_unit(s) ==> {
        &&& spec_unit_factor(size_unit_part(s)) is Some
        &&& digits_val(size_num_part(s)) * spec_unit_factor(size_unit_part(s)).unwrap()
            <= u64::MAX
    })
}

/// The byte count a well-formed size string denotes.
pub open spec fn spec_size_value(s: Seq<char>) -> int {
    if size_has_unit(s) {
        digits_val(size_num_part(s)) * spec_unit_factor(size_unit_part(s)).unwrap()
    } else {
        digits_val(size_num_part(s))
    }
}

/// Which error an ill-formed size string is answered with.
pub open spec fn spec_size_err(s: Seq<char>, e: ConfigError) -> bool {
    if !size_num_ok(s) {
        e matches ConfigError::ParseIntError
    } else if size_has_unit(s) && spec_unit_factor(size_unit_part(s)) is None {
        e matches ConfigError::UnexpectedUnit(u) && u@ == size_unit_part(s)
    } else {
        e matches ConfigError::Overflow(n, u) && n == digits_val(size_num_part(s)) && u@
            == size_unit_part(s)
    }
}

proof fn lemma_first_nondigit_at(s: Seq<char>, i: int)
    requires
        0 <= i <= s.len(),
        forall|j: int| 0 <= j < i ==> spec_is_digit(s[j]),
        i < s.len() ==> !spec_is_digit(s[i]),
    ensures
        first_nondigit(s) == i,
    decreases s.len(),
{
    if s.len() == 0 {
    } else if !spec_is_digit(s[0]) {
        assert(i == 0);
    } else {
        assert(i >= 1);
        lemma_first_nondigit_at(s.skip(1), i - 1);
    }
}

proof fn lemma_digits_val_nonneg(s: Seq<char>)
    requires
        forall|j: int| 0 <= j < s.len() ==> spec_is_digit(s[j]),
    ensures
        digits_val(s) >= 0,
    decreases s.len(),
{
    if s.len() > 0 {
        lemma_digits_val_nonneg(s.drop_last());
    }
}

proof fn lemma_digits_val_step(s: Seq<char>, i: int)
    requires
        0 <= i < s.len(),
    ensures
        digits_val(s.take(i + 1)) == digits_val(s.take(i)) * 10 + digit_of(s[i]),
{
    assert(s.take(i + 1).drop_last() =~= s.take(i));
    assert(s.take(i + 1).last() == s[i]);
}

/// Once the prefix already exceeds `u64::MAX`, the whole digit run does.
proof fn lemma_digits_val_grows(s: Seq<char>, i: int, k: int)
    requires
        0 <= i <= k <= s.len(),
        forall|j: int| 0 <= j < s.len() ==> spec_is_digit(s[j]),
    ensures
        digits_val(s.take(k)) >= digits_val(s.take(i)),
    decreases k - i,
{
    if i < k {
        lemma_digits_val_grows(s, i, k - 1);
        lemma_digits_val_step(s, k - 1);
        assert(forall|j: int|
            0 <= j < s.take(k - 1).len() ==> spec_is_digit(#[trigger] s.take(k - 1)[j]));
        lemma_digits_val_nonneg(s.take(k - 1));
        assert(digits_val(s.take(k)) == digits_val(s.take(k - 1)) * 10 + digit_of(s[k - 1]));
        assert(digits_val(s.take(k - 1)) * 10 >= digits_val(s.take(k - 1))) by (nonlinear_arith)
            requires digits_val(s.take(k - 1)) >= 0;
        assert(digit_of(s[k - 1]) >= 0);
    }
}

/// Case-insensitive comparison of collected characters against a literal.
fn eq_ic(v: &Vec<char>, s: &str) -> (r: bool)
    ensures
        r == eq_ignore_case(v@, s@),
{
    let n = s.unicode_len();
    if v.len() != n {
        return false;
    }
    let mut i: usize = 0;
    while i < n
        invariant
            n == s@.len(),
            v@.len() == n,
            i <= n,
            forall|j: int| 0 <= j < i ==> spec_lower(v@[j]) == spec_lower(s@[j]),
        decreases n - i,
    {
        if lower(v[i]) != lower(s.get_char(i)) {
            return false;
        }
        i = i + 1;
    }
    true
}

/// A policy deciding how a rolling-file appender rolls: a maximum file size
/// given as a human string (`"10kb"`), a backup count, and an optional roll
/// path pattern containing the index token `{}`.
#[derive(Clone, Debug)]
pub struct Policy {
    pub maximum_file_size: String,
    pub max_size_roll_backups: u32,
    pub pattern: Option<String>,
}

impl Policy {
    /// Parses a size such as `10`, `10b`, `10kb`, `10mib` into a byte count.
    /// All unit suffixes are base-1024; a computation that would not fit in
    /// `u64` is answered with an overflow error rather than wrapping.
    pub fn calculate_maximum_file_size(size: &str) -> (r: Result<u64, ConfigError>)
        ensures
            spec_size_ok(size@) ==> (r matches Ok(v) && v == spec_size_value(size@)),
            !spec_size_ok(size@) ==> (r matches Err(e) && spec_size_err(size@, e)),
    {
        let v = chars_of(size);
        let n = v.len();
        let ghost s = size@;

        // find where the digit run ends
        let mut idx: usize = 0;
        while idx < n && is_digit(v[idx])
            invariant
                v@ == s,
                n == s.len(),
                idx <= n,
                forall|j: int| 0 <= j < idx ==> spec_is_digit(s[j]),
            decreases n - idx,
        {
            idx = idx + 1;
        }
        proof {
            lemma_first_nondigit_at(s, idx as int);
        }

        if idx == 0 {
            // empty number
            return Err(ConfigError::ParseIntError);
        }

        // read the digit run, refusing a value beyond u64
        let mut val: u64 = 0;
        let mut i: usize = 0;
        while i < idx
            invariant
                v@ == s,
                n == s.len(),
                idx <= n,
                i <= idx,
                s == size@,
                first_nondigit(s) == idx,
                forall|j: int| 0 <= j < idx ==> spec_is_digit(s[j]),
                val == digits_val(s.take(i as int)),
            decreases idx - i,
        {
            proof {
                assert(spec_is_digit(s[i as int]));
            }
            let d = (v[i] as u32 - 48) as u64;
            proof {
                assert(d == digit_of(s[i as int]));
                lemma_digits_val_step(s, i as int);
            }
            let wide: u128 = (val as u128) * 10 + (d as u128);
            proof {
                assert(wide == digits_val(s.take(i + 1)));
            }
            if wide > u64::MAX as u128 {
                proof {
                    assert(forall|j: int|
                        0 <= j < s.take(idx as int).len() ==> spec_is_digit(
                            #[trigger] s.take(idx as int)[j],
                        ));
                    assert(s.take(idx as int).take(i + 1) =~= s.take(i + 1));
                    lemma_digits_val_grows(s.take(idx as int), i + 1, idx as int);
                    assert(s.take(idx as int).take(idx as int) =~= s.take(idx as int));
                    assert(digits_val(size_num_part(s)) > u64::MAX);
                }
                return Err(ConfigError::ParseIntError);
            }
            val = wide as u64;
            i = i + 1;
        }
        proof {
            assert(val == digits_val(size_num_part(s)));
            assert(size_num_ok(s));
        }

        if idx == n {
            // no unit suffix: the digits are the byte count
            proof {
                assert(!size_has_unit(s));
            }
            return Ok(val);
        }

        // collect and trim the unit suffix
        let mut unit_raw: Vec<char> = Vec::new();
        let mut k: usize = idx;
        while k < n
            invariant
                v@ == s,
                n == s.len(),
                idx <= k <= n,
                first_nondigit(s) == idx,
                unit_raw@ == s.subrange(idx as int, k as int),
            decreases n - k,
        {
            unit_raw.push(v[k]);
            k = k + 1;
            proof {
                assert(unit_raw@ =~= s.subrange(idx as int, k as int));
            }
        }
        proof {
            assert(unit_raw@ =~= s.skip(idx as int));
        }
        let unit = trim_chars(&unit_raw);
        proof {
            assert(unit@ == size_unit_part(s));
        }

        let factor: u64 = if eq_ic(&unit, "b") {
            proof {
                reveal_strlit("b");
                assert("b"@ =~= seq!['b']);
            }
            1
        } else if eq_ic(&unit, "kb") || eq_ic(&unit, "kib") {
            proof {
                reveal_strlit("kb");
                reveal_strlit("kib");
                assert("kb"@ =~= seq!['k', 'b']);
                assert("kib"@ =~= seq!['k', 'i', 'b']);
            }
            KB
        } else if eq_ic(&unit, "mb") || eq_ic(&unit, "mib") {
            proof {
                reveal_strlit("mb");
                reveal_strlit("mib");
                assert("mb"@ =~= seq!['m', 'b']);
                assert("mib"@ =~= seq!['m', 'i', 'b']);
            }
            MB
        } else if eq_ic(&unit, "gb") || eq_ic(&unit, "gib") {
            proof {
                reveal_strlit("gb");
                reveal_strlit("gib");
                assert("gb"@ =~= seq!['g', 'b']);
                assert("gib"@ =~= seq!['g', 'i', 'b']);
            }
            GB
        } else if eq_ic(&unit, "tb") || eq_ic(&unit, "tib") {
            proof {
                reveal_strlit("tb");
                reveal_strlit("tib");
                assert("tb"@ =~= seq!['t', 'b']);
                assert("tib"@ =~= seq!['t', 'i', 'b']);
            }
            TB
        } else {
            proof {
                reveal_strlit("b");
                reveal_strlit("kb");
                reveal_strlit("kib");
                reveal_strlit("mb");
                reveal_strlit("mib");
                reveal_strlit("gb");
                reveal_strlit("gib");
                reveal_strlit("tb");
                reveal_strlit("tib");
                assert("b"@ =~= seq!['b']);
                assert("kb"@ =~= seq!['k', 'b']);
                assert("kib"@ =~= seq!['k', 'i', 'b']);
                assert("mb"@ =~= seq!['m', 'b']);
                assert("mib"@ =~= seq!['m', 'i', 'b']);
                assert("gb"@ =~= seq!['g', 'b']);
                assert("gib"@ =~= seq!['g', 'i', 'b']);
                assert("tb"@ =~= seq!['t', 'b']);
                assert("tib"@ =~= seq!['t', 'i', 'b']);
                assert(spec_unit_factor(size_unit_part(s)) is None);
            }
            return Err(ConfigError::UnexpectedUnit(string_of(&unit)));
        };
        proof {
            assert(spec_unit_factor(size_unit_part(s)) == Some(factor));
        }

        proof {
            assert((val as u128) * (factor as u128) <= u128::MAX) by (nonlinear_arith)
                requires
                    val <= u64::MAX,
                    factor <= TB,
            ;
        }
        let product: u128 = (val as u128) * (factor as u128);
        if product > u64::MAX as u128 {
            Err(ConfigError::Overflow(val, string_of(&unit)))
        } else {
            Ok(product as u64)
        }
    }
}

/// One configured route: the appenders it writes to, its severity
/// threshold, and its output format.
#[derive(Clone, Debug)]
pub struct Logger {
    pub appenders: Vec<AppenderId>,
    pub level: LevelFilter,
    pub format: Format,
}

/// A configured sink.
#[derive(Clone, Debug)]
pub enum Appender {
    Null,
    Console,
    File { path: String },
    RollingFile { path: String, policy: Policy },
}

impl Appender {
    /// A file appender at the given path.
    pub fn file(path: String) -> (r: Self)
        ensures
            r == (Appender::File { path }),
    {
        Appender::File { path }
    }

    /// A console appender.
    pub fn console() -> (r: Self)
        ensures
            r is Console,
    {
        Appender::Console
    }
}

/// The root configuration: the mandatory default route, the named sinks,
/// and the target-keyed routes.
#[derive(Clone, Debug)]
pub struct Config {
    pub default: Logger,
    pub appenders: Vec<(AppenderId, Appender)>,
    pub loggers: Vec<(Target, Logger)>,
}

impl Config {
    /// Sink names are unique within one configuration.
    pub open spec fn wf(self) -> bool {
        forall|i: int, j: int|
            0 <= i < j < self.appenders@.len() ==> self.appenders@[i].0.0@
                != self.appenders@[j].0.0@
    }

    /// The configuration that logs `Info` and above to standard output.
    pub fn console_config() -> (r: Config)
        ensures
            r.wf(),
            r.default.level == LevelFilter::Info,
            r.default.format is Normal,
            r.default.appenders@.len() == 1 && r.default.appenders@[0].0@ == "stdout"@,
            r.appenders@.len() == 1 && r.appenders@[0].0.0@ == "stdout"@ && r.appenders@[0].1
                is Console,
            r.loggers@.len() == 0,
    {
        let mut route_appenders: Vec<AppenderId> = Vec::new();
        route_appenders.push(AppenderId(String::from_str("stdout")));
        let default = Logger {
            appenders: route_appenders,
            level: LevelFilter::Info,
            format: Format::Normal,
        };
        let mut appenders: Vec<(AppenderId, Appender)> = Vec::new();
        appenders.push((AppenderId(String::from_str("stdout")), Appender::Console));
        Config { default, appenders, loggers: Vec::new() }
    }
}

impl Default for Config {
    /// The console configuration.
    fn default() -> (r: Config)
        ensures
            r.wf(),
            r.default.level == LevelFilter::Info,
            r.loggers@.len() == 0,
    {
        Config::console_config()
    }
}

} // verus!

