use vstd::prelude::*;

use vstd::string::StrSliceExecFns;
use vstd::string::StringExecFns;

verus! {

/// The application's settings, as plain values. Reading configuration
/// files and environment variables is the surrounding program's job;
/// the rules about what the values mean live here.
pub struct Settings {
    pub server: ServerSettings,
    pub symbols: Option<SymbolSettings>,
    pub quota: Option<QuotaSettings>,
}

pub struct ServerSettings {
    pub host: String,
    pub port: u16,
}

pub struct SymbolSettings {
    pub breakpad: Option<BreakpadSymbolSettings>,
    pub windows: Option<WindowsSymbolSettings>,
}

pub struct BreakpadSymbolSettings {
    pub servers: Vec<String>,
    pub cache_dir: String,
    pub symindex_dir: Option<String>,
}

pub struct WindowsSymbolSettings {
    pub servers: Vec<String>,
    pub cache_dir: String,
}

/// Settings for automatic file deletion.
#[derive(Debug, Clone)]
pub struct QuotaSettings {
    /// The root of the managed directory tree.
    pub managed_dir: String,
    /// The .db file in which the list of files should be stored. Must
    /// be outside of `managed_dir`.
    pub db_path: String,
    /// The maximum size of the managed directory, in bytes.
    pub size_limit: Option<u64>,
    /// The maximum age of each file in the managed directory, in
    /// seconds.
    pub age_limit: Option<u64>,
}

/// A size string such as "10 GiB" parsed to a byte count; what exactly
/// the grammar accepts is the parsing crate's affair, but the result is
/// a function of the string alone.
pub uninterp spec fn parsed_size(s: Seq<char>) -> Option<u64>;

/// The digits the size parser folds into its mantissa: the leading run
/// of digits, separators and at most one dot, read until anything else.
pub open spec fn mantissa_digits(s: Seq<char>) -> Seq<char> {
    mantissa_digits_from(s, false)
}

pub open spec fn mantissa_digits_from(s: Seq<char>, seen_dot: bool) -> Seq<char>
    decreases s.len(),
{
    if s.len() == 0 {
        Seq::<char>::empty()
    } else if '0' <= s[0] && s[0] <= '9' {
        seq![s[0]] + mantissa_digits_from(s.drop_first(), seen_dot)
    } else if s[0] == '_' || s[0] == ' ' {
        mantissa_digits_from(s.drop_first(), seen_dot)
    } else if s[0] == '.' && !seen_dot {
        mantissa_digits_from(s.drop_first(), true)
    } else {
        Seq::<char>::empty()
    }
}

/// The numeric value of one digit character.
pub open spec fn digit_val(c: char) -> nat {
    (c as int - ('0' as int)) as nat
}

/// The unbounded value a digit string denotes.
pub open spec fn digits_value(digits: Seq<char>) -> nat
    decreases digits.len(),
{
    if digits.len() == 0 {
        0
    } else {
        digits_value(digits.drop_last()) * 10 + digit_val(digits.last())
    }
}

/// The size parser's 64-bit mantissa rounds up on the digit that
/// overflows it; when the digits before that point read exactly
/// u64::MAX and the overflowing digit is five or more, the rounding
/// itself overflows. A string is safe exactly when no such point
/// exists.
pub open spec fn mantissa_safe(s: Seq<char>) -> bool {
    forall|i: int|
        0 <= i < mantissa_digits(s).len() && #[trigger] digits_value(mantissa_digits(s).take(i))
            == u64::MAX as nat ==> mantissa_digits(s)[i] < '5'
}

/// Whether the size parser can read `s` without its mantissa rounding
/// overflowing.
fn check_mantissa_safe(s: &str) -> (r: bool)
    ensures
        r == mantissa_safe(s@),
{
    let ghost digs = mantissa_digits(s@);
    let n = s.unicode_len();
    let mut pos: usize = 0;
    let mut seen_dot = false;
    let mut acc: u64 = 0;
    let mut frozen = false;
    let ghost mut k: int = 0;
    proof {
        assert(s@.skip(0) =~= s@);
        assert(digs.take(0) + mantissa_digits_from(s@, false) =~= digs);
    }
    while pos < n
        invariant
            n == s@.len(),
            pos <= n,
            0 <= k <= digs.len(),
            digs == mantissa_digits(s@),
            digs == digs.take(k) + mantissa_digits_from(s@.skip(pos as int), seen_dot),
            !frozen ==> acc as nat == digits_value(digs.take(k)),
            frozen ==> digits_value(digs.take(k)) > u64::MAX as nat,
            forall|i: int|
                0 <= i < k && #[trigger] digits_value(digs.take(i)) == u64::MAX as nat ==> digs[i]
                    < '5',
        ensures
            digs == digs.take(k),
            forall|i: int|
                0 <= i < k && #[trigger] digits_value(digs.take(i)) == u64::MAX as nat ==> digs[i]
                    < '5',
        decreases n - pos,
    {
        let c = s.get_char(pos);
        proof {
            assert(s@.skip(pos as int).len() > 0);
            assert(s@.skip(pos as int)[0] == c);
            assert(s@.skip(pos as int).drop_first() =~= s@.skip(pos as int + 1));
        }
        if '0' <= c && c <= '9' {
            let d: u64 = (c as u32 - 48) as u64;
            proof {
                assert(digs =~= digs.take(k) + (seq![c] + mantissa_digits_from(
                    s@.skip(pos as int + 1),
                    seen_dot,
                )));
                assert(digs[k] == c);
                assert(digs.take(k + 1) =~= digs.take(k).push(c));
                assert(digs.take(k + 1).drop_last() =~= digs.take(k));
                assert(digits_value(digs.take(k + 1)) == digits_value(digs.take(k)) * 10
                    + digit_val(c));
            }
            if !frozen {
                if acc == u64::MAX && d >= 5 {
                    proof {
                        assert(digits_value(digs.take(k)) == u64::MAX as nat);
                        assert(!(digs[k] < '5'));
                        assert(!mantissa_safe(s@));
                    }
                    return false;
                }
                if acc <= (u64::MAX - d) / 10 {
                    acc = acc * 10 + d;
                } else {
                    proof {
                        assert(acc as nat * 10 + d as nat > u64::MAX as nat);
                    }
                    frozen = true;
                }
            }
            proof {
                k = k + 1;
            }
        } else if c == '_' || c == ' ' {
            proof {
                assert(digs == digs.take(k) + mantissa_digits_from(
                    s@.skip(pos as int + 1),
                    seen_dot,
                ));
            }
        } else if c == '.' && !seen_dot {
            seen_dot = true;
            proof {
                assert(digs == digs.take(k) + mantissa_digits_from(s@.skip(pos as int + 1), true));
            }
        } else {
            proof {
                assert(mantissa_digits_from(s@.skip(pos as int), seen_dot)
                    == Seq::<char>::empty());
                assert(digs =~= digs.take(k));
            }
            break;
        }
        pos = pos + 1;
    }
    proof {
        assert(k == digs.len()) by {
            assert(digs.take(k).len() == k);
        }
    }
    true
}

/// Relies on `parse_size::parse_size`: parses a human-readable size
/// string ("300", "10 MiB", ...) to a byte count; the result depends on
/// the input string alone. The crate's mantissa rounding increments a
/// value that can already sit at u64::MAX, and its digit-position
/// counters are 32-bit; the preconditions keep out exactly the inputs
/// on which either could overflow.
#[verifier::external_body]
fn parse_size_str(s: &str) -> (r: Option<u64>)
    requires
        mantissa_safe(s@),
        s@.len() < 0x8000_0000,
    ensures
        r == parsed_size(s@),
{
    parse_size::parse_size(s).ok()
}

/// The size-limit field of the configuration is an optional
/// human-readable size string: an absent field stays absent, a present
/// one must parse to a byte count, and one that is unparseable — or
/// whose leading number is so pathological that the parser's own
/// counters could overflow on it — is handed back as the error.
pub fn parse_optional_size(input: Option<String>) -> (r: Result<Option<u64>, String>)
    ensures
        match input {
            None => r == Ok::<Option<u64>, String>(None),
            Some(s) => {
                if mantissa_safe(s@) && s@.len() < 0x8000_0000 {
                    match parsed_size(s@) {
                        Some(n) => r == Ok::<Option<u64>, String>(Some(n)),
                        None => r matches Err(m) && m@ == s@,
                    }
                } else {
                    r matches Err(m) && m@ == s@
                }
            },
        },
{
    match input {
        None => Ok(None),
        Some(s) => {
            if s.as_str().unicode_len() >= 0x8000_0000 {
                return Err(s);
            }
            if !check_mantissa_safe(s.as_str()) {
                return Err(s);
            }
            match parse_size_str(s.as_str()) {
                Some(n) => Ok(Some(n)),
                None => Err(s),
            }
        },
    }
}

/// A character with its ASCII uppercase folded to lowercase; any other
/// character is left as it is.
pub open spec fn fold_char(c: char) -> char {
    if 'A' <= c && c <= 'Z' {
        ((c as u8) + 32) as char
    } else {
        c
    }
}

/// A character sequence with every ASCII uppercase letter folded to
/// lowercase.
pub open spec fn fold_chars(s: Seq<char>) -> Seq<char> {
    s.map_values(|c: char| fold_char(c))
}

/// Whether `s`, ASCII-case-folded, is exactly `target`.
fn matches_folded(s: &str, target: &str) -> (r: bool)
    ensures
        r == (fold_chars(s@) == target@),
{
    let n = s.unicode_len();
    if n != target.unicode_len() {
        proof {
            assert(fold_chars(s@).len() == s@.len());
        }
        return false;
    }
    for i in 0..n
        invariant
            n == s@.len(),
            n == target@.len(),
            forall|j: int| 0 <= j < i ==> fold_chars(s@)[j] == target@[j],
    {
        let c = s.get_char(i);
        let folded: char = if 'A' <= c && c <= 'Z' {
            ((c as u8) + 32) as char
        } else {
            c
        };
        if folded != target.get_char(i) {
            proof {
                assert(fold_chars(s@)[i as int] != target@[i as int]);
            }
            return false;
        }
    }
    proof {
        assert(fold_chars(s@) =~= target@);
    }
    true
}

/// The possible runtime environment for the application.
#[derive(Clone, Copy, Debug, PartialEq, Eq, Structural)]
pub enum Environment {
    Local,
    Production,
}

/// The trailing part of the message given for an unsupported
/// environment name.
pub open spec fn unsupported_environment_note() -> Seq<char> {
    " is not a supported environment. Use either `local` or `production`."@
}

impl Environment {
    /// The canonical name of the environment.
    pub open spec fn name(&self) -> Seq<char> {
        match self {
            Environment::Local => "local"@,
            Environment::Production => "production"@,
        }
    }

    pub fn as_str(&self) -> (r: &'static str)
        ensures
            r@ == self.name(),
    {
        match self {
            Environment::Local => "local",
            Environment::Production => "production",
        }
    }

    /// Parse an environment name, ignoring ASCII case: exactly the
    /// case-folded spellings of `local` and `production` are accepted,
    /// and anything else is refused with a message naming the input.
    pub fn try_from(s: String) -> (r: Result<Environment, String>)
        ensures
            fold_chars(s@) == "local"@ ==> r == Ok::<Environment, String>(Environment::Local),
            fold_chars(s@) == "production"@ ==> r == Ok::<Environment, String>(
                Environment::Production,
            ),
            (fold_chars(s@) != "local"@ && fold_chars(s@) != "production"@) ==> (r matches Err(m)
                && m@ == s@ + unsupported_environment_note()),
    {
        proof {
            reveal_strlit("local");
            reveal_strlit("production");
            assert("local"@.len() == 5);
            assert("production"@.len() == 10);
            assert("local"@ != "production"@);
        }
        if matches_folded(s.as_str(), "local") {
            Ok(Environment::Local)
        } else if matches_folded(s.as_str(), "production") {
            Ok(Environment::Production)
        } else {
            Err(s.concat(" is not a supported environment. Use either `local` or `production`."))
        }
    }
}

} // verus!
