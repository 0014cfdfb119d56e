//! `cvg discover` and `cvg doctor`: the `--since` window, the caller's
//! agent identity, and the environment findings of the doctor.
use crate::numeric::{parse_i64, parse_i64_range};
use crate::text::{chars_of, owned, push_str, trim, trim_bounds, trimmed};
use vstd::prelude::*;

verus! {

/// Arguments of `cvg discover`.
pub struct DiscoverArgs {
    /// Lookback window, e.g. `30m`.
    pub since: String,
    /// Identity override (else env, else the default id built from `USER`).
    pub agent_id: Option<String>,
}

/// Unit of a `--since` window.
#[derive(Clone, Copy, Debug, PartialEq, Eq, Structural)]
pub enum SinceUnit {
    Seconds,
    Minutes,
    Hours,
    Days,
}

/// A parsed `--since` window: an amount of a unit.
#[derive(Clone, Copy, Debug, PartialEq, Eq, Structural)]
pub struct SinceWindow {
    pub amount: i64,
    pub unit: SinceUnit,
}

/// Why a `--since` token was refused.
#[derive(Clone, Copy, Debug, PartialEq, Eq, Structural)]
pub enum SinceError {
    /// Nothing but whitespace.
    Empty,
    /// The amount is not a decimal integer.
    Invalid,
    /// The amount is negative.
    Negative,
    /// The last character is not `s`, `m`, `h` or `d`.
    BadUnit(char),
}

/// The unit named by a unit letter.
pub open spec fn unit_of(c: char) -> Option<SinceUnit> {
    if c == 's' {
        Some(SinceUnit::Seconds)
    } else if c == 'm' {
        Some(SinceUnit::Minutes)
    } else if c == 'h' {
        Some(SinceUnit::Hours)
    } else if c == 'd' {
        Some(SinceUnit::Days)
    } else {
        None
    }
}

/// The meaning of a `--since` token: after trimming, an integer amount
/// followed by one unit letter.
pub open spec fn since_of(input: Seq<char>) -> Result<SinceWindow, SinceError> {
    let t = trim(input);
    if t.len() == 0 {
        Err(SinceError::Empty)
    } else {
        match parse_i64(t.drop_last()) {
            None => Err(SinceError::Invalid),
            Some(n) => if n < 0 {
                Err(SinceError::Negative)
            } else {
                match unit_of(t.last()) {
                    Some(u) => Ok(SinceWindow { amount: n as i64, unit: u }),
                    None => Err(SinceError::BadUnit(t.last())),
                }
            },
        }
    }
}

/// Parses a `--since` token (`90s` / `30m` / `1h` / `2d`). The unit must be
/// a single ASCII letter (the token is split one byte from its end).
pub fn parse_since(input: &str) -> (r: Result<SinceWindow, SinceError>)
    requires
        trim(input@).len() > 0 ==> (trim(input@).last() as u32) < 0x80,
    ensures
        r == since_of(input@),
{
    let v = chars_of(input);
    let (lo, hi) = trim_bounds(&v);
    if lo == hi {
        return Err(SinceError::Empty);
    }
    let unit = v[hi - 1];
    proof {
        let t = trim(v@);
        assert(t =~= v@.subrange(lo as int, hi as int));
        assert(t.last() == unit);
        assert(t.drop_last() =~= v@.subrange(lo as int, hi - 1));
    }
    let n = match parse_i64_range(&v, lo, hi - 1) {
        Some(n) => n,
        None => {
            return Err(SinceError::Invalid);
        },
    };
    if n < 0 {
        return Err(SinceError::Negative);
    }
    if unit == 's' {
        Ok(SinceWindow { amount: n, unit: SinceUnit::Seconds })
    } else if unit == 'm' {
        Ok(SinceWindow { amount: n, unit: SinceUnit::Minutes })
    } else if unit == 'h' {
        Ok(SinceWindow { amount: n, unit: SinceUnit::Hours })
    } else if unit == 'd' {
        Ok(SinceWindow { amount: n, unit: SinceUnit::Days })
    } else {
        Err(SinceError::BadUnit(unit))
    }
}

/// Seconds in one unit.
pub open spec fn unit_seconds(u: SinceUnit) -> int {
    match u {
        SinceUnit::Seconds => 1,
        SinceUnit::Minutes => 60,
        SinceUnit::Hours => 3600,
        SinceUnit::Days => 86400,
    }
}

/// A window is as long as its unit says: a second, a minute of 60
/// seconds, an hour of 3600, a day of 86400, whatever the amount.
pub proof fn window_units_are_what_they_say(amount: i64)
    ensures
        amount * unit_seconds(SinceUnit::Seconds) == amount,
        amount * unit_seconds(SinceUnit::Minutes) == amount * 60,
        amount * unit_seconds(SinceUnit::Hours) == amount * 3600,
        amount * unit_seconds(SinceUnit::Days) == amount * 86400,
        unit_of('s') == Some(SinceUnit::Seconds),
        unit_of('m') == Some(SinceUnit::Minutes),
        unit_of('h') == Some(SinceUnit::Hours),
        unit_of('d') == Some(SinceUnit::Days),
{
}

impl SinceWindow {
    /// The length of the window in seconds, when it fits in an `i64`.
    pub fn seconds(&self) -> (r: Option<i64>)
        ensures
            r matches Some(s) ==> s == self.amount * unit_seconds(self.unit),
            r is None ==> self.amount * unit_seconds(self.unit) > i64::MAX
                || self.amount * unit_seconds(self.unit) < i64::MIN,
            self.unit is Seconds ==> r == Some(self.amount),
            (self.unit is Minutes && i64::MIN <= self.amount * 60 <= i64::MAX) ==> r == Some(
                (self.amount * 60) as i64,
            ),
            (self.unit is Hours && i64::MIN <= self.amount * 3600 <= i64::MAX) ==> r == Some(
                (self.amount * 3600) as i64,
            ),
            (self.unit is Days && i64::MIN <= self.amount * 86400 <= i64::MAX) ==> r == Some(
                (self.amount * 86400) as i64,
            ),
    {
        let f: i128 = match self.unit {
            SinceUnit::Seconds => 1,
            SinceUnit::Minutes => 60,
            SinceUnit::Hours => 3600,
            SinceUnit::Days => 86400,
        };
        let s = self.amount as i128 * f;
        if s > i64::MAX as i128 || s < i64::MIN as i128 {
            None
        } else {
            Some(s as i64)
        }
    }
}

/// The prefix of the agent id a caller gets when none is configured.
pub const AGENT_ID_PREFIX: &'static str = "agent-";

/// The caller's agent id: the flag when it is not blank, else the
/// `CONVERGIO_AGENT_ID` value when it is not blank, else
/// [`AGENT_ID_PREFIX`] followed by `USER` (`anon` without a user).
pub open spec fn agent_id_of(
    flag: Option<Seq<char>>,
    env_id: Option<Seq<char>>,
    user: Option<Seq<char>>,
) -> Seq<char> {
    if flag is Some && trim(flag->0).len() > 0 {
        flag->0
    } else if env_id is Some && trim(env_id->0).len() > 0 {
        env_id->0
    } else {
        AGENT_ID_PREFIX@ + match user {
            Some(u) => u,
            None => "anon"@,
        }
    }
}

/// Resolves the caller's agent id from the `--agent-id` flag, the
/// `CONVERGIO_AGENT_ID` environment value and the `USER` environment value.
pub fn resolve_agent_id(flag: Option<&str>, env_id: Option<&str>, user: Option<&str>) -> (r:
    String)
    ensures
        r@ == agent_id_of(
            match flag {
                Some(s) => Some(s@),
                None => None,
            },
            match env_id {
                Some(s) => Some(s@),
                None => None,
            },
            match user {
                Some(s) => Some(s@),
                None => None,
            },
        ),
{
    if let Some(v) = flag {
        if !trimmed(v).as_str().is_empty() {
            return owned(v);
        }
    }
    if let Some(v) = env_id {
        if !trimmed(v).as_str().is_empty() {
            return owned(v);
        }
    }
    let mut r = owned(AGENT_ID_PREFIX);
    match user {
        Some(u) => push_str(&mut r, u),
        None => push_str(&mut r, "anon"),
    }
    r
}

// ---------------------------------------------------------------------
// Environment findings of `cvg doctor`
// ---------------------------------------------------------------------

/// One row of advisory output for the environment check.
pub struct EnvFinding {
    /// Stable name (used as the doctor check key).
    pub name: &'static str,
    /// True when the variable is set (and not empty).
    pub set: bool,
    /// One-line description for the human/JSON output.
    pub message: String,
}

/// `<name> is set`, or `<name> not set — <hint>`.
pub open spec fn finding_text(name: Seq<char>, hint: Seq<char>, set: bool) -> Seq<char> {
    if set {
        name + " is set"@
    } else {
        name + " not set \u{2014} "@ + hint
    }
}

/// The finding for one variable.
pub fn env_finding(name: &'static str, hint: &str, set: bool) -> (f: EnvFinding)
    ensures
        f.name@ == name@,
        f.set == set,
        f.message@ == finding_text(name@, hint@, set),
{
    let mut message = owned(name);
    if set {
        push_str(&mut message, " is set");
    } else {
        push_str(&mut message, " not set \u{2014} ");
        push_str(&mut message, hint);
    }
    EnvFinding { name, set, message }
}

/// Operator-visible variables whose absence on the daemon process
/// silently degrades dispatch, each with what its default does.
pub fn key_vars() -> (r: Vec<(&'static str, &'static str)>)
    ensures
        r@.len() == 4,
        forall|i: int| 0 <= i < 4 ==> (#[trigger] r@[i]).0@ == key_var_name(i),
        forall|i: int| 0 <= i < 4 ==> (#[trigger] r@[i]).1@ == key_vars_hint(i),
{
    let mut r: Vec<(&'static str, &'static str)> = Vec::new();
    r.push(
        ("CONVERGIO_GUARD_MAX_WORKTREES", "max parallel worktrees on disk (compiled default: 2)"),
    );
    r.push(
        (
            "CONVERGIO_EXECUTOR_MAX_PARALLEL",
            "per-tick dispatch fan-out cap (compiled default: unbounded)",
        ),
    );
    r.push(
        (
            "CONVERGIO_RUNNER_DEFAULT",
            "default runner kind/profile (compiled default: built-in profile)",
        ),
    );
    r.push(("CONVERGIO_REPO_PATH", "repo root used to pre-create worktrees"));
    r
}

/// One finding per key variable, given which of them are set.
pub fn findings(set: &Vec<bool>) -> (r: Vec<EnvFinding>)
    requires
        set@.len() == 4,
    ensures
        r@.len() == 4,
        forall|i: int| 0 <= i < 4 ==> (#[trigger] r@[i]).name@ == key_var_name(i),
        forall|i: int|
            0 <= i < 4 ==> (#[trigger] r@[i]).set == set@[i] && (r@[i].message@ == finding_text(
                r@[i].name@,
                key_vars_hint(i),
                set@[i],
            )),
{
    let vars = key_vars();
    let mut r: Vec<EnvFinding> = Vec::new();
    let mut i: usize = 0;
    while i < 4
        invariant
            i <= 4,
            set@.len() == 4,
            vars@.len() == 4,
            forall|k: int| 0 <= k < 4 ==> #[trigger] vars@[k].1@ == key_vars_hint(k),
            forall|k: int| 0 <= k < 4 ==> #[trigger] vars@[k].0@ == key_var_name(k),
            forall|k: int| 0 <= k < i ==> (#[trigger] r@[k]).name@ == key_var_name(k),
            r@.len() == i,
            forall|k: int|
                0 <= k < i ==> (#[trigger] r@[k]).set == set@[k] && (r@[k].message@ == finding_text(
                    r@[k].name@,
                    key_vars_hint(k),
                    set@[k],
                )),
        decreases 4 - i,
    {
        let (name, hint) = vars[i];
        r.push(env_finding(name, hint, set[i]));
        i = i + 1;
    }
    r
}

/// The name of the `i`-th key variable.
pub open spec fn key_var_name(i: int) -> Seq<char> {
    if i == 0 {
        "CONVERGIO_GUARD_MAX_WORKTREES"@
    } else if i == 1 {
        "CONVERGIO_EXECUTOR_MAX_PARALLEL"@
    } else if i == 2 {
        "CONVERGIO_RUNNER_DEFAULT"@
    } else {
        "CONVERGIO_REPO_PATH"@
    }
}

/// The hint of the `i`-th key variable.
pub open spec fn key_vars_hint(i: int) -> Seq<char> {
    if i == 0 {
        "max parallel worktrees on disk (compiled default: 2)"@
    } else if i == 1 {
        "per-tick dispatch fan-out cap (compiled default: unbounded)"@
    } else if i == 2 {
        "default runner kind/profile (compiled default: built-in profile)"@
    } else {
        "repo root used to pre-create worktrees"@
    }
}

/// The letter of a unit.
pub open spec fn unit_letter(u: SinceUnit) -> char {
    match u {
        SinceUnit::Seconds => 's',
        SinceUnit::Minutes => 'm',
        SinceUnit::Hours => 'h',
        SinceUnit::Days => 'd',
    }
}

/// A window written as its amount and unit letter (`30m`) reads back as
/// that window.
pub proof fn since_round_trip(amount: i64, unit: SinceUnit)
    requires
        amount >= 0,
    ensures
        since_of(crate::numeric::dec(amount as nat).push(unit_letter(unit))) == Ok::<SinceWindow, SinceError>(
            SinceWindow { amount, unit },
        ),
{
    let d = crate::numeric::dec(amount as nat);
    crate::numeric::lemma_dec_digits(amount as nat);
    crate::numeric::lemma_parse_dec(amount as nat, 0x7FFF_FFFF_FFFF_FFFF);
    let s = d.push(unit_letter(unit));
    // No whitespace at either end: a digit first, a letter last.
    assert(crate::numeric::is_digit(d[0]));
    assert(s[0] == d[0]);
    crate::text::lemma_lead_ws_unique(s, 0);
    assert(s.skip(0) =~= s);
    crate::text::lemma_trail_end_unique(s, s.len() as int);
    assert(s.take(s.len() as int) =~= s);
    assert(trim(s) == s);
    assert(s.drop_last() =~= d);
    assert(d[0] != '-');
    assert(s.last() == unit_letter(unit));
}


// ---------------------------------------------------------------------
// Messages of a refused `--since`
// ---------------------------------------------------------------------

/// A lower-case hex digit.
pub open spec fn lower_digit(k: nat) -> char {
    if k < 10 {
        ((k + 48) as u8) as char
    } else {
        ((k + 87) as u8) as char
    }
}

/// `n` in lower-case hex, for `n < 256`.
pub open spec fn lower_hex(n: nat) -> Seq<char> {
    if n < 16 {
        seq![lower_digit(n)]
    } else {
        seq![lower_digit(n / 16), lower_digit(n % 16)]
    }
}

/// How `{:?}` shows a one-character ASCII string: quoted, with a quote
/// and a backslash escaped by a backslash, NUL as backslash-zero and
/// other control characters as a `u{..}` escape.
pub open spec fn quoted_ascii(c: char) -> Seq<char> {
    let n = c as u32 as nat;
    seq!['"'] + (if c == '"' || c == '\\' {
        seq!['\\', c]
    } else if n == 0 {
        seq!['\\', '0']
    } else if n < 0x20 || n == 0x7f {
        seq!['\\', 'u', '{'] + lower_hex(n) + seq!['}']
    } else {
        seq![c]
    }) + seq!['"']
}

fn lower_digit_exec(k: u32) -> (c: char)
    requires
        k < 16,
    ensures
        c == lower_digit(k as nat),
{
    if k < 10 {
        ((k + 48) as u8) as char
    } else {
        ((k + 87) as u8) as char
    }
}

/// What the operator is told of a refused `--since` token `input`.
pub open spec fn since_error_text(e: SinceError, input: Seq<char>) -> Seq<char> {
    match e {
        SinceError::Empty => "empty --since"@,
        SinceError::Invalid => "invalid --since: "@ + input,
        SinceError::Negative => "--since must be non-negative"@,
        SinceError::BadUnit(c) => "--since unit must be s/m/h/d, got "@ + quoted_ascii(c),
    }
}

impl SinceError {
    /// The message of the refusal of `input`; the unit of a `BadUnit` is
    /// an ASCII character (as `parse_since` reports it).
    pub fn message(&self, input: &str) -> (r: String)
        requires
            *self matches SinceError::BadUnit(c) ==> (c as u32) < 0x80,
        ensures
            r@ == since_error_text(*self, input@),
    {
        match self {
            SinceError::Empty => owned("empty --since"),
            SinceError::Invalid => {
                let mut r = owned("invalid --since: ");
                push_str(&mut r, input);
                r
            },
            SinceError::Negative => owned("--since must be non-negative"),
            SinceError::BadUnit(c) => {
                let c = *c;
                let n = c as u32;
                let mut r = owned("--since unit must be s/m/h/d, got ");
                crate::text::push_char(&mut r, '"');
                if c == '"' || c == '\\' {
                    crate::text::push_char(&mut r, '\\');
                    crate::text::push_char(&mut r, c);
                } else if n == 0 {
                    crate::text::push_char(&mut r, '\\');
                    crate::text::push_char(&mut r, '0');
                } else if n < 0x20 || n == 0x7f {
                    crate::text::push_char(&mut r, '\\');
                    crate::text::push_char(&mut r, 'u');
                    crate::text::push_char(&mut r, '{');
                    if n >= 16 {
                        crate::text::push_char(&mut r, lower_digit_exec(n / 16));
                    }
                    crate::text::push_char(&mut r, lower_digit_exec(n % 16));
                    crate::text::push_char(&mut r, '}');
                } else {
                    crate::text::push_char(&mut r, c);
                }
                crate::text::push_char(&mut r, '"');
                proof {
                    assert(r@ =~= since_error_text(*self, input@));
                }
                r
            },
        }
    }
}

} // verus!
