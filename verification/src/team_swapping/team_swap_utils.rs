use vstd::prelude::*;
use vstd::string::*;

use crate::text::{decimal, digit_char};

verus! {

/// A message for the user who ran a command; an ephemeral one only they see.
pub struct Reply {
    pub text: String,
    pub ephemeral: bool,
}

/// The abstract value of a reply.
pub struct ReplyView {
    pub text: Seq<char>,
    pub ephemeral: bool,
}

impl View for Reply {
    type V = ReplyView;

    open spec fn view(&self) -> ReplyView {
        ReplyView { text: self.text@, ephemeral: self.ephemeral }
    }
}

/// A reply that only the user who ran the command sees.
pub fn private_reply(text: &str) -> (r: Reply)
    ensures
        r@ == (ReplyView { text: text@, ephemeral: true }),
{
    Reply { text: String::from_str(text), ephemeral: true }
}

/// A reply the whole channel sees.
pub fn public_reply(text: &str) -> (r: Reply)
    ensures
        r@ == (ReplyView { text: text@, ephemeral: false }),
{
    Reply { text: String::from_str(text), ephemeral: false }
}

/// A reply only the user sees: a name followed by the rest of the sentence.
pub fn named_private_reply(name: &String, rest: &str) -> (r: Reply)
    ensures
        r@ == (ReplyView { text: name@ + rest@, ephemeral: true }),
{
    let mut t = name.clone();
    t.append(rest);
    Reply { text: t, ephemeral: true }
}

/// Whether `c` is an ASCII decimal digit.
pub open spec fn is_digit(c: char) -> bool {
    '0' <= c && c <= '9'
}

/// The value of a sequence of decimal digits.
pub open spec fn digits_value(s: Seq<char>) -> nat
    decreases s.len(),
{
    if s.len() == 0 {
        0
    } else {
        digits_value(s.drop_last()) * 10 + ((s.last() as u32) - ('0' as u32)) as nat
    }
}

/// The digits of a number text: the text after an optional leading `+`.
pub open spec fn number_digits(s: Seq<char>) -> Seq<char> {
    if s.len() > 0 && s[0] == '+' { s.drop_first() } else { s }
}

/// The value of `s` read as an unsigned decimal number as `str::parse::<u64>`
/// reads it: an optional `+`, then at least one digit, the value within `u64`.
pub open spec fn parsed_u64(s: Seq<char>) -> Option<u64> {
    let d = number_digits(s);
    if d.len() > 0 && (forall|i: int| 0 <= i < d.len() ==> is_digit(#[trigger] d[i])) && digits_value(d) <= u64::MAX {
        Some(digits_value(d) as u64)
    } else {
        None
    }
}

proof fn lemma_digits_value_grows(s: Seq<char>, k: int)
    requires
        0 <= k <= s.len(),
        forall|i: int| 0 <= i < s.len() ==> is_digit(#[trigger] s[i]),
    ensures
        digits_value(s.take(k)) <= digits_value(s),
    decreases s.len() - k,
{
    if k < s.len() {
        lemma_digits_value_grows(s, k + 1);
        assert(s.take(k + 1).drop_last() =~= s.take(k));
    } else {
        assert(s.take(k) =~= s);
    }
}

/// Reads an unsigned decimal number, as `str::parse::<u64>` does.
pub fn parse_u64(s: &str) -> (r: Option<u64>)
    ensures
        r == parsed_u64(s@),
{
    let n = s.unicode_len();
    let mut start: usize = 0;
    if n > 0 && s.get_char(0) == '+' {
        start = 1;
    }
    let ghost d = number_digits(s@);
    assert(d =~= s@.skip(start as int));
    if start >= n {
        assert(d.len() == 0);
        return None;
    }
    let mut value: u64 = 0;
    let mut i: usize = start;
    while i < n
        invariant
            start <= i <= n,
            n == s@.len(),
            d == s@.skip(start as int),
            d == number_digits(s@),
            d.len() == n - start,
            forall|k: int| 0 <= k < i - start ==> is_digit(#[trigger] d[k]),
            value == digits_value(d.take(i - start)),
        decreases n - i,
    {
        let c = s.get_char(i);
        let ghost k: int = i - start;
        assert(d[k] == c);
        if !('0' <= c && c <= '9') {
            assert(!is_digit(d[k]));
            return None;
        }
        let digit: u64 = (c as u32 - '0' as u32) as u64;
        assert(d.take(k + 1).drop_last() =~= d.take(k));
        assert(digits_value(d.take(k + 1)) == value * 10 + digit);
        if value > (u64::MAX - digit) / 10 {
            proof {
                assert(digits_value(d.take(k + 1)) > u64::MAX) by (nonlinear_arith)
                    requires
                        digits_value(d.take(k + 1)) == value * 10 + digit,
                        value > (u64::MAX - digit) / 10,
                        digit <= 9;
                if d.len() > 0 && (forall|j: int| 0 <= j < d.len() ==> is_digit(#[trigger] d[j])) && digits_value(d) <= u64::MAX {
                    lemma_digits_value_grows(d, k + 1);
                }
            }
            return None;
        }
        assert(value * 10 + digit <= u64::MAX) by (nonlinear_arith)
            requires value <= (u64::MAX - digit) / 10, digit <= 9;
        value = value * 10 + digit;
        i = i + 1;
    }
    assert(d.take(n - start) =~= d);
    Some(value)
}

/// Whether `x` is one of the numbers in `v`.
pub fn contains_u64(v: &Vec<u64>, x: u64) -> (r: bool)
    ensures
        r == v@.contains(x),
{
    let mut i: usize = 0;
    while i < v.len()
        invariant
            i <= v@.len(),
            forall|k: int| 0 <= k < i ==> v@[k] != x,
        decreases v@.len() - i,
    {
        if v[i] == x {
            assert(v@[i as int] == x);
            return true;
        }
        i = i + 1;
    }
    false
}

/// Why the current phase of the team swap could not be read.
#[derive(PartialEq, Eq, Structural, Clone, Copy, Debug)]
pub enum PhaseError {
    /// The phase is not set.
    Missing,
    /// The phase is set to something other than a number.
    Invalid,
}

/// Whether the current phase, as set (`None` when it is not set), is one of
/// `allowed_phases`.
pub fn check_phase(allowed_phases: &Vec<u64>, current_phase: Option<&str>) -> (r: Result<bool, PhaseError>)
    ensures
        current_phase is None ==> r == Err::<bool, PhaseError>(PhaseError::Missing),
        current_phase matches Some(t) ==> (match parsed_u64(t@) {
            None => r == Err::<bool, PhaseError>(PhaseError::Invalid),
            Some(p) => r == Ok::<bool, PhaseError>(allowed_phases@.contains(p)),
        }),
{
    match current_phase {
        None => Err(PhaseError::Missing),
        Some(t) => match parse_u64(t) {
            None => Err(PhaseError::Invalid),
            Some(p) => Ok(contains_u64(allowed_phases, p)),
        },
    }
}

/// The phase the event is in, from its setting (the text the phase is set to,
/// `None` when it is not set): `None` when unset or not a number.
pub open spec fn current_phase(setting: Option<String>) -> Option<u64> {
    match setting {
        Some(t) => parsed_u64(t@),
        None => None,
    }
}

/// What the phase setting says of a command allowed in the phases `allowed`:
/// `Err` when the phase cannot be read, else whether it is one of them.
pub open spec fn phase_verdict(setting: Option<String>, allowed: Seq<u64>) -> Result<bool, ()> {
    match current_phase(setting) {
        None => Err(()),
        Some(p) => Ok(allowed.contains(p)),
    }
}

/// Reads the phase setting against the phases a command is allowed in.
pub fn read_phase(setting: &Option<String>, allowed: &Vec<u64>) -> (r: Result<bool, ()>)
    ensures
        r == phase_verdict(*setting, allowed@),
{
    let current = match setting {
        Some(t) => Some(t.as_str()),
        None => None,
    };
    match check_phase(allowed, current) {
        Ok(b) => Ok(b),
        Err(_) => Err(()),
    }
}

/// What a command learns of the phase: nothing before it read the setting
/// (`None`), else the verdict on the setting it read.
pub open spec fn phase_answer(phase: Option<Option<String>>, allowed: Seq<u64>) -> Option<Result<bool, ()>> {
    match phase {
        None => None,
        Some(setting) => Some(phase_verdict(setting, allowed)),
    }
}

/// The verdict on the phase setting a command has read, if it read it.
pub fn answer_phase(phase: &Option<Option<String>>, allowed: &Vec<u64>) -> (r: Option<Result<bool, ()>>)
    ensures
        r == phase_answer(*phase, allowed@),
{
    match phase {
        None => None,
        Some(setting) => Some(read_phase(setting, allowed)),
    }
}

/// The error a failed team lookup is reported as.
pub open spec fn team_lookup_error_text() -> Seq<char> {
    "An error has occured fetching from the database"@
}

/// Whether a team of that name exists, from the database's answer; a failed
/// lookup becomes the error to report.
pub fn check_if_team_exists(lookup: Result<bool, ()>) -> (r: Result<bool, String>)
    ensures
        lookup matches Ok(b) ==> r == Ok::<bool, String>(b),
        lookup is Err ==> (r matches Err(e) && e@ == team_lookup_error_text()),
{
    match lookup {
        Ok(b) => {
            if b { Ok(true) } else { Ok(false) }
        },
        Err(_) => Err(String::from_str("An error has occured fetching from the database")),
    }
}

pub(crate) proof fn lemma_decimal_digits(n: nat)
    ensures
        decimal(n).len() > 0,
        decimal(n)[0] != '+',
        forall|i: int| 0 <= i < decimal(n).len() ==> is_digit(#[trigger] decimal(n)[i]),
        digits_value(decimal(n)) == n,
    decreases n,
{
    let d = n % 10;
    assert(d < 10);
    assert(digit_char(d) as u32 - '0' as u32 == d);
    assert(is_digit(digit_char(d)));
    if n >= 10 {
        lemma_decimal_digits(n / 10);
        let p = decimal(n / 10);
        assert(decimal(n) == p.push(digit_char(d)));
        assert(decimal(n).drop_last() =~= p);
        assert(decimal(n)[0] == p[0]);
        assert forall|i: int| 0 <= i < decimal(n).len() implies is_digit(#[trigger] decimal(n)[i]) by {
            if i < p.len() {
                assert(decimal(n)[i] == p[i]);
            }
        }
        assert(decimal(n).last() == digit_char(d));
        assert(digits_value(decimal(n)) == digits_value(p) * 10 + d);
        assert(n == (n / 10) * 10 + d);
    } else {
        assert(d == n);
        assert(decimal(n) == seq![digit_char(n)]);
        assert(decimal(n).drop_last() =~= Seq::<char>::empty());
        assert(decimal(n).last() == digit_char(d));
        assert(digits_value(decimal(n)) == digits_value(Seq::<char>::empty()) * 10 + d);
    }
}

/// Law: a number written in decimal reads back as itself.
pub proof fn lemma_decimal_round_trip(n: u64)
    ensures
        parsed_u64(decimal(n as nat)) == Some(n),
{
    lemma_decimal_digits(n as nat);
    assert(number_digits(decimal(n as nat)) == decimal(n as nat));
}

} // verus!
