//! The trial count of a run: a default, or a decimal setting that must name
//! at least one trial.
use vstd::prelude::*;

verus! {

/// Trials per measurement when no setting is given.
pub const DEFAULT_TRIALS: u64 = 256;

/// Why a trial-count setting was refused.
#[derive(PartialEq, Eq, Structural, Clone, Copy, Debug)]
pub enum ConfigError {
    /// The setting is empty or holds a byte other than an ASCII digit.
    NotANumber,
    /// The setting is a number that does not fit in a `u64`.
    TooLarge,
    /// The setting asks for zero trials.
    Zero,
}

/// An ASCII digit: the bytes 48 ('0') to 57 ('9').
pub open spec fn is_digit(b: u8) -> bool {
    48u8 <= b <= 57u8
}

pub open spec fn all_digits(s: Seq<u8>) -> bool {
    forall|i: int| 0 <= i < s.len() ==> is_digit(#[trigger] s[i])
}

/// The number that a string of ASCII digits writes in decimal.
pub open spec fn decimal_value(s: Seq<u8>) -> nat
    decreases s.len(),
{
    if s.len() == 0 {
        0
    } else {
        decimal_value(s.drop_last()) * 10 + (s.last() - 48u8) as nat
    }
}

/// What a trial-count setting stands for.
pub open spec fn parse_spec(s: Seq<u8>) -> Result<u64, ConfigError> {
    if s.len() == 0 || !all_digits(s) {
        Err(ConfigError::NotANumber)
    } else if decimal_value(s) > u64::MAX {
        Err(ConfigError::TooLarge)
    } else if decimal_value(s) == 0 {
        Err(ConfigError::Zero)
    } else {
        Ok(decimal_value(s) as u64)
    }
}

proof fn lemma_prefix_value_le(s: Seq<u8>, i: int)
    requires
        0 <= i <= s.len(),
    ensures
        decimal_value(s.take(i)) <= decimal_value(s),
    decreases s.len(),
{
    if i < s.len() {
        let t = s.drop_last();
        assert(t.take(i) =~= s.take(i));
        lemma_prefix_value_le(t, i);
    } else {
        assert(s.take(i) =~= s);
    }
}

/// Reads a trial count written in decimal ASCII digits, refusing anything
/// else, a number that does not fit in a `u64`, and zero.
pub fn parse_trial_count(s: &[u8]) -> (r: Result<u64, ConfigError>)
    ensures
        r == parse_spec(s@),
{
    if s.len() == 0 {
        return Err(ConfigError::NotANumber);
    }
    let mut i: usize = 0;
    while i < s.len()
        invariant
            i <= s@.len(),
            forall|j: int| 0 <= j < i ==> is_digit(#[trigger] s@[j]),
        decreases s@.len() - i,
    {
        if s[i] < 48u8 || s[i] > 57u8 {
            return Err(ConfigError::NotANumber);
        }
        i = i + 1;
    }
    let mut acc: u64 = 0;
    let mut k: usize = 0;
    while k < s.len()
        invariant
            k <= s@.len(),
            all_digits(s@),
            acc == decimal_value(s@.take(k as int)),
        decreases s@.len() - k,
    {
        let d = (s[k] - 48u8) as u64;
        assert(s@.take(k + 1).drop_last() =~= s@.take(k as int));
        if acc > (u64::MAX - d) / 10 {
            proof {
                assert(acc * 10 + d > u64::MAX) by (nonlinear_arith)
                    requires acc > (u64::MAX - d) / 10, d <= 9;
                lemma_prefix_value_le(s@, k + 1);
            }
            return Err(ConfigError::TooLarge);
        }
        assert(acc * 10 + d <= u64::MAX) by (nonlinear_arith)
            requires acc <= (u64::MAX - d) / 10, d <= 9;
        acc = acc * 10 + d;
        k = k + 1;
    }
    assert(s@.take(s@.len() as int) =~= s@);
    if acc == 0 {
        Err(ConfigError::Zero)
    } else {
        Ok(acc)
    }
}

/// The trial count of a run: `DEFAULT_TRIALS` without a setting, else the
/// setting as `parse_trial_count` reads it.
pub fn trial_count(setting: Option<&[u8]>) -> (r: Result<u64, ConfigError>)
    ensures
        setting is None ==> r == Ok::<u64, ConfigError>(DEFAULT_TRIALS),
        setting matches Some(s) ==> r == parse_spec(s@),
{
    match setting {
        None => Ok(DEFAULT_TRIALS),
        Some(s) => parse_trial_count(s),
    }
}

} // verus!
