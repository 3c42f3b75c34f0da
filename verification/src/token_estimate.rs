//! Estimating token counts from text length while a session streams: a
//! characters-per-token ratio that starts at four and is calibrated against
//! the counts that finished sessions report, kept between 2.5 and 6.
use vstd::prelude::*;
use vstd::string::StringSliceAdditionalSpecFns;

verus! {

/// The calibration: the characters and tokens seen so far.
#[derive(Debug, Clone, Copy)]
pub struct TokenCalibration {
    pub total_chars: u64,
    pub total_tokens: u64,
}

/// The characters-per-token ratio, as numerator and denominator: four
/// before any calibration, else the observed ratio clamped to [2.5, 6].
pub open spec fn ratio_of(c: TokenCalibration) -> (int, int) {
    if c.total_tokens == 0 {
        (4, 1)
    } else if 2 * c.total_chars < 5 * c.total_tokens {
        (5, 2)
    } else if c.total_chars > 6 * c.total_tokens {
        (6, 1)
    } else {
        (c.total_chars as int, c.total_tokens as int)
    }
}

/// The estimated tokens of `len` characters: the length divided by the
/// ratio, rounded up.
pub open spec fn estimate_of(c: TokenCalibration, len: int) -> int {
    let (n, d) = ratio_of(c);
    if len == 0 { 0 } else { (len * d + n - 1) / n }
}

impl TokenCalibration {
    /// No data yet: four characters per token.
    pub fn new() -> (r: Self)
        ensures
            r.total_chars == 0 && r.total_tokens == 0,
    {
        TokenCalibration { total_chars: 0, total_tokens: 0 }
    }

    /// The current ratio, as numerator and denominator.
    pub fn ratio(&self) -> (r: (u64, u64))
        ensures
            (r.0 as int, r.1 as int) == ratio_of(*self),
    {
        if self.total_tokens == 0 {
            (4, 1)
        } else if (self.total_chars as u128) * 2 < (self.total_tokens as u128) * 5 {
            (5, 2)
        } else if (self.total_chars as u128) > (self.total_tokens as u128) * 6 {
            (6, 1)
        } else {
            (self.total_chars, self.total_tokens)
        }
    }

    /// Estimated tokens of `text`, by its length in bytes.
    pub fn estimate_tokens(&self, text: &str) -> (r: u64)
        ensures
            r == estimate_of(*self, text.spec_bytes().len() as int),
    {
        let len = text.as_bytes().len();
        self.estimate_len(len)
    }

    /// Estimated tokens of `len` bytes of text.
    pub fn estimate_len(&self, len: usize) -> (r: u64)
        ensures
            r == estimate_of(*self, len as int),
    {
        if len == 0 {
            return 0;
        }
        let (n, d) = self.ratio();
        assert(n >= 1 && d >= 1 && n * 2 >= d * 5);
        assert((len as int) * (d as int) <= (len as int) * (n as int)) by (nonlinear_arith)
            requires
                n * 2 >= d * 5,
                d >= 1,
        {
        }
        assert((len as int) * (n as int) + (n as int) <= u128::MAX) by (nonlinear_arith)
            requires
                len <= u64::MAX,
                n <= u64::MAX,
        {
            assert((len as int) * (n as int) <= (u64::MAX as int) * (u64::MAX as int));
        }
        let num = (len as u128) * (d as u128) + (n as u128) - 1;
        let q = num / (n as u128);
        assert(q <= len) by (nonlinear_arith)
            requires
                num <= len * n + n - 1,
                q == num / (n as u128),
                n >= 1,
        {
        }
        q as u64
    }

    /// Adds a finished session's counts to the calibration; a count of zero
    /// on either side is ignored.
    pub fn calibrate_token_estimate(&mut self, actual_chars: u64, actual_tokens: u64)
        requires
            old(self).total_chars + actual_chars <= u64::MAX,
            old(self).total_tokens + actual_tokens <= u64::MAX,
        ensures
            (actual_chars == 0 || actual_tokens == 0) ==> *final(self) == *old(self),
            (actual_chars > 0 && actual_tokens > 0) ==> final(self).total_chars == old(self).total_chars + actual_chars
                && final(self).total_tokens == old(self).total_tokens + actual_tokens,
    {
        if actual_tokens == 0 || actual_chars == 0 {
            return;
        }
        self.total_chars = self.total_chars + actual_chars;
        self.total_tokens = self.total_tokens + actual_tokens;
    }
}

/// Estimated tokens of `text` at the starting ratio of four characters per
/// token.
pub fn estimate_tokens(text: &str) -> (r: u64)
    ensures
        r == estimate_of(TokenCalibration { total_chars: 0, total_tokens: 0 }, text.spec_bytes().len() as int),
{
    TokenCalibration::new().estimate_tokens(text)
}

} // verus!
