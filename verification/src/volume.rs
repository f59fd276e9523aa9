//! The process-wide playback gain, validated once at startup.
//!
//! The gain is a scalar in `[0, 1]`, held here in permille so the
//! library stays in integer arithmetic; the playback shell divides by
//! the scale when it hands the value to the output sink. Out-of-range
//! or unparsable input is a fatal configuration error for the caller
//! to report; it never reaches a sink.

use vstd::prelude::*;

verus! {

/// Permille denominator: full volume.
pub const VOLUME_SCALE: u16 = 1000;

/// The default gain, in permille (0.35).
pub const DEFAULT_VOLUME_PERMILLE: u16 = 350;

/// ASCII code of `'0'`.
pub const DIGIT_0: u8 = 48;

/// ASCII code of `'9'`.
pub const DIGIT_9: u8 = 57;

/// An ASCII decimal digit.
pub open spec fn is_digit(b: u8) -> bool {
    DIGIT_0 <= b <= DIGIT_9
}

/// Every byte of `s` is a decimal digit.
pub open spec fn all_digits(s: Seq<u8>) -> bool {
    forall|i: int| 0 <= i < s.len() ==> is_digit(#[trigger] s[i])
}

/// The decimal value of a digit string (most significant first).
pub open spec fn digits_value(s: Seq<u8>) -> int
    decreases s.len(),
{
    if s.len() == 0 {
        0
    } else {
        digits_value(s.drop_last()) * 10 + (s.last() - DIGIT_0)
    }
}

/// The permille value of a fractional digit string: its first three
/// digits, padded with zeros on the right. Digits past the third are
/// below the scale's resolution and are truncated.
pub open spec fn frac_permille(f: Seq<u8>) -> int {
    if f.len() == 0 {
        0
    } else if f.len() == 1 {
        digits_value(f) * 100
    } else if f.len() == 2 {
        digits_value(f) * 10
    } else {
        digits_value(f.take(3))
    }
}

/// The permille value a volume string denotes, or `None` when the
/// string is not a decimal number: digits with at most one point and
/// at least one digit on one side of it (`0.35`, `1`, `.5`, `20.`).
pub open spec fn volume_permille_of(s: Seq<u8>) -> Option<int> {
    let parts = crate::grammar::split_on(s, crate::grammar::DOT);
    if parts.len() == 1 && parts[0].len() >= 1 && all_digits(parts[0]) {
        Some(digits_value(parts[0]) * 1000)
    } else if parts.len() == 2 && parts[0].len() + parts[1].len() >= 1 && all_digits(parts[0])
        && all_digits(parts[1]) {
        Some(digits_value(parts[0]) * 1000 + frac_permille(parts[1]))
    } else {
        None
    }
}

/// Why a volume string was rejected.
#[derive(Clone, Copy, PartialEq, Eq, Structural, Debug)]
pub enum VolumeError {
    /// Not a decimal number.
    Malformed,
    /// A decimal number outside `[0, 1]`.
    OutOfRange,
}

impl VolumeError {
    /// A short description for the fatal startup report.
    pub fn message(&self) -> (r: &'static str)
        ensures
            self is Malformed ==> r@ == "volume is not a decimal number"@,
            self is OutOfRange ==> r@ == "volume must lie between 0.0 and 1.0"@,
    {
        match self {
            VolumeError::Malformed => "volume is not a decimal number",
            VolumeError::OutOfRange => "volume must lie between 0.0 and 1.0",
        }
    }
}

/// The validated playback gain. A value of this type always lies in
/// `[0, VOLUME_SCALE]` permille.
#[derive(Clone, Copy, PartialEq, Eq, Structural, Debug)]
pub struct VolumeConfig {
    permille: u16,
}

impl View for VolumeConfig {
    type V = int;

    closed spec fn view(&self) -> int {
        self.permille as int
    }
}

impl VolumeConfig {
    /// The range invariant every constructor establishes.
    #[verifier::type_invariant]
    spec fn range_inv(self) -> bool {
        self.permille <= VOLUME_SCALE
    }

    /// Wraps a permille gain, rejecting values above the scale.
    pub fn from_permille(p: u16) -> (r: Result<VolumeConfig, VolumeError>)
        ensures
            p <= VOLUME_SCALE ==> (r matches Ok(c) && c@ == p),
            p > VOLUME_SCALE ==> r == Err::<VolumeConfig, VolumeError>(VolumeError::OutOfRange),
    {
        if p <= VOLUME_SCALE {
            Ok(VolumeConfig { permille: p })
        } else {
            Err(VolumeError::OutOfRange)
        }
    }

    /// The gain in permille, at most `VOLUME_SCALE`.
    pub fn permille(&self) -> (r: u16)
        ensures
            r == self@,
            r <= VOLUME_SCALE,
    {
        proof {
            use_type_invariant(self);
        }
        self.permille
    }

    /// Parses a volume string. Exactly the strings denoting a decimal
    /// number in `[0, 1]` are accepted; anything else is the fatal
    /// startup error the caller must report.
    pub fn parse(s: &[u8]) -> (r: Result<VolumeConfig, VolumeError>)
        ensures
            match volume_permille_of(s@) {
                Some(v) => if v <= VOLUME_SCALE {
                    r matches Ok(c) && c@ == v
                } else {
                    r == Err::<VolumeConfig, VolumeError>(VolumeError::OutOfRange)
                },
                None => r == Err::<VolumeConfig, VolumeError>(VolumeError::Malformed),
            },
    {
        let parts = crate::grammar::split_bytes(s, crate::grammar::DOT);
        if parts.len() == 1 {
            let whole = &parts[0];
            if whole.len() == 0 {
                return Err(VolumeError::Malformed);
            }
            match capped_digits_value(whole.as_slice()) {
                Some(v) => {
                    if v == 0 {
                        Ok(VolumeConfig { permille: 0 })
                    } else if v == 1 {
                        Ok(VolumeConfig { permille: VOLUME_SCALE })
                    } else {
                        Err(VolumeError::OutOfRange)
                    }
                },
                None => Err(VolumeError::Malformed),
            }
        } else if parts.len() == 2 {
            let whole = &parts[0];
            let frac = &parts[1];
            if whole.len() == 0 && frac.len() == 0 {
                return Err(VolumeError::Malformed);
            }
            let w = match capped_digits_value(whole.as_slice()) {
                Some(v) => v,
                None => {
                    return Err(VolumeError::Malformed);
                },
            };
            let f = match frac_permille_value(frac.as_slice()) {
                Some(v) => v,
                None => {
                    return Err(VolumeError::Malformed);
                },
            };
            if w == 0 {
                Ok(VolumeConfig { permille: f })
            } else if w == 1 && f == 0 {
                Ok(VolumeConfig { permille: VOLUME_SCALE })
            } else {
                Err(VolumeError::OutOfRange)
            }
        } else {
            Err(VolumeError::Malformed)
        }
    }

    /// The default gain used when no volume was configured.
    pub fn default_config() -> (r: VolumeConfig)
        ensures
            r@ == DEFAULT_VOLUME_PERMILLE,
    {
        VolumeConfig { permille: DEFAULT_VOLUME_PERMILLE }
    }
}

/// The value of a digit string, capped at 2 (values 0 and 1 are the
/// only ones a volume's whole part may take; everything larger is
/// equally out of range). `None` when a byte is not a digit.
fn capped_digits_value(s: &[u8]) -> (r: Option<u16>)
    ensures
        match r {
            Some(v) => all_digits(s@) && v == (if digits_value(s@) >= 2 {
                2int
            } else {
                digits_value(s@)
            }),
            None => !all_digits(s@),
        },
{
    let mut acc: u16 = 0;
    let mut i: usize = 0;
    while i < s.len()
        invariant
            0 <= i <= s@.len(),
            all_digits(s@.take(i as int)),
            acc == (if digits_value(s@.take(i as int)) >= 2 {
                2int
            } else {
                digits_value(s@.take(i as int))
            }),
        decreases s@.len() - i,
    {
        let b = s[i];
        if b < DIGIT_0 || b > DIGIT_9 {
            assert(!is_digit(s@[i as int]));
            return None;
        }
        proof {
            assert(s@.take(i + 1).drop_last() =~= s@.take(i as int));
            assert(s@.take(i + 1).last() == s@[i as int]);
        }
        let d = b - DIGIT_0;
        if acc >= 1 || d >= 2 {
            acc = 2;
        } else {
            acc = d as u16;
        }
        i += 1;
    }
    proof {
        assert(s@.take(s@.len() as int) =~= s@);
    }
    Some(acc)
}

/// The permille value of a fractional digit string, or `None` when a
/// byte is not a digit.
fn frac_permille_value(f: &[u8]) -> (r: Option<u16>)
    ensures
        match r {
            Some(v) => all_digits(f@) && v == frac_permille(f@) && v <= 999,
            None => !all_digits(f@),
        },
{
    let mut acc: u16 = 0;
    let mut i: usize = 0;
    // value of the first three digits, most significant first
    while i < f.len()
        invariant
            0 <= i <= f@.len(),
            all_digits(f@.take(i as int)),
            acc == digits_value(f@.take(if i > 3 {
                3int
            } else {
                i as int
            })),
            i == 0 ==> acc == 0,
            i == 1 ==> acc <= 9,
            i == 2 ==> acc <= 99,
            i >= 3 ==> acc <= 999,
        decreases f@.len() - i,
    {
        let b = f[i];
        if b < DIGIT_0 || b > DIGIT_9 {
            assert(!is_digit(f@[i as int]));
            return None;
        }
        proof {
            assert(f@.take(i + 1).drop_last() =~= f@.take(i as int));
            assert(f@.take(i + 1).last() == f@[i as int]);
        }
        if i < 3 {
            acc = acc * 10 + (b - DIGIT_0) as u16;
        }
        i += 1;
    }
    proof {
        assert(f@.take(f@.len() as int) =~= f@);
    }
    if f.len() == 0 {
        Some(0)
    } else if f.len() == 1 {
        Some(acc * 100)
    } else if f.len() == 2 {
        Some(acc * 10)
    } else {
        Some(acc)
    }
}

} // verus!
