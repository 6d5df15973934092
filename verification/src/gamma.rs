//! Gamma ramps: checking what clients send, and laying it out for the hardware.
use vstd::prelude::*;

verus! {

/// Why a ramp was refused.
#[derive(Clone, Copy, Debug, PartialEq, Eq, Structural)]
pub enum GammaError {
    /// The ramp does not have three times the hardware's length.
    WrongLength { got: u64, expected: u64 },
    /// The hardware reports a ramp of no length.
    ZeroLength,
}

/// The colour rows that a flat ramp of `size` red, `size` green and `size` blue values stands
/// for: red, green, blue and an unused value for each step.
pub open spec fn lut_rows(ramp: Seq<u16>, size: int) -> Seq<u16> {
    Seq::new(
        (4 * size) as nat,
        |k: int|
            if k % 4 == 0 {
                ramp[k / 4]
            } else if k % 4 == 1 {
                ramp[size + k / 4]
            } else if k % 4 == 2 {
                ramp[2 * size + k / 4]
            } else {
                0
            },
    )
}

/// The bytes of a value, low byte first.
pub open spec fn low_first(v: u16) -> Seq<u8> {
    seq![(v % 256) as u8, (v / 256) as u8]
}

/// The bytes of a value, high byte first.
pub open spec fn high_first(v: u16) -> Seq<u8> {
    seq![(v / 256) as u8, (v % 256) as u8]
}

/// `bytes` holds `values` in the order that one machine uses throughout.
pub open spec fn holds_values(bytes: Seq<u8>, values: Seq<u16>) -> bool {
    &&& bytes.len() == 2 * values.len()
    &&& (forall|i: int|
        0 <= i < values.len() ==> bytes.subrange(2 * i, 2 * i + 2) == low_first(
            #[trigger] values[i],
        )) || (forall|i: int|
        0 <= i < values.len() ==> bytes.subrange(2 * i, 2 * i + 2) == high_first(
            #[trigger] values[i],
        ))
}

/// The memory of a list of numbers as bytes.
///
/// Trusted: calls `bytemuck::cast_slice` from `u16` to `u8`, which gives the same memory under
/// another type: two bytes for each number, in the byte order of the machine. Which of the two
/// orders that is, is left open.
#[verifier::external_body]
fn bytes_of(values: &Vec<u16>) -> (r: Vec<u8>)
    requires
        values@.len() <= isize::MAX / 2,
    ensures
        holds_values(r@, values@),
{
    bytemuck::cast_slice::<u16, u8>(values.as_slice()).to_vec()
}

/// The lookup table for a ramp, as the display driver takes it. `size` is the length that the
/// hardware reports.
pub fn gamma_lut(ramp: &Vec<u16>, size: u32) -> (r: Result<Vec<u8>, GammaError>)
    requires
        4 * size <= isize::MAX / 2,
    ensures
        match r {
            Ok(bytes) => ramp@.len() == 3 * size && holds_values(
                bytes@,
                lut_rows(ramp@, size as int),
            ),
            Err(e) => ramp@.len() != 3 * size && e == (GammaError::WrongLength {
                got: ramp@.len() as u64,
                expected: (3 * size) as u64,
            }),
        },
{
    let expected: u64 = size as u64 * 3;
    if ramp.len() as u64 != expected {
        return Err(GammaError::WrongLength { got: ramp.len() as u64, expected });
    }
    let n: usize = size as usize;
    let mut rows: Vec<u16> = Vec::new();
    let mut i: usize = 0;
    let ghost want = lut_rows(ramp@, n as int);
    while i < n
        invariant
            i <= n,
            n == size,
            ramp@.len() == 3 * n,
            4 * n <= isize::MAX / 2,
            rows@.len() == 4 * i,
            want == lut_rows(ramp@, n as int),
            forall|k: int| 0 <= k < rows@.len() ==> #[trigger] rows@[k] == want[k],
        decreases n - i,
    {
        assert(4 * i < want.len() && 4 * i + 3 < want.len());
        assert(want[4 * i as int] == ramp@[i as int]);
        assert(want[4 * i + 1] == ramp@[n + i]);
        assert(want[4 * i + 2] == ramp@[2 * n + i]);
        assert(want[4 * i + 3] == 0);
        rows.push(ramp[i]);
        rows.push(ramp[n + i]);
        rows.push(ramp[2 * n + i]);
        rows.push(0);
        i = i + 1;
    }
    assert(rows@ =~= want);
    Ok(bytes_of(&rows))
}

/// The value at step `i` of a linear ramp of `n` steps.
pub open spec fn linear(i: int, n: int) -> int {
    0xFFFF * i / (n - 1)
}

/// A linear ramp starts at zero, ends at full brightness and never falls.
pub proof fn law_linear_ramp_spans_the_range(n: int, i: int, j: int)
    requires
        n >= 2,
        0 <= i <= j < n,
    ensures
        linear(0, n) == 0,
        linear(n - 1, n) == 0xFFFF,
        0 <= linear(i, n) <= linear(j, n) <= 0xFFFF,
{
    let d = n - 1;
    assert(0int / d == 0) by (nonlinear_arith)
        requires
            d >= 1,
    ;
    assert((0xFFFF * d) / d == 0xFFFF) by (nonlinear_arith)
        requires
            d >= 1,
    ;
    vstd::arithmetic::div_mod::lemma_div_is_ordered(0, 0xFFFF * i, d);
    vstd::arithmetic::div_mod::lemma_div_is_ordered(0xFFFF * i, 0xFFFF * j, d);
    vstd::arithmetic::div_mod::lemma_div_is_ordered(0xFFFF * j, 0xFFFF * d, d);
}

/// The three ramps that are set on hardware without a lookup table: the parts of the ramp given,
/// or a linear ramp for each colour.
pub fn legacy_gamma(gamma_length: u32, ramp: Option<&Vec<u16>>) -> (r: Result<
    (Vec<u16>, Vec<u16>, Vec<u16>),
    GammaError,
>)
    requires
        ramp is None ==> gamma_length != 1,
        3 * gamma_length <= usize::MAX,
    ensures
        match (r, ramp) {
            (Err(e), Some(v)) => if gamma_length == 0 {
                e == GammaError::ZeroLength
            } else {
                v@.len() != 3 * gamma_length && e == (GammaError::WrongLength {
                    got: v@.len() as u64,
                    expected: (3 * gamma_length) as u64,
                })
            },
            (Err(e), None) => gamma_length == 0 && e == GammaError::ZeroLength,
            (Ok((red, green, blue)), Some(v)) => gamma_length > 0 && v@.len() == 3 * gamma_length
                && red@ == v@.subrange(0, gamma_length as int) && green@ == v@.subrange(
                gamma_length as int,
                2 * gamma_length,
            ) && blue@ == v@.subrange(2 * gamma_length, 3 * gamma_length),
            (Ok((red, green, blue)), None) => gamma_length > 0 && red@ == Seq::new(
                gamma_length as nat,
                |i: int| linear(i, gamma_length as int) as u16,
            ) && green@ == red@ && blue@ == red@,
        },
{
    if gamma_length == 0 {
        return Err(GammaError::ZeroLength);
    }
    let n: usize = gamma_length as usize;
    match ramp {
        Some(v) => {
            let expected: u64 = gamma_length as u64 * 3;
            if v.len() as u64 != expected {
                return Err(GammaError::WrongLength { got: v.len() as u64, expected });
            }
            Ok((part(v, 0, n), part(v, n, n), part(v, 2 * n, n)))
        },
        None => {
            let mut red: Vec<u16> = Vec::new();
            let mut green: Vec<u16> = Vec::new();
            let mut blue: Vec<u16> = Vec::new();
            let denom: u64 = n as u64 - 1;
            let mut i: usize = 0;
            while i < n
                invariant
                    i <= n,
                    n == gamma_length,
                    n >= 2,
                    denom == n - 1,
                    red@.len() == i,
                    forall|k: int|
                        0 <= k < i ==> #[trigger] red@[k] == linear(k, n as int) as u16,
                    green@ == red@,
                    blue@ == red@,
                decreases n - i,
            {
                proof {
                    law_linear_ramp_spans_the_range(n as int, i as int, i as int);
                }
                let value: u16 = (0xFFFFu64 * i as u64 / denom) as u16;
                red.push(value);
                green.push(value);
                blue.push(value);
                i = i + 1;
            }
            assert(red@ =~= Seq::new(
                gamma_length as nat,
                |i: int| linear(i, gamma_length as int) as u16,
            ));
            Ok((red, green, blue))
        },
    }
}

/// Copies `n` values from `from` on.
fn part(v: &Vec<u16>, from: usize, n: usize) -> (r: Vec<u16>)
    requires
        from + n <= v@.len(),
    ensures
        r@ == v@.subrange(from as int, from + n),
{
    let len: usize = v.len();
    let mut out: Vec<u16> = Vec::new();
    let mut i: usize = 0;
    while i < n
        invariant
            i <= n,
            from + n <= len == v@.len(),
            out@ == v@.subrange(from as int, from + i),
        decreases n - i,
    {
        out.push(v[from + i]);
        i = i + 1;
        assert(out@ =~= v@.subrange(from as int, from + i));
    }
    out
}

/// The gamma table that is in use on one output, by the number that the driver gave it.
#[derive(Clone, Copy, Debug, PartialEq, Eq, Structural)]
pub struct GammaProps {
    pub previous_blob: Option<u64>,
}

impl GammaProps {
    /// The table to set: the new one, or zero for none.
    pub fn blob_id(blob: Option<u64>) -> (r: u64)
        ensures
            r == match blob {
                Some(b) => b,
                None => 0,
            },
    {
        match blob {
            Some(b) => b,
            None => 0,
        }
    }

    /// Setting a table has succeeded or failed. Gives the table that is no longer used and has to
    /// be destroyed: the one before it, or the new one itself.
    pub fn blob_set(&mut self, blob: Option<u64>, succeeded: bool) -> (destroy: Option<u64>)
        ensures
            succeeded ==> final(self).previous_blob == blob && destroy == old(self).previous_blob,
            !succeeded ==> *final(self) == *old(self) && destroy == blob,
    {
        if succeeded {
            let old_blob = self.previous_blob;
            self.previous_blob = blob;
            old_blob
        } else {
            blob
        }
    }

    /// The table to set again, e.g. after session resume.
    pub fn restore_gamma(&self) -> (r: u64)
        ensures
            r == match self.previous_blob {
                Some(b) => b,
                None => 0,
            },
    {
        match self.previous_blob {
            Some(b) => b,
            None => 0,
        }
    }
}

/// Whichever way setting a table ends, exactly one of the two tables stays in use and the other
/// is destroyed: none leaks, and the one in use is not destroyed.
pub proof fn law_no_gamma_table_leaks(
    before: GammaProps,
    after: GammaProps,
    blob: Option<u64>,
    succeeded: bool,
    destroy: Option<u64>,
)
    requires
        succeeded ==> after.previous_blob == blob && destroy == before.previous_blob,
        !succeeded ==> after == before && destroy == blob,
    ensures
        (after.previous_blob == blob && destroy == before.previous_blob) || (after.previous_blob
            == before.previous_blob && destroy == blob),
{
}

/// What a change of gamma does to the hardware.
#[derive(Debug)]
pub enum GammaAction {
    /// Set this ramp (`None` for identity), through the table property or the old interface.
    Apply { ramp: Option<Vec<u16>>, through_table: bool },
    /// Set the table that was in use again.
    Restore,
    /// Nothing.
    Keep,
}

/// A client sets gamma. While the session is paused the change is kept for later; a newer change
/// replaces an older one.
pub fn set_gamma(
    pending: &mut Option<Option<Vec<u16>>>,
    session_active: bool,
    has_table: bool,
    ramp: Option<Vec<u16>>,
) -> (r: GammaAction)
    ensures
        if session_active {
            *final(pending) == *old(pending) && r == (GammaAction::Apply {
                ramp,
                through_table: has_table,
            })
        } else {
            *final(pending) == Some(ramp) && r is Keep
        },
{
    if !session_active {
        *pending = Some(ramp);
        return GammaAction::Keep;
    }
    GammaAction::Apply { ramp, through_table: has_table }
}

/// The session resumes: a change that was kept is applied, otherwise the table in use is set
/// again.
pub fn resume_gamma(pending: &mut Option<Option<Vec<u16>>>, has_table: bool) -> (r: GammaAction)
    ensures
        *final(pending) is None,
        r == match *old(pending) {
            Some(ramp) => GammaAction::Apply { ramp, through_table: has_table },
            None => if has_table {
                GammaAction::Restore
            } else {
                GammaAction::Keep
            },
        },
{
    match pending.take() {
        Some(ramp) => GammaAction::Apply { ramp, through_table: has_table },
        None => {
            if has_table {
                GammaAction::Restore
            } else {
                GammaAction::Keep
            }
        },
    }
}

/// The ramp length that clients are told: none where the hardware reports zero.
pub fn get_gamma_size(reported: u32) -> (r: Option<u32>)
    ensures
        r == if reported == 0 {
            None
        } else {
            Some(reported)
        },
{
    if reported == 0 {
        None
    } else {
        Some(reported)
    }
}

} // verus!
