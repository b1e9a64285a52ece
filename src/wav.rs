//! Conversion of captured integer samples to the 16-bit samples a WAV
//! recording holds.
use vstd::prelude::*;

verus! {

/// The 16-bit sample for an unsigned 8-bit one: centred on 128, then scaled
/// up by 256.
pub open spec fn spec_wav_from_u8(s: u8) -> int {
    (s - 128) * 256
}

/// The 16-bit sample for a signed 32-bit one: its top 16 bits, that is the
/// sample divided by 65536, rounded down.
pub open spec fn spec_wav_from_i32(s: i32) -> int {
    s as int / 65536
}

/// The 16-bit sample for an unsigned 8-bit one.
pub fn wav_from_u8(s: u8) -> (r: i16)
    ensures
        r == spec_wav_from_u8(s),
{
    ((s as i16) - 128) * 256
}

/// The 16-bit sample for a signed 32-bit one.
pub fn wav_from_i32(s: i32) -> (r: i16)
    ensures
        r == spec_wav_from_i32(s),
{
    let q: i64 = if s >= 0 {
        s as i64 / 65536
    } else {
        -((65535 - s as i64) / 65536)
    };
    proof {
        if s < 0 {
            let m = 65535 - s as int;
            assert(-(m / 65536) == s as int / 65536) by (nonlinear_arith)
                requires
                    m == 65535 - s as int,
                    s < 0,
            ;
        }
    }
    q as i16
}

/// The 16-bit samples for unsigned 8-bit ones, in order.
pub fn wav_samples_u8(data: &Vec<u8>) -> (r: Vec<i16>)
    ensures
        r@.len() == data@.len(),
        forall|i: int| 0 <= i < r@.len() ==> #[trigger] r@[i] == spec_wav_from_u8(data@[i]),
{
    let mut r: Vec<i16> = Vec::new();
    let mut i: usize = 0;
    while i < data.len()
        invariant
            i <= data.len(),
            r@.len() == i,
            forall|j: int| 0 <= j < i ==> #[trigger] r@[j] == spec_wav_from_u8(data@[j]),
        decreases data.len() - i,
    {
        r.push(wav_from_u8(data[i]));
        i = i + 1;
    }
    r
}

/// The 16-bit samples for signed 32-bit ones, in order.
pub fn wav_samples_i32(data: &Vec<i32>) -> (r: Vec<i16>)
    ensures
        r@.len() == data@.len(),
        forall|i: int| 0 <= i < r@.len() ==> #[trigger] r@[i] == spec_wav_from_i32(data@[i]),
{
    let mut r: Vec<i16> = Vec::new();
    let mut i: usize = 0;
    while i < data.len()
        invariant
            i <= data.len(),
            r@.len() == i,
            forall|j: int| 0 <= j < i ==> #[trigger] r@[j] == spec_wav_from_i32(data@[j]),
        decreases data.len() - i,
    {
        r.push(wav_from_i32(data[i]));
        i = i + 1;
    }
    r
}

} // verus!
