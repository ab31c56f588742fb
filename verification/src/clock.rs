use vstd::prelude::*;

verus! {

/// Relies on std::time::SystemTime::now: the whole seconds elapsed since
/// the unix epoch, read as zero when the system clock stands before the
/// epoch (duration_since then reports an error; nothing here panics).
/// Nothing more can be promised of what the clock reads.
#[verifier::external_body]
fn system_now_seconds() -> (r: u64) {
    match std::time::SystemTime::now().duration_since(std::time::UNIX_EPOCH) {
        Ok(d) => d.as_secs(),
        Err(_) => 0,
    }
}

/// The wall clock in unix seconds, capped into `i64` range, which leaves
/// room to add any token lifetime without overflowing `u64`.
pub fn unix_now() -> (r: u64)
    ensures
        r <= 0x7fff_ffff_ffff_ffff,
{
    let t = system_now_seconds();
    if t > 0x7fff_ffff_ffff_ffff {
        0x7fff_ffff_ffff_ffff
    } else {
        t
    }
}

} // verus!
