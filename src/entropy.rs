//! Random bytes for seeding a grid, with a fixed fallback when the source fails.

use vstd::prelude::*;

verus! {

#[verifier::external_type_specification]
#[verifier::external_body]
pub struct ExRandomError(getrandom::Error);

/// Byte used in place of a random one when the random source fails; it is odd,
/// so the cell it seeds starts dead.
pub const FALLBACK_BYTE: u8 = 1;

/// Relies on `getrandom::getrandom`: fills the buffer from the operating system's
/// random source, or returns that source's error.
#[verifier::external_body]
fn fill_random(buf: &mut [u8; 1]) -> (r: Result<(), getrandom::Error>) {
    getrandom::getrandom(buf)
}

/// The byte that seeds a cell from one draw: the drawn byte, or `FALLBACK_BYTE`
/// when the draw failed.
pub open spec fn byte_of_draw(drawn: Result<u8, getrandom::Error>) -> u8 {
    match drawn {
        Ok(b) => b,
        Err(_) => FALLBACK_BYTE,
    }
}

/// The seeding bytes of a sequence of draws, one per draw.
pub open spec fn draw_bytes(draws: Seq<Result<u8, getrandom::Error>>) -> Seq<u8> {
    draws.map_values(|d: Result<u8, getrandom::Error>| byte_of_draw(d))
}

/// One draw from the random source: a byte, or the source's error.
pub(crate) fn draw_random_u8() -> Result<u8, getrandom::Error> {
    let mut rand: [u8; 1] = [0];
    match fill_random(&mut rand) {
        Ok(()) => Ok(rand[0]),
        Err(e) => Err(e),
    }
}

/// The drawn byte, or `FALLBACK_BYTE` when the draw failed; a failure never
/// reaches the caller.
pub fn byte_or_fallback(drawn: &Result<u8, getrandom::Error>) -> (r: u8)
    ensures
        r == byte_of_draw(*drawn),
        r == (if drawn is Ok {
            drawn->Ok_0
        } else {
            FALLBACK_BYTE
        }),
{
    match drawn {
        Ok(b) => *b,
        Err(_) => FALLBACK_BYTE,
    }
}

} // verus!
