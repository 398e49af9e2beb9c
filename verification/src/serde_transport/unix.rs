//! Names of Unix domain sockets: a given name, or a name made unique by a random suffix of
//! sixteen lowercase hex digits.

use vstd::prelude::*;
use crate::util::{hex_char, hex_digit, push_char, push_str};

verus! {

/// The sixteen lowercase hex digits of `u`, most significant first, zero-padded.
pub open spec fn hex16(u: u64) -> Seq<char> {
    Seq::new(16, |i: int| hex_digit((u >> (4 * (15 - i)) as u64) & 0xf))
}

/// `name`, an underscore, and the sixteen lowercase hex digits of `suffix`.
pub fn socket_name(name: &str, suffix: u64) -> (s: String)
    ensures
        s@ == name@ + "_"@ + hex16(suffix),
{
    proof {
        reveal_strlit("_");
    }
    let mut s = String::new();
    push_str(&mut s, name);
    push_str(&mut s, "_");
    let ghost prefix = s@;
    let mut i: u64 = 0;
    while i < 16
        invariant
            0 <= i <= 16,
            prefix == name@ + "_"@,
            s@ == prefix + hex16(suffix).take(i as int),
        decreases 16 - i,
    {
        let shift: u64 = 4 * (15 - i);
        let digit = (suffix >> shift) & 0xf;
        assert(digit < 16) by (bit_vector)
            requires
                digit == (suffix >> shift) & 0xf,
        ;
        push_char(&mut s, hex_char(digit));
        proof {
            assert(hex16(suffix).take(i + 1) =~= hex16(suffix).take(i as int).push(
                hex_digit(digit),
            ));
        }
        i = i + 1;
    }
    proof {
        assert(hex16(suffix).take(16) =~= hex16(suffix));
    }
    s
}

/// A random number drawn with `rand::random::<u64>()`. Nothing is stated of it.
#[verifier::external_body]
fn random_u64() -> (u: u64) {
    rand::random::<u64>()
}

/// `name` made unique: an underscore and sixteen random lowercase hex digits appended.
pub fn random_socket_name(name: &str) -> (s: String)
    ensures
        exists|suffix: u64| s@ == name@ + "_"@ + #[trigger] hex16(suffix),
{
    socket_name(name, random_u64())
}

} // verus!
