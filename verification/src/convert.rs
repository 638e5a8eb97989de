//! In-place channel-order conversion for raw 32-bit-per-pixel buffers.
//!
//! OS renderers hand back pixels in B,G,R,A byte order; encoders expect
//! R,G,B,A. The transform swaps the first and third byte of every 4-byte
//! pixel, working over complete 16-byte groups (4 pixels); a trailing
//! partial group is left in source order.

use vstd::prelude::*;

verus! {

/// The byte that position `i` holds after the swap, when `i` lies in a
/// converted region: bytes 0 and 2 of each 4-byte pixel trade places.
pub open spec fn swapped_byte(s: Seq<u8>, i: int) -> u8 {
    if i % 4 == 0 {
        s[i + 2]
    } else if i % 4 == 2 {
        s[i - 2]
    } else {
        s[i]
    }
}

/// The whole buffer after the channel-order transform: every byte inside
/// the complete 16-byte groups is swapped within its pixel, and the bytes
/// of a trailing partial group keep their source order.
pub open spec fn channel_swapped(s: Seq<u8>) -> Seq<u8> {
    Seq::new(
        s.len(),
        |i: int|
            if i < 16 * (s.len() as int / 16) {
                swapped_byte(s, i)
            } else {
                s[i]
            },
    )
}

/// Convert BGRA pixel data to RGBA in place.
///
/// Processes the buffer in 16-byte groups; whatever remains after the last
/// complete group keeps its source channel order.
pub fn bgra_to_rgba(data: &mut Vec<u8>)
    ensures
        final(data)@ == channel_swapped(old(data)@),
{
    let n = data.len();
    let pixels = (n / 16) * 4;
    proof {
        assert(16 * ((n as int) / 16) <= n) by (nonlinear_arith);
        assert(4 * ((n as int / 16) * 4) == 16 * (n as int / 16)) by (nonlinear_arith);
    }
    let mut j: usize = 0;
    while j < pixels
        invariant
            pixels == (n as int / 16) * 4,
            4 * pixels <= n,
            n == data@.len(),
            n == old(data)@.len(),
            j <= pixels,
            forall|i: int| 0 <= i < 4 * j ==> data@[i] == swapped_byte(old(data)@, i),
            forall|i: int| 4 * j <= i < n ==> data@[i] == old(data)@[i],
        decreases pixels - j,
    {
        let base = j * 4;
        proof {
            assert(base + 4 <= 4 * pixels) by (nonlinear_arith)
                requires
                    base == j * 4,
                    j < pixels,
            ;
        }
        let b0 = data[base];
        let b2 = data[base + 2];
        data[base] = b2;
        data[base + 2] = b0;
        proof {
            assert forall|i: int| 0 <= i < 4 * (j + 1) implies data@[i] == swapped_byte(
                old(data)@,
                i,
            ) by {
                if 4 * j <= i {
                    assert(i % 4 == i - 4 * j);
                }
            }
        }
        j = j + 1;
    }
    proof {
        assert(4 * pixels == 16 * (n as int / 16));
        assert(data@ =~= channel_swapped(old(data)@));
    }
}

/// The channel-order transform is self-inverse: applied twice to any buffer
/// whose length is a multiple of 16, it returns the original bytes.
pub proof fn lemma_channel_swap_self_inverse(s: Seq<u8>)
    requires
        s.len() % 16 == 0,
    ensures
        channel_swapped(channel_swapped(s)) == s,
{
    let t = channel_swapped(s);
    assert(16 * (s.len() as int / 16) == s.len());
    assert forall|i: int| 0 <= i < s.len() implies channel_swapped(t)[i] == s[i] by {
        if i % 4 == 0 {
            assert((i + 2) % 4 == 2);
            assert(channel_swapped(t)[i] == t[i + 2]);
        } else if i % 4 == 2 {
            assert((i - 2) % 4 == 0);
            assert(channel_swapped(t)[i] == t[i - 2]);
        }
    }
    assert(channel_swapped(t) =~= s);
}

} // verus!
