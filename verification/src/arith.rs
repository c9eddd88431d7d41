//! Division that rounds up.

use vstd::arithmetic::div_mod::lemma_fundamental_div_mod;
use vstd::prelude::*;

verus! {

/// How many pieces of length `piece` it takes to cover `length`.
pub open spec fn ceil_div(length: nat, piece: nat) -> nat
    recommends
        piece > 0,
{
    length / piece + if length % piece == 0 {
        0nat
    } else {
        1nat
    }
}

/// `ceil_div` is the least number of pieces that covers the length.
pub proof fn lemma_ceil_div(length: nat, piece: nat)
    requires
        piece > 0,
    ensures
        length <= ceil_div(length, piece) * piece < length + piece,
        ceil_div(length, piece) <= length,
        forall|n: nat| length <= #[trigger] (n * piece) ==> ceil_div(length, piece) <= n,
{
    let q = length / piece;
    let r = length % piece;
    let c = ceil_div(length, piece);
    lemma_fundamental_div_mod(length as int, piece as int);
    assert(length == piece * q + r);
    assert((q + 1) * piece == piece * q + piece) by (nonlinear_arith);
    assert(q * piece == piece * q) by (nonlinear_arith);
    assert(q <= piece * q) by (nonlinear_arith)
        requires
            piece > 0,
            q >= 0,
    ;
    assert forall|n: nat| length <= #[trigger] (n * piece) implies c <= n by {
        if n < c {
            assert(n * piece <= (c - 1) * piece) by (nonlinear_arith)
                requires
                    n <= c - 1,
                    piece > 0,
            ;
            assert((c - 1) * piece == c * piece - piece) by (nonlinear_arith);
        }
    }
}

/// A number of pieces that covers the length, and is of no use without its last
/// piece, is `ceil_div`.
pub proof fn lemma_least_cover(length: nat, piece: nat, n: nat)
    requires
        piece > 0,
        length <= n * piece,
        n > 0 ==> (n - 1) * piece < length,
    ensures
        ceil_div(length, piece) == n,
{
    lemma_ceil_div(length, piece);
    let c = ceil_div(length, piece);
    if c < n {
        assert(c * piece <= (n - 1) * piece) by (nonlinear_arith)
            requires
                c <= n - 1,
                piece > 0,
        ;
    }
}

/// How many pieces of length `piece` it takes to cover `length`.
pub fn div_ceil_usize(length: usize, piece: usize) -> (n: usize)
    requires
        piece > 0,
    ensures
        n == ceil_div(length as nat, piece as nat),
{
    proof {
        lemma_ceil_div(length as nat, piece as nat);
    }
    if length % piece == 0 {
        length / piece
    } else {
        length / piece + 1
    }
}

/// How many pieces of length `piece` it takes to cover `length`.
pub fn div_ceil_u128(length: u128, piece: u128) -> (n: u128)
    requires
        piece > 0,
    ensures
        n == ceil_div(length as nat, piece as nat),
{
    proof {
        lemma_ceil_div(length as nat, piece as nat);
    }
    if length % piece == 0 {
        length / piece
    } else {
        length / piece + 1
    }
}

} // verus!
