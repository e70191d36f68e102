//! Rendering of unsigned numbers in a radix up to 36, for task ids and
//! content fingerprints.
use vstd::prelude::*;

verus! {

/// The digit alphabet, lowest value first.
pub open spec fn digit_alphabet() -> Seq<char> {
    "0123456789abcdefghijklmnopqrstuvwxyz"@
}

/// The digits of `n` in base `b`, most significant first, without leading zeros.
pub open spec fn radix_text(n: nat, b: nat) -> Seq<char>
    recommends
        2 <= b <= 36,
    decreases n
    via radix_text_decreases
{
    if b < 2 || n < b {
        seq![digit_alphabet()[n as int]]
    } else {
        radix_text(n / b, b).push(digit_alphabet()[(n % b) as int])
    }
}

#[via_fn]
proof fn radix_text_decreases(n: nat, b: nat) {
    if !(b < 2 || n < b) {
        vstd::arithmetic::div_mod::lemma_div_decreases(n as int, b as int);
    }
}

fn digit(d: u128) -> (r: String)
    requires
        d < 36,
    ensures
        r@ == seq![digit_alphabet()[d as int]],
{
    let alphabet = "0123456789abcdefghijklmnopqrstuvwxyz";
    proof {
        reveal_strlit("0123456789abcdefghijklmnopqrstuvwxyz");
    }
    let s = alphabet.substring_char(d as usize, (d + 1) as usize);
    assert(s@ =~= seq![digit_alphabet()[d as int]]);
    s.to_owned()
}

/// `n` written in base `b`.
pub fn radix_encode(n: u128, b: u128) -> (r: String)
    requires
        2 <= b <= 36,
    ensures
        r@ == radix_text(n as nat, b as nat),
{
    let mut m = n;
    let mut out = String::new();
    assert(out@ =~= Seq::<char>::empty());
    loop
        invariant
            2 <= b <= 36,
            radix_text(n as nat, b as nat) == radix_text(m as nat, b as nat) + out@,
        decreases m,
    {
        let mut s = digit(m % b);
        s.append(out.as_str());
        if m < b {
            proof {
                vstd::arithmetic::div_mod::lemma_small_mod(m as nat, b as nat);
            }
            assert(s@ =~= radix_text(m as nat, b as nat) + out@);
            return s;
        }
        proof {
            assert(radix_text(m as nat, b as nat) == radix_text((m / b) as nat, b as nat).push(
                digit_alphabet()[(m % b) as int],
            ));
            assert(radix_text(m as nat, b as nat) + out@ =~= radix_text((m / b) as nat, b as nat) + s@);
        }
        out = s;
        m = m / b;
    }
}

/// `n` in base 36 with digits `0-9a-z`.
pub fn base36_encode(n: u64) -> (r: String)
    ensures
        r@ == radix_text(n as nat, 36),
{
    radix_encode(n as u128, 36)
}

} // verus!
