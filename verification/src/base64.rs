//! Standard base64 with padding, as cluster secrets carry their data.

use vstd::prelude::*;
use vstd::string::*;

verus! {

/// The 64 digits, in the order of their values.
pub open spec fn digits() -> Seq<char> {
    "ABCDEFGHIJKLMNOPQRSTUVWXYZabcdefghijklmnopqrstuvwxyz0123456789+/"@
}

/// The digit that stands for the six-bit value `v`.
pub open spec fn digit(v: int) -> char
    recommends
        0 <= v < 64,
{
    digits()[v]
}

/// The four characters that encode up to three bytes: `n` of `b0`, `b1`, `b2`
/// are given, the others are zero and their places are padded.
pub open spec fn quad(b0: u8, b1: u8, b2: u8, n: int) -> Seq<char>
    recommends
        1 <= n <= 3,
{
    let c0 = digit(b0 as int / 4);
    let c1 = digit((b0 as int % 4) * 16 + b1 as int / 16);
    let c2 = if n >= 2 {
        digit((b1 as int % 16) * 4 + b2 as int / 64)
    } else {
        '='
    };
    let c3 = if n >= 3 {
        digit(b2 as int % 64)
    } else {
        '='
    };
    seq![c0, c1, c2, c3]
}

/// The base64 text of `bytes`: each group of three bytes gives four digits,
/// and a last group of one or two bytes is padded with `=`.
pub open spec fn encoded(bytes: Seq<u8>) -> Seq<char>
    decreases bytes.len(),
{
    if bytes.len() == 0 {
        Seq::empty()
    } else if bytes.len() == 1 {
        quad(bytes[0], 0, 0, 1)
    } else if bytes.len() == 2 {
        quad(bytes[0], bytes[1], 0, 2)
    } else {
        quad(bytes[0], bytes[1], bytes[2], 3) + encoded(bytes.skip(3))
    }
}

/// The text has four characters for every three bytes begun.
pub proof fn lemma_encoded_len(bytes: Seq<u8>)
    ensures
        encoded(bytes).len() == 4 * ((bytes.len() + 2) / 3),
    decreases bytes.len(),
{
    if bytes.len() >= 3 {
        lemma_encoded_len(bytes.skip(3));
    }
}

fn push_digit(out: &mut String, v: usize)
    requires
        v < 64,
    ensures
        final(out)@ == old(out)@.push(digit(v as int)),
{
    let table = "ABCDEFGHIJKLMNOPQRSTUVWXYZabcdefghijklmnopqrstuvwxyz0123456789+/";
    proof {
        reveal_strlit("ABCDEFGHIJKLMNOPQRSTUVWXYZabcdefghijklmnopqrstuvwxyz0123456789+/");
        assert(table@.len() == 64);
        assert(table.is_ascii());
    }
    let one = table.substring_ascii(v, v + 1);
    out.append(one);
    proof {
        assert(one@ =~= seq![digit(v as int)]);
        assert(old(out)@ + one@ =~= old(out)@.push(digit(v as int)));
    }
}

fn push_pad(out: &mut String)
    ensures
        final(out)@ == old(out)@.push('='),
{
    proof {
        reveal_strlit("=");
        assert("="@ =~= seq!['=']);
        assert(old(out)@ + "="@ =~= old(out)@.push('='));
    }
    out.append("=");
}

/// Encodes `bytes` as base64 text.
pub fn encode(bytes: &[u8]) -> (text: String)
    ensures
        text@ == encoded(bytes@),
{
    let mut out = String::new();
    let n = bytes.len();
    let mut i: usize = 0;
    proof {
        assert(bytes@.skip(0) =~= bytes@);
        assert(out@ + encoded(bytes@) =~= encoded(bytes@));
    }
    while n - i >= 3
        invariant
            n == bytes@.len(),
            i <= n,
            encoded(bytes@) == out@ + encoded(bytes@.skip(i as int)),
        decreases n - i,
    {
        let b0 = bytes[i];
        let b1 = bytes[i + 1];
        let b2 = bytes[i + 2];
        let ghost before = out@;
        let ghost rest = bytes@.skip(i as int);
        push_digit(&mut out, (b0 / 4) as usize);
        push_digit(&mut out, ((b0 % 4) * 16 + b1 / 16) as usize);
        push_digit(&mut out, ((b1 % 16) * 4 + b2 / 64) as usize);
        push_digit(&mut out, (b2 % 64) as usize);
        proof {
            assert(rest.len() >= 3);
            assert(rest[0] == b0 && rest[1] == b1 && rest[2] == b2);
            assert(rest.skip(3) =~= bytes@.skip(i as int + 3));
            assert(out@ =~= before + quad(b0, b1, b2, 3));
            assert(before + (quad(b0, b1, b2, 3) + encoded(rest.skip(3))) =~= out@ + encoded(
                rest.skip(3),
            ));
        }
        i = i + 3;
    }
    let ghost before = out@;
    let ghost rest = bytes@.skip(i as int);
    if n - i == 1 {
        let b0 = bytes[i];
        push_digit(&mut out, (b0 / 4) as usize);
        push_digit(&mut out, ((b0 % 4) * 16) as usize);
        push_pad(&mut out);
        push_pad(&mut out);
        proof {
            assert(rest.len() == 1 && rest[0] == b0);
            assert(out@ =~= before + quad(b0, 0, 0, 1));
        }
    } else if n - i == 2 {
        let b0 = bytes[i];
        let b1 = bytes[i + 1];
        push_digit(&mut out, (b0 / 4) as usize);
        push_digit(&mut out, ((b0 % 4) * 16 + b1 / 16) as usize);
        push_digit(&mut out, ((b1 % 16) * 4) as usize);
        push_pad(&mut out);
        proof {
            assert(rest.len() == 2 && rest[0] == b0 && rest[1] == b1);
            assert(out@ =~= before + quad(b0, b1, 0, 2));
        }
    } else {
        proof {
            assert(rest.len() == 0);
            assert(out@ =~= before + encoded(rest));
        }
    }
    out
}

} // verus!
