//! Pieces of generated text: upper-case names and hexadecimal numbers.

use vstd::prelude::*;
use vstd::string::*;

verus! {

/// The capital form of an ASCII small letter; any other character itself.
pub open spec fn ascii_upper(c: char) -> char {
    if 'a' <= c && c <= 'z' {
        ((c as u32) - 32) as char
    } else {
        c
    }
}

/// The text with every ASCII small letter replaced by its capital.
pub open spec fn upper(s: Seq<char>) -> Seq<char> {
    s.map_values(|c: char| ascii_upper(c))
}

/// The digit that stands for `d` in hexadecimal text, capitals for ten to fifteen.
pub open spec fn hex_char(d: nat) -> char {
    if d < 10 {
        ('0' as u32 + d) as char
    } else {
        ('A' as u32 + d - 10) as char
    }
}

/// The last `digits` hexadecimal digits of `value`, highest first.
pub open spec fn hex_text(value: nat, digits: nat) -> Seq<char>
    decreases digits,
{
    if digits == 0 {
        Seq::empty()
    } else {
        hex_text(value / 16, (digits - 1) as nat).push(hex_char(value % 16))
    }
}

/// Hexadecimal text has as many characters as digits were asked for.
pub proof fn lemma_hex_text_len(value: nat, digits: nat)
    ensures
        hex_text(value, digits).len() == digits,
    decreases digits,
{
    if digits > 0 {
        lemma_hex_text_len(value / 16, (digits - 1) as nat);
    }
}

/// The text with every ASCII small letter replaced by its capital.
pub fn to_upper(s: &str) -> (r: String)
    ensures
        r@ == upper(s@),
{
    let capitals: &str = "ABCDEFGHIJKLMNOPQRSTUVWXYZ";
    proof {
        reveal_strlit("ABCDEFGHIJKLMNOPQRSTUVWXYZ");
    }
    let n: usize = s.unicode_len();
    let mut out: String = String::new();
    let mut i: usize = 0;
    while i < n
        invariant
            i <= n,
            n == s@.len(),
            capitals@ == "ABCDEFGHIJKLMNOPQRSTUVWXYZ"@,
            out@ == upper(s@.take(i as int)),
        decreases n - i,
    {
        let c: char = s.get_char(i);
        proof {
            reveal_strlit("ABCDEFGHIJKLMNOPQRSTUVWXYZ");
            assert(upper(s@.take(i + 1)) =~= upper(s@.take(i as int)).push(ascii_upper(c)));
        }
        if 'a' <= c && c <= 'z' {
            let k: usize = (c as u32 - 'a' as u32) as usize;
            let piece: &str = capitals.substring_char(k, k + 1);
            assert(piece@ =~= seq![ascii_upper(c)]);
            out.append(piece);
        } else {
            let piece: &str = s.substring_char(i, i + 1);
            assert(piece@ =~= seq![c]);
            out.append(piece);
        }
        assert(out@ =~= upper(s@.take(i as int)).push(ascii_upper(c)));
        i = i + 1;
    }
    assert(s@.take(n as int) =~= s@);
    out
}

/// Appends the last `digits` hexadecimal digits of `value` to `out`.
pub fn push_hex(out: &mut String, value: u64, digits: usize)
    ensures
        final(out)@ == old(out)@ + hex_text(value as nat, digits as nat),
    decreases digits,
{
    if digits == 0 {
        assert(out@ =~= old(out)@ + hex_text(value as nat, 0));
        return ;
    }
    push_hex(out, value / 16, digits - 1);
    let numerals: &str = "0123456789ABCDEF";
    proof {
        reveal_strlit("0123456789ABCDEF");
    }
    let d: usize = (value % 16) as usize;
    let piece: &str = numerals.substring_char(d, d + 1);
    assert(piece@ =~= seq![hex_char(d as nat)]);
    out.append(piece);
    assert(out@ =~= old(out)@ + hex_text(value as nat, digits as nat));
}

/// The last `digits` hexadecimal digits of `value`, highest first.
pub fn to_hex(value: u64, digits: usize) -> (r: String)
    ensures
        r@ == hex_text(value as nat, digits as nat),
        r@.len() == digits,
{
    let mut out: String = String::new();
    push_hex(&mut out, value, digits);
    proof {
        lemma_hex_text_len(value as nat, digits as nat);
        assert(out@ =~= hex_text(value as nat, digits as nat));
    }
    out
}

} // verus!
