//! Text on the wire: replies of the device and the commands sent to it.

use vstd::prelude::*;
use vstd::utf8::{decode_utf8, valid_utf8};

verus! {

/// Decodes `bytes` as UTF-8 with `String::from_utf8`.
///
/// Claimed of it: it succeeds exactly on well-formed UTF-8, and the text it
/// returns is the decoding of the bytes.
#[verifier::external_body]
pub(crate) fn text_from_utf8(bytes: Vec<u8>) -> (text: Option<String>)
    ensures
        text is Some <==> valid_utf8(bytes@),
        text is Some ==> text->Some_0@ == decode_utf8(bytes@),
{
    match String::from_utf8(bytes) {
        Ok(text) => Some(text),
        Err(_) => None,
    }
}

/// Whether two texts are the same.
pub fn same_text(a: &str, b: &str) -> (same: bool)
    ensures
        same == (a@ == b@),
{
    a.to_owned() == b.to_owned()
}

/// `s` without the zero bytes at its end.
pub open spec fn strip_trailing_zeros(s: Seq<u8>) -> Seq<u8>
    decreases s.len(),
{
    if s.len() > 0 && s.last() == 0 {
        strip_trailing_zeros(s.drop_last())
    } else {
        s
    }
}

/// `s` without the zero bytes at its start.
pub open spec fn strip_leading_zeros(s: Seq<u8>) -> Seq<u8>
    decreases s.len(),
{
    if s.len() > 0 && s[0] == 0 {
        strip_leading_zeros(s.skip(1))
    } else {
        s
    }
}

/// `s` without the zero bytes at either end.
pub open spec fn trim_zeros(s: Seq<u8>) -> Seq<u8> {
    strip_leading_zeros(strip_trailing_zeros(s))
}

/// Removes the zero bytes at both ends of `bytes`.
pub fn trim_zero_bytes(bytes: &[u8]) -> (out: Vec<u8>)
    ensures
        out@ == trim_zeros(bytes@),
{
    let mut end: usize = bytes.len();
    assert(bytes@.subrange(0, end as int) =~= bytes@);
    while end > 0 && bytes[end - 1] == 0
        invariant
            end <= bytes@.len(),
            strip_trailing_zeros(bytes@) == strip_trailing_zeros(bytes@.subrange(0, end as int)),
        decreases end,
    {
        assert(bytes@.subrange(0, end as int).drop_last() =~= bytes@.subrange(0, end - 1));
        end = end - 1;
    }
    let mut start: usize = 0;
    while start < end && bytes[start] == 0
        invariant
            start <= end <= bytes@.len(),
            trim_zeros(bytes@) == strip_leading_zeros(bytes@.subrange(start as int, end as int)),
        decreases end - start,
    {
        assert(bytes@.subrange(start as int, end as int).skip(1) =~= bytes@.subrange(
            start + 1,
            end as int,
        ));
        start = start + 1;
    }
    let mut out: Vec<u8> = Vec::new();
    let mut i: usize = start;
    while i < end
        invariant
            start <= i <= end <= bytes@.len(),
            out@ == bytes@.subrange(start as int, i as int),
        decreases end - i,
    {
        out.push(bytes[i]);
        assert(out@ =~= bytes@.subrange(start as int, i + 1));
        i = i + 1;
    }
    out
}

/// The lower-case form of an ASCII letter; any other byte is left as it is.
pub open spec fn ascii_lower(b: u8) -> u8 {
    if 0x41 <= b <= 0x5a {
        (b + 0x20) as u8
    } else {
        b
    }
}

/// Whether `word` stands in `s` at position `at`, letter case in `s` aside.
pub open spec fn stands_at(s: Seq<u8>, word: Seq<u8>, at: int) -> bool {
    &&& 0 <= at
    &&& at + word.len() <= s.len()
    &&& forall|j: int| 0 <= j < word.len() ==> ascii_lower(#[trigger] s[at + j]) == word[j]
}

/// Whether `word` stands somewhere in `s`, letter case in `s` aside.
pub open spec fn mentions(s: Seq<u8>, word: Seq<u8>) -> bool {
    exists|at: int| stands_at(s, word, at)
}

/// The bytes of the word `success`.
pub open spec fn success_word() -> Seq<u8> {
    seq![0x73u8, 0x75u8, 0x63u8, 0x63u8, 0x65u8, 0x73u8, 0x73u8]
}

/// Whether `word`, given in lower case, stands somewhere in `s`, letter case
/// in `s` aside.
pub fn mentions_word(s: &[u8], word: &[u8]) -> (found: bool)
    ensures
        found == mentions(s@, word@),
{
    if word.len() > s.len() {
        assert forall|at: int| !stands_at(s@, word@, at) by {}
        return false;
    }
    let last: usize = s.len() - word.len();
    let mut at: usize = 0;
    loop
        invariant
            word@.len() <= s@.len() <= usize::MAX,
            last == s@.len() - word@.len(),
            at <= last,
            forall|k: int| 0 <= k < at ==> !stands_at(s@, word@, k),
        decreases last - at,
    {
        let mut j: usize = 0;
        let mut same: bool = true;
        while same && j < word.len()
            invariant
                word@.len() <= s@.len() <= usize::MAX,
                at <= last,
                last == s@.len() - word@.len(),
                j <= word@.len(),
                same ==> forall|i: int|
                    0 <= i < j ==> ascii_lower(#[trigger] s@[at + i]) == word@[i],
                !same ==> !stands_at(s@, word@, at as int),
            decreases word@.len() - j + if same {
                1int
            } else {
                0int
            },
        {
            let b: u8 = s[at + j];
            let lower: u8 = if 0x41 <= b && b <= 0x5a {
                b + 0x20
            } else {
                b
            };
            if lower != word[j] {
                same = false;
                assert(ascii_lower(s@[at + j]) != word@[j as int]);
            } else {
                j = j + 1;
            }
        }
        if same {
            assert(stands_at(s@, word@, at as int));
            return true;
        }
        if at == last {
            assert forall|k: int| !stands_at(s@, word@, k) by {}
            return false;
        }
        at = at + 1;
    }
}

/// Whether the word `success` stands somewhere in `s`, letter case aside.
pub fn mentions_success(s: &[u8]) -> (found: bool)
    ensures
        found == mentions(s@, success_word()),
{
    let mut word: Vec<u8> = Vec::new();
    word.push(0x73u8);
    word.push(0x75u8);
    word.push(0x63u8);
    word.push(0x63u8);
    word.push(0x65u8);
    word.push(0x73u8);
    word.push(0x73u8);
    assert(word@ =~= success_word());
    mentions_word(s, word.as_slice())
}

/// The character of one hexadecimal digit.
pub open spec fn hex_digit(d: int, upper: bool) -> char {
    if d == 0 {
        '0'
    } else if d == 1 {
        '1'
    } else if d == 2 {
        '2'
    } else if d == 3 {
        '3'
    } else if d == 4 {
        '4'
    } else if d == 5 {
        '5'
    } else if d == 6 {
        '6'
    } else if d == 7 {
        '7'
    } else if d == 8 {
        '8'
    } else if d == 9 {
        '9'
    } else if d == 10 {
        if upper {
            'A'
        } else {
            'a'
        }
    } else if d == 11 {
        if upper {
            'B'
        } else {
            'b'
        }
    } else if d == 12 {
        if upper {
            'C'
        } else {
            'c'
        }
    } else if d == 13 {
        if upper {
            'D'
        } else {
            'd'
        }
    } else if d == 14 {
        if upper {
            'E'
        } else {
            'e'
        }
    } else {
        if upper {
            'F'
        } else {
            'f'
        }
    }
}

/// The digits of `n` to the base `base`, most significant first, without
/// leading zeros; zero is written as one digit.
pub open spec fn digits(n: nat, base: nat, upper: bool) -> Seq<char>
    recommends
        2 <= base <= 16,
    decreases n,
{
    if n < base || base < 2 {
        seq![hex_digit(n as int, upper)]
    } else {
        proof {
            vstd::arithmetic::div_mod::lemma_div_decreases(n as int, base as int);
        }
        digits(n / base, base, upper).push(hex_digit((n % base) as int, upper))
    }
}

/// The hexadecimal digits of `n`.
pub open spec fn hex_digits(n: nat, upper: bool) -> Seq<char> {
    digits(n, 16, upper)
}

/// `n` in decimal.
pub open spec fn decimal_text(n: nat) -> Seq<char> {
    digits(n, 10, false)
}

/// `n` in hexadecimal behind the prefix `0x`.
pub open spec fn hex_text(n: nat, upper: bool) -> Seq<char> {
    seq!['0', 'x'] + hex_digits(n, upper)
}

/// The text of one hexadecimal digit.
fn hex_digit_text(d: u8, upper: bool) -> (t: &'static str)
    requires
        d < 16,
    ensures
        t@ == seq![hex_digit(d as int, upper)],
{
    proof {
        reveal_strlit("0");
        reveal_strlit("1");
        reveal_strlit("2");
        reveal_strlit("3");
        reveal_strlit("4");
        reveal_strlit("5");
        reveal_strlit("6");
        reveal_strlit("7");
        reveal_strlit("8");
        reveal_strlit("9");
        reveal_strlit("A");
        reveal_strlit("B");
        reveal_strlit("C");
        reveal_strlit("D");
        reveal_strlit("E");
        reveal_strlit("F");
        reveal_strlit("a");
        reveal_strlit("b");
        reveal_strlit("c");
        reveal_strlit("d");
        reveal_strlit("e");
        reveal_strlit("f");
    }
    let t: &'static str = if d == 0 {
        "0"
    } else if d == 1 {
        "1"
    } else if d == 2 {
        "2"
    } else if d == 3 {
        "3"
    } else if d == 4 {
        "4"
    } else if d == 5 {
        "5"
    } else if d == 6 {
        "6"
    } else if d == 7 {
        "7"
    } else if d == 8 {
        "8"
    } else if d == 9 {
        "9"
    } else if d == 10 {
        if upper {
            "A"
        } else {
            "a"
        }
    } else if d == 11 {
        if upper {
            "B"
        } else {
            "b"
        }
    } else if d == 12 {
        if upper {
            "C"
        } else {
            "c"
        }
    } else if d == 13 {
        if upper {
            "D"
        } else {
            "d"
        }
    } else if d == 14 {
        if upper {
            "E"
        } else {
            "e"
        }
    } else {
        if upper {
            "F"
        } else {
            "f"
        }
    };
    assert(t@ =~= seq![hex_digit(d as int, upper)]);
    t
}

/// The digits of `low`, least significant first, written most significant
/// first.
pub open spec fn digits_reversed(low: Seq<u8>, upper: bool) -> Seq<char> {
    Seq::new(low.len(), |i: int| hex_digit(low[low.len() - 1 - i] as int, upper))
}

/// Appends the digits of `n` to the base `base` to `out`.
pub fn push_digits(out: &mut String, n: usize, base: usize, upper: bool)
    requires
        2 <= base <= 16,
    ensures
        final(out)@ == old(out)@ + digits(n as nat, base as nat, upper),
{
    let mut low: Vec<u8> = Vec::new();
    low.push((n % base) as u8);
    let mut rest: usize = n / base;
    assert(digits(n as nat, base as nat, upper) =~= (if rest == 0 {
        Seq::<char>::empty()
    } else {
        digits(rest as nat, base as nat, upper)
    }) + digits_reversed(low@, upper)) by {
        if n >= base {
            vstd::arithmetic::div_mod::lemma_div_non_zero(n as int, base as int);
        } else {
            vstd::arithmetic::div_mod::lemma_small_mod(n as nat, base as nat);
            vstd::arithmetic::div_mod::lemma_basic_div(n as int, base as int);
        }
    }
    while rest > 0
        invariant
            2 <= base <= 16,
            low@.len() > 0,
            forall|i: int| 0 <= i < low@.len() ==> low@[i] < 16,
            digits(n as nat, base as nat, upper) == (if rest == 0 {
                Seq::<char>::empty()
            } else {
                digits(rest as nat, base as nat, upper)
            }) + digits_reversed(low@, upper),
        decreases rest,
    {
        let ghost before = low@;
        let d: u8 = (rest % base) as u8;
        low.push(d);
        proof {
            let next = rest / base;
            if rest >= base {
                vstd::arithmetic::div_mod::lemma_div_non_zero(rest as int, base as int);
            } else {
                vstd::arithmetic::div_mod::lemma_small_mod(rest as nat, base as nat);
                vstd::arithmetic::div_mod::lemma_basic_div(rest as int, base as int);
            }
            assert(digits_reversed(low@, upper) =~= seq![hex_digit(d as int, upper)]
                + digits_reversed(before, upper));
            assert(digits(rest as nat, base as nat, upper) =~= (if next == 0 {
                Seq::<char>::empty()
            } else {
                digits(next as nat, base as nat, upper)
            }) + seq![hex_digit(d as int, upper)]);
            assert(digits(n as nat, base as nat, upper) =~= (if next == 0 {
                Seq::<char>::empty()
            } else {
                digits(next as nat, base as nat, upper)
            }) + digits_reversed(low@, upper));
        }
        rest = rest / base;
    }
    let ghost whole = digits_reversed(low@, upper);
    let mut i: usize = low.len();
    while i > 0
        invariant
            i <= low@.len(),
            forall|k: int| 0 <= k < low@.len() ==> low@[k] < 16,
            whole == digits_reversed(low@, upper),
            out@ == old(out)@ + whole.subrange(0, low@.len() - i),
        decreases i,
    {
        i = i - 1;
        out.append(hex_digit_text(low[i], upper));
        assert(out@ =~= old(out)@ + whole.subrange(0, low@.len() - i));
    }
    assert(out@ =~= old(out)@ + digits(n as nat, base as nat, upper));
}

/// Appends `n` in hexadecimal, behind the prefix `0x`, to `out`.
pub fn push_hex(out: &mut String, n: usize, upper: bool)
    ensures
        final(out)@ == old(out)@ + hex_text(n as nat, upper),
{
    out.append("0x");
    proof {
        reveal_strlit("0x");
        assert("0x"@ =~= seq!['0', 'x']);
    }
    push_digits(out, n, 16, upper);
    assert(out@ =~= old(out)@ + hex_text(n as nat, upper));
}

/// Appends `n` in decimal to `out`.
pub fn push_decimal(out: &mut String, n: usize)
    ensures
        final(out)@ == old(out)@ + decimal_text(n as nat),
{
    push_digits(out, n, 10, false);
}

} // verus!
