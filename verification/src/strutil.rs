//! Small verified string utilities: decimal rendering, byte-level
//! substring search, and thin trusted shims over the few `String`
//! operations vstd gives no specification for.

use vstd::prelude::*;
use vstd::string::StringSliceAdditionalSpecFns;

verus! {

/// Appends `t` to `s`.
///
/// Relies on `String::push_str`, which appends the given string slice
/// onto the end of the string.
#[verifier::external_body]
pub fn append_str(s: &mut String, t: &str)
    ensures
        final(s)@ == old(s)@ + t@,
{
    s.push_str(t)
}

/// Appends one character to `s`.
///
/// Relies on `String::push`, which appends the given character onto the
/// end of the string.
#[verifier::external_body]
pub fn push_char(s: &mut String, c: char)
    ensures
        final(s)@ == old(s)@.push(c),
{
    s.push(c)
}

/// The Unicode lowercase mapping of a character sequence.  Its value is
/// fixed by the arguments alone; nothing further is assumed about it.
pub uninterp spec fn lower_of(s: Seq<char>) -> Seq<char>;

/// Lowercases a string.
///
/// Relies on `str::to_lowercase`, whose result depends only on the
/// characters of its input.
#[verifier::external_body]
pub fn lowercase(s: &str) -> (r: String)
    ensures
        r@ == lower_of(s@),
{
    s.to_lowercase()
}

/// The decimal digits of `n`, most significant first.
pub open spec fn spec_decimal(n: nat) -> Seq<char>
    decreases n,
{
    if n < 10 {
        seq![spec_digit_char(n)]
    } else {
        spec_decimal(n / 10).push(spec_digit_char(n % 10))
    }
}

/// The character for one decimal digit.
pub open spec fn spec_digit_char(d: nat) -> char {
    if d == 0 {
        '0'
    } else if d == 1 {
        '1'
    } else if d == 2 {
        '2'
    } else if d == 3 {
        '3'
    } else if d == 4 {
        '4'
    } else if d == 5 {
        '5'
    } else if d == 6 {
        '6'
    } else if d == 7 {
        '7'
    } else if d == 8 {
        '8'
    } else {
        '9'
    }
}

/// The character for one decimal digit.
fn digit_char(d: u64) -> (c: char)
    requires
        d < 10,
    ensures
        c == spec_digit_char(d as nat),
{
    match d {
        0 => '0',
        1 => '1',
        2 => '2',
        3 => '3',
        4 => '4',
        5 => '5',
        6 => '6',
        7 => '7',
        8 => '8',
        _ => '9',
    }
}

/// Appends the decimal rendering of `n` to `s`.
pub fn append_decimal(s: &mut String, n: u64)
    ensures
        final(s)@ == old(s)@ + spec_decimal(n as nat),
    decreases n,
{
    if n < 10 {
        push_char(s, digit_char(n));
        proof {
            assert(old(s)@ + spec_decimal(n as nat) =~= old(s)@.push(
                spec_digit_char(n as nat),
            ));
        }
    } else {
        append_decimal(s, n / 10);
        push_char(s, digit_char(n % 10));
        proof {
            assert(old(s)@ + spec_decimal(n as nat) =~= (old(s)@ + spec_decimal(
                (n / 10) as nat,
            )).push(spec_digit_char((n % 10) as nat)));
        }
    }
}

/// The decimal rendering of `n`.
pub fn u64_to_string(n: u64) -> (r: String)
    ensures
        r@ == spec_decimal(n as nat),
{
    let mut s = String::new();
    append_decimal(&mut s, n);
    proof {
        assert(Seq::<char>::empty() + spec_decimal(n as nat) =~= spec_decimal(n as nat));
    }
    s
}

/// `needle` occurs as a contiguous run of bytes inside `haystack`.
pub open spec fn contains_subrange(haystack: Seq<u8>, needle: Seq<u8>) -> bool {
    exists|i: int|
        0 <= i <= haystack.len() - needle.len() && #[trigger] haystack.subrange(
            i,
            i + needle.len(),
        ) == needle
}

/// Whether `needle` starts at offset `at` of `haystack`.
fn matches_at(haystack: &[u8], needle: &[u8], at: usize) -> (r: bool)
    requires
        at + needle@.len() <= haystack@.len(),
    ensures
        r == (haystack@.subrange(at as int, at + needle@.len()) == needle@),
{
    let hn = haystack.len();
    let n = needle.len();
    for j in 0..n
        invariant
            n == needle@.len(),
            hn == haystack@.len(),
            at + n <= haystack@.len(),
            forall|k: int| 0 <= k < j ==> haystack@[at + k] == needle@[k],
    {
        if haystack[at + j] != needle[j] {
            proof {
                assert(haystack@.subrange(at as int, at + needle@.len())[j as int] != needle@[
                    j as int
                ]);
            }
            return false;
        }
    }
    proof {
        assert(haystack@.subrange(at as int, at + needle@.len()) =~= needle@);
    }
    true
}

/// Whether the bytes of `needle` occur contiguously in the bytes of
/// `haystack`.  For valid UTF-8 this coincides with substring search on
/// the characters.
pub fn str_contains_str(haystack: &str, needle: &str) -> (r: bool)
    ensures
        r == contains_subrange(haystack.spec_bytes(), needle.spec_bytes()),
{
    let hb = haystack.as_bytes();
    let nb = needle.as_bytes();
    if nb.len() > hb.len() {
        proof {
            assert(!contains_subrange(haystack.spec_bytes(), needle.spec_bytes()));
        }
        return false;
    }
    if nb.len() == 0 {
        proof {
            assert(hb@.subrange(0, 0) =~= nb@);
            assert(contains_subrange(hb@, nb@)) by {
                assert(0 <= 0 <= hb@.len() - nb@.len() && hb@.subrange(0int, 0int + nb@.len())
                    == nb@);
            }
        }
        return true;
    }
    let last = hb.len() - nb.len();
    let mut i: usize = 0;
    loop
        invariant
            0 < nb@.len() <= hb@.len(),
            hb@.len() <= usize::MAX,
            last == hb@.len() - nb@.len(),
            0 <= i <= last + 1,
            hb@ == haystack.spec_bytes(),
            nb@ == needle.spec_bytes(),
            forall|k: int| 0 <= k < i ==> #[trigger] hb@.subrange(k, k + nb@.len()) != nb@,
        decreases last + 1 - i,
    {
        if i > last {
            proof {
                assert(forall|k: int|
                    0 <= k <= hb@.len() - nb@.len() ==> #[trigger] hb@.subrange(k, k + nb@.len())
                        != nb@);
            }
            return false;
        }
        if matches_at(hb, nb, i) {
            proof {
                assert(contains_subrange(hb@, nb@)) by {
                    assert(0 <= i <= hb@.len() - nb@.len() && hb@.subrange(
                        i as int,
                        i + nb@.len(),
                    ) == nb@);
                }
            }
            return true;
        }
        i = i + 1;
    }
}

} // verus!
