//! Hexadecimal offsets as the offset table writes them, such as `"0x1A2B"`.

use vstd::prelude::*;
use crate::text::chars_of;

verus! {

/// `s` with every leading `"0x"` removed, repeatedly (`"0x0x1f"` becomes `"1f"`).
pub open spec fn strip_hex_prefix(s: Seq<char>) -> Seq<char>
    decreases s.len(),
{
    if s.len() >= 2 && s[0] == '0' && s[1] == 'x' {
        strip_hex_prefix(s.skip(2))
    } else {
        s
    }
}

/// `c` is one of `0-9`, `a-f`, `A-F`.
pub open spec fn is_hex_digit(c: char) -> bool {
    ||| ('0' <= c && c <= '9')
    ||| ('a' <= c && c <= 'f')
    ||| ('A' <= c && c <= 'F')
}

/// The value of the hexadecimal digit `c` (zero for a character that is no digit).
pub open spec fn hex_digit_value(c: char) -> nat {
    if '0' <= c && c <= '9' {
        (c as int - '0' as int) as nat
    } else if 'a' <= c && c <= 'f' {
        (c as int - 'a' as int + 10) as nat
    } else if 'A' <= c && c <= 'F' {
        (c as int - 'A' as int + 10) as nat
    } else {
        0
    }
}

pub open spec fn all_hex_digits(d: Seq<char>) -> bool {
    forall|i: int| 0 <= i < d.len() ==> is_hex_digit(#[trigger] d[i])
}

/// The number that the digits `d` denote in base 16, most significant first.
pub open spec fn hex_number(d: Seq<char>) -> nat
    decreases d.len(),
{
    if d.len() == 0 {
        0
    } else {
        hex_number(d.drop_last()) * 16 + hex_digit_value(d.last())
    }
}

/// The digits that a base-16 parse of `t` reads: `t` without one leading `'+'`.
pub open spec fn unsigned_digits(t: Seq<char>) -> Seq<char> {
    if t.len() > 0 && t[0] == '+' {
        t.skip(1)
    } else {
        t
    }
}

/// An offset written in hexadecimal: any number of leading `"0x"`, then an
/// optional `'+'`, then at least one hexadecimal digit, denoting a number that
/// fits in 64 bits. `None` for every other text.
pub open spec fn hex_offset(s: Seq<char>) -> Option<u64> {
    let d = unsigned_digits(strip_hex_prefix(s));
    if d.len() > 0 && all_hex_digits(d) && hex_number(d) <= u64::MAX {
        Some(hex_number(d) as u64)
    } else {
        None
    }
}

proof fn lemma_hex_number_prefix(d: Seq<char>, i: int)
    requires
        0 <= i <= d.len(),
    ensures
        hex_number(d.take(i)) <= hex_number(d),
    decreases d.len() - i,
{
    if i < d.len() {
        lemma_hex_number_prefix(d, i + 1);
        assert(d.take(i + 1).drop_last() =~= d.take(i));
        assert(hex_number(d.take(i + 1)) == hex_number(d.take(i)) * 16 + hex_digit_value(
            d.take(i + 1).last(),
        ));
    } else {
        assert(d.take(i) =~= d);
    }
}

fn digit_value(c: char) -> (r: Option<u64>)
    ensures
        match r {
            Some(v) => is_hex_digit(c) && v == hex_digit_value(c),
            None => !is_hex_digit(c),
        },
{
    if '0' <= c && c <= '9' {
        Some((c as u32 - '0' as u32) as u64)
    } else if 'a' <= c && c <= 'f' {
        Some((c as u32 - 'a' as u32 + 10) as u64)
    } else if 'A' <= c && c <= 'F' {
        Some((c as u32 - 'A' as u32 + 10) as u64)
    } else {
        None
    }
}

/// Parses an offset as the offset table writes it; `None` where the text is no
/// such offset (no digits, a character that is no hexadecimal digit, or a value
/// beyond 64 bits).
pub fn parse_hex(s: &str) -> (r: Option<u64>)
    ensures
        r == hex_offset(s@),
{
    let cs = chars_of(s);
    let n = cs.len();
    let mut i: usize = 0;
    proof {
        assert(s@.skip(0) =~= s@);
    }
    while n - i >= 2 && cs[i] == '0' && cs[i + 1] == 'x'
        invariant
            cs@ == s@,
            n == cs@.len(),
            i <= n,
            strip_hex_prefix(s@) == strip_hex_prefix(s@.skip(i as int)),
        decreases n - i,
    {
        proof {
            assert(s@.skip(i as int).skip(2) =~= s@.skip(i + 2));
        }
        i = i + 2;
    }
    proof {
        assert(strip_hex_prefix(s@.skip(i as int)) == s@.skip(i as int));
    }
    if i < n && cs[i] == '+' {
        proof {
            assert(s@.skip(i as int).skip(1) =~= s@.skip(i + 1));
        }
        i = i + 1;
    }
    let ghost d = unsigned_digits(strip_hex_prefix(s@));
    assert(d =~= s@.skip(i as int));
    if i == n {
        assert(d.len() == 0);
        return None;
    }
    let start = i;
    let mut value: u64 = 0;
    while i < n
        invariant
            cs@ == s@,
            n == cs@.len(),
            start < n,
            start <= i <= n,
            d == s@.skip(start as int),
            d == unsigned_digits(strip_hex_prefix(s@)),
            all_hex_digits(d.take(i - start)),
            value as nat == hex_number(d.take(i - start)),
        decreases n - i,
    {
        let c = cs[i];
        let k: usize = i - start;
        proof {
            assert(d[k as int] == c);
            assert(d.take(k + 1).drop_last() =~= d.take(k as int));
            assert(d.take(k + 1).last() == c);
        }
        match digit_value(c) {
            None => {
                proof {
                    assert(!is_hex_digit(d[k as int]));
                    assert(!all_hex_digits(d));
                }
                return None;
            },
            Some(v) => {
                if value > (u64::MAX - v) / 16 {
                    proof {
                        assert(hex_number(d.take(k + 1)) == value * 16 + v);
                        assert(value * 16 + v > u64::MAX) by (nonlinear_arith)
                            requires
                                value > (u64::MAX - v) / 16,
                                v <= 15,
                        ;
                        lemma_hex_number_prefix(d, k + 1);
                    }
                    return None;
                }
                proof {
                    assert(value * 16 + v <= u64::MAX) by (nonlinear_arith)
                        requires
                            value <= (u64::MAX - v) / 16,
                            v <= 15,
                    ;
                    assert forall|j: int| 0 <= j < k + 1 implies is_hex_digit(
                        #[trigger] d.take(k + 1)[j],
                    ) by {
                        if j < k {
                            assert(d.take(k + 1)[j] == d.take(k as int)[j]);
                        }
                    }
                }
                value = value * 16 + v;
            },
        }
        i = i + 1;
    }
    proof {
        assert(d.take(n - start) =~= d);
    }
    Some(value)
}

// ---- laws -----------------------------------------------------------------

/// A leading `0x` changes nothing.
pub proof fn lemma_hex_prefix_ignored(s: Seq<char>)
    ensures
        hex_offset(seq!['0', 'x'] + s) == hex_offset(s),
{
    let t = seq!['0', 'x'] + s;
    assert(t.skip(2) =~= s);
}

/// One character alone: its value as a hexadecimal digit (`0-9`, `a-f`,
/// `A-F`), or no offset at all.
pub proof fn lemma_hex_single_digit(c: char)
    ensures
        hex_offset(seq![c]) == (if '0' <= c && c <= '9' {
            Some((c as u32 - '0' as u32) as u64)
        } else if 'a' <= c && c <= 'f' {
            Some((c as u32 - 'a' as u32 + 10) as u64)
        } else if 'A' <= c && c <= 'F' {
            Some((c as u32 - 'A' as u32 + 10) as u64)
        } else {
            None
        }),
{
    let d = seq![c];
    assert(d[0] == c);
    assert(strip_hex_prefix(d) == d);
    assert(d.drop_last() =~= Seq::<char>::empty());
    assert(hex_number(Seq::<char>::empty()) == 0);
    assert(d.last() == c);
    assert(hex_number(d) == hex_number(d.drop_last()) * 16 + hex_digit_value(d.last()));
    assert(hex_number(d) == hex_digit_value(c));
    if c == '+' {
        assert(d.skip(1).len() == 0);
    } else {
        assert(unsigned_digits(d) == d);
        if is_hex_digit(c) {
            assert(all_hex_digits(d));
        } else {
            assert(!is_hex_digit(d[0]));
        }
    }
}

/// Appending a digit to a string of digits multiplies its value by 16 and adds
/// the digit's value, and the result is refused exactly when it passes 2^64 - 1.
pub proof fn lemma_hex_append_digit(d: Seq<char>, c: char)
    requires
        d.len() > 0,
        all_hex_digits(d),
        is_hex_digit(c),
    ensures
        hex_offset(d.push(c)) == (match hex_offset(d) {
            Some(v) => if v * 16 + hex_digit_value(c) <= u64::MAX {
                Some((v * 16 + hex_digit_value(c)) as u64)
            } else {
                None
            },
            None => None,
        }),
{
    let e = d.push(c);
    assert(e[0] == d[0]);
    assert(is_hex_digit(d[0]));
    if e.len() >= 2 {
        assert(is_hex_digit(e[1])) by {
            if d.len() >= 2 {
                assert(e[1] == d[1]);
                assert(is_hex_digit(d[1]));
            }
        }
    }
    assert(strip_hex_prefix(e) == e);
    assert(strip_hex_prefix(d) == d) by {
        if d.len() >= 2 {
            assert(is_hex_digit(d[1]));
        }
    }
    assert(e.drop_last() =~= d);
    assert(all_hex_digits(e)) by {
        assert forall|i: int| 0 <= i < e.len() implies is_hex_digit(#[trigger] e[i]) by {
            if i < d.len() {
                assert(e[i] == d[i]);
            }
        }
    }
}

/// One `'+'` before the digits changes nothing; a second one makes the text no offset.
pub proof fn lemma_hex_plus_sign(d: Seq<char>)
    requires
        d.len() > 0,
        all_hex_digits(d),
    ensures
        hex_offset(seq!['+'] + d) == hex_offset(d),
        hex_offset(seq!['+', '+'] + d) is None,
{
    let t = seq!['+'] + d;
    assert(t.skip(1) =~= d);
    assert(is_hex_digit(d[0]));
    assert(strip_hex_prefix(d) == d) by {
        if d.len() >= 2 {
            assert(is_hex_digit(d[1]));
        }
    }
    assert(strip_hex_prefix(t) == t);
    let u = seq!['+', '+'] + d;
    assert(strip_hex_prefix(u) == u);
    assert(u.skip(1)[0] == '+');
    assert(!is_hex_digit(unsigned_digits(u)[0]));
}

proof fn lemma_strip_hex_prefix_pairs(s: Seq<char>) -> (k: nat)
    ensures
        2 * k <= s.len(),
        strip_hex_prefix(s) == s.skip(2 * k as int),
        forall|j: int| 0 <= j < 2 * k ==> s[j] == '0' || s[j] == 'x',
    decreases s.len(),
{
    if s.len() >= 2 && s[0] == '0' && s[1] == 'x' {
        let k2 = lemma_strip_hex_prefix_pairs(s.skip(2));
        assert(s.skip(2).skip(2 * k2 as int) =~= s.skip(2 * (k2 + 1) as int));
        assert forall|j: int| 0 <= j < 2 * (k2 + 1) implies s[j] == '0' || s[j] == 'x' by {
            if j >= 2 {
                assert(s[j] == s.skip(2)[j - 2]);
            }
        }
        k2 + 1
    } else {
        assert(s.skip(0) =~= s);
        0
    }
}

/// A character that is no hexadecimal digit, no `x` and no `+`, anywhere in
/// the text, makes it no offset.
pub proof fn lemma_hex_foreign_char(s: Seq<char>, i: int)
    requires
        0 <= i < s.len(),
        !is_hex_digit(s[i]),
        s[i] != 'x',
        s[i] != '+',
    ensures
        hex_offset(s) is None,
{
    let k = lemma_strip_hex_prefix_pairs(s);
    let t = strip_hex_prefix(s);
    assert(i >= 2 * k) by {
        if i < 2 * k {
            assert(s[i] == '0' || s[i] == 'x');
        }
    }
    assert(t[i - 2 * k] == s[i]);
    let d = unsigned_digits(t);
    if t.len() > 0 && t[0] == '+' {
        assert(i - 2 * k >= 1);
        assert(d[i - 2 * k - 1] == s[i]);
        assert(!all_hex_digits(d));
    } else {
        assert(d[i - 2 * k] == s[i]);
        assert(!all_hex_digits(d));
    }
}

} // verus!
