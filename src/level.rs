use vstd::prelude::*;

verus! {

/// The highest compression level.
pub const MAX_COMPRESSION_LEVEL: u32 = 9;

pub open spec fn is_digit(c: char) -> bool {
    '0' <= c <= '9'
}

/// The value of a run of decimal digits, most significant first.
pub open spec fn digits_value(s: Seq<char>) -> int
    decreases s.len(),
{
    if s.len() == 0 {
        0
    } else {
        digits_value(s.drop_last()) * 10 + (s.last() as int - '0' as int)
    }
}

/// `s` without a leading `+`.
pub open spec fn unsigned_part(s: Seq<char>) -> Seq<char> {
    if s.len() > 0 && s[0] == '+' {
        s.subrange(1, s.len() as int)
    } else {
        s
    }
}

/// The number that `s` writes in decimal, an optional `+` followed by one or
/// more digits and nothing else; `None` for any other text.
pub open spec fn decimal_value(s: Seq<char>) -> Option<int> {
    let d = unsigned_part(s);
    if d.len() > 0 && forall|i: int| 0 <= i < d.len() ==> is_digit(#[trigger] d[i]) {
        Some(digits_value(d))
    } else {
        None
    }
}

proof fn lemma_digits_grow(s: Seq<char>, c: char)
    requires
        forall|i: int| 0 <= i < s.len() ==> is_digit(#[trigger] s[i]),
        is_digit(c),
    ensures
        digits_value(s.push(c)) == digits_value(s) * 10 + (c as int - '0' as int),
        0 <= digits_value(s),
    decreases s.len(),
{
    assert(s.push(c).drop_last() =~= s);
    if s.len() > 0 {
        let t = s.drop_last();
        assert(s =~= t.push(s.last()));
        assert(is_digit(s[s.len() - 1]));
        lemma_digits_grow(t, s.last());
    }
}

/// The compression level that `level` names: a decimal number from 0 to
/// `MAX_COMPRESSION_LEVEL`, with an optional `+`. Any other text, surrounding
/// whitespace included, is refused with `None`.
pub fn parse_compression_level(level: &str) -> (r: Option<u32>)
    ensures
        r is Some <==> (decimal_value(level@) matches Some(v) && v <= MAX_COMPRESSION_LEVEL),
        r matches Some(n) ==> decimal_value(level@) == Some(n as int),
{
    let n = level.unicode_len();
    let mut start: usize = 0;
    if n > 0 && level.get_char(0) == '+' {
        start = 1;
    }
    let ghost d = unsigned_part(level@);
    assert(d =~= level@.subrange(start as int, n as int));
    if start == n {
        return None;
    }
    // The value read so far, held at 10 once it exceeds the highest level.
    let mut acc: u32 = 0;
    let mut i: usize = start;
    while i < n
        invariant
            start <= i <= n,
            n == level@.len(),
            d == level@.subrange(start as int, n as int),
            d == unsigned_part(level@),
            forall|k: int| 0 <= k < i - start ==> is_digit(#[trigger] d[k]),
            acc <= 10,
            acc < 10 ==> acc == digits_value(d.take(i - start)),
            acc == 10 ==> digits_value(d.take(i - start)) >= 10,
        decreases n - i,
    {
        let c = level.get_char(i);
        if !('0' <= c && c <= '9') {
            proof {
                let k = i - start;
                assert(d[k] == c);
                assert(!is_digit(d[k]));
            }
            return None;
        }
        let digit = (c as u32) - ('0' as u32);
        let ghost t = d.take(i - start);
        proof {
            assert(d.take(i + 1 - start) =~= t.push(c));
            lemma_digits_grow(t, c);
        }
        if acc < 10 {
            let next = acc * 10 + digit;
            acc = if next > 10 {
                10
            } else {
                next
            };
        } else {
            assert(digits_value(t) * 10 >= 100) by (nonlinear_arith)
                requires
                    digits_value(t) >= 10,
            ;
        }
        i = i + 1;
    }
    assert(d.take(n - start) =~= d);
    if acc <= MAX_COMPRESSION_LEVEL {
        Some(acc)
    } else {
        None
    }
}

} // verus!
