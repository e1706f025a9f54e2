//! Verified decimal integers: reading them as `str::parse` reads `u32` and
//! `i64`, and writing them as `Display` writes unsigned integers.
use vstd::prelude::*;

verus! {

pub open spec fn is_digit(c: char) -> bool {
    '0' <= c && c <= '9'
}

pub open spec fn digit_value(c: char) -> nat {
    (c as int - '0' as int) as nat
}

pub open spec fn all_digits(d: Seq<char>) -> bool {
    forall|i: int| 0 <= i < d.len() ==> is_digit(#[trigger] d[i])
}

/// The number that the decimal digits `d` write, most significant first.
pub open spec fn digits_value(d: Seq<char>) -> nat
    decreases d.len(),
{
    if d.len() == 0 {
        0
    } else {
        10 * digits_value(d.drop_last()) + digit_value(d.last())
    }
}

/// The digits of an unsigned number: the text without one leading `+`.
pub open spec fn unsigned_digits(s: Seq<char>) -> Seq<char> {
    if s.len() > 0 && s[0] == '+' {
        s.drop_first()
    } else {
        s
    }
}

/// What `str::parse::<u32>` gives: an optional `+`, then at least one ASCII
/// digit and nothing else, of a value that fits in a `u32`.
pub open spec fn parsed_u32(s: Seq<char>) -> Option<u32> {
    let d = unsigned_digits(s);
    if d.len() > 0 && all_digits(d) && digits_value(d) <= u32::MAX {
        Some(digits_value(d) as u32)
    } else {
        None
    }
}

/// What `str::parse::<i64>` gives: an optional `+` or `-`, then at least one
/// ASCII digit and nothing else, of a value that fits in an `i64`.
pub open spec fn parsed_i64(s: Seq<char>) -> Option<i64> {
    if s.len() > 0 && s[0] == '-' {
        let d = s.drop_first();
        if d.len() > 0 && all_digits(d) && digits_value(d) <= 0x8000_0000_0000_0000 {
            Some((0 - digits_value(d)) as i64)
        } else {
            None
        }
    } else {
        let d = unsigned_digits(s);
        if d.len() > 0 && all_digits(d) && digits_value(d) <= i64::MAX {
            Some(digits_value(d) as i64)
        } else {
            None
        }
    }
}

pub open spec fn digit_char(n: nat) -> char
    recommends
        n < 10,
{
    ((n + '0' as int) as u32) as char
}

/// The decimal digits of `n`, most significant first, without leading zeros.
pub open spec fn decimal(n: nat) -> Seq<char>
    decreases n,
{
    if n < 10 {
        seq![digit_char(n)]
    } else {
        decimal(n / 10).push(digit_char(n % 10))
    }
}

/// A longer run of digits never writes a smaller number.
pub proof fn lemma_digits_value_grows(d: Seq<char>, i: int, j: int)
    requires
        0 <= i <= j <= d.len(),
        all_digits(d),
    ensures
        digits_value(d.subrange(0, i)) <= digits_value(d.subrange(0, j)),
    decreases j - i,
{
    if i < j {
        lemma_digits_value_grows(d, i, j - 1);
        assert(d.subrange(0, j).drop_last() =~= d.subrange(0, j - 1));
    }
}

pub proof fn lemma_digit_char(k: nat)
    requires
        k < 10,
    ensures
        is_digit(digit_char(k)),
        digit_value(digit_char(k)) == k,
        digit_char(k) != '+',
{
}

pub proof fn lemma_decimal_digits(n: nat)
    ensures
        decimal(n).len() > 0,
        all_digits(decimal(n)),
        digits_value(decimal(n)) == n,
        decimal(n)[0] != '+',
    decreases n,
{
    lemma_digit_char(n % 10);
    if n >= 10 {
        lemma_decimal_digits(n / 10);
        let d = decimal(n);
        assert(d.drop_last() =~= decimal(n / 10));
        assert(d.last() == digit_char(n % 10));
        assert(digits_value(d) == 10 * digits_value(decimal(n / 10)) + digit_value(d.last()));
        assert(n == 10 * (n / 10) + n % 10);
        assert(digits_value(d) == n);
    } else {
        assert(decimal(n).drop_last() =~= Seq::<char>::empty());
        assert(n % 10 == n);
        assert(digits_value(Seq::<char>::empty()) == 0);
        assert(decimal(n).last() == digit_char(n));
        assert(digits_value(decimal(n)) == n);
    }
}

/// Reading back what `u32_decimal` writes gives the number that was written.
pub proof fn lemma_u32_decimal_reads_back(n: u32)
    ensures
        parsed_u32(decimal(n as nat)) == Some(n),
{
    lemma_decimal_digits(n as nat);
}

/// The value of the ASCII digits of `s` from index `start` on; `None` if a
/// character there is not a digit, or the value passes `bound`.
fn digits_within(s: &str, start: usize, bound: u64) -> (r: Option<u64>)
    requires
        start <= s@.len(),
    ensures
        ({
            let d = s@.subrange(start as int, s@.len() as int);
            match r {
                Some(v) => all_digits(d) && digits_value(d) <= bound && v == digits_value(d),
                None => !(all_digits(d) && digits_value(d) <= bound),
            }
        }),
{
    let n = s.unicode_len();
    let ghost d = s@.subrange(start as int, n as int);
    let mut acc: u128 = 0;
    let mut i: usize = start;
    while i < n
        invariant
            n == s@.len(),
            start <= i <= n,
            d == s@.subrange(start as int, n as int),
            all_digits(d.subrange(0, i - start)),
            acc == digits_value(d.subrange(0, i - start)),
            acc <= bound,
        decreases n - i,
    {
        let c = s.get_char(i);
        if !('0' <= c && c <= '9') {
            assert(!is_digit(d[i - start]));
            return None;
        }
        let digit = (c as u32 - '0' as u32) as u128;
        assert(d.subrange(0, i + 1 - start).drop_last() =~= d.subrange(0, i - start));
        acc = acc * 10 + digit;
        i = i + 1;
        if acc > bound as u128 {
            proof {
                if all_digits(d) {
                    lemma_digits_value_grows(d, i - start, d.len() as int);
                    assert(d.subrange(0, d.len() as int) =~= d);
                }
            }
            return None;
        }
    }
    assert(d.subrange(0, n - start) =~= d);
    Some(acc as u64)
}

/// Reads `s` as `str::parse::<u32>` does.
pub fn parse_u32(s: &str) -> (r: Option<u32>)
    ensures
        r == parsed_u32(s@),
{
    let n = s.unicode_len();
    let start: usize = if n > 0 && s.get_char(0) == '+' { 1 } else { 0 };
    assert(unsigned_digits(s@) =~= s@.subrange(start as int, n as int));
    if start == n {
        return None;
    }
    match digits_within(s, start, 0xffff_ffff) {
        Some(v) => Some(v as u32),
        None => None,
    }
}

/// Reads `s` as `str::parse::<i64>` does.
pub fn parse_i64(s: &str) -> (r: Option<i64>)
    ensures
        r == parsed_i64(s@),
{
    let n = s.unicode_len();
    if n > 0 && s.get_char(0) == '-' {
        assert(s@.drop_first() =~= s@.subrange(1, n as int));
        if n == 1 {
            return None;
        }
        match digits_within(s, 1, 0x8000_0000_0000_0000) {
            Some(v) => {
                if v == 0x8000_0000_0000_0000 {
                    Some(i64::MIN)
                } else {
                    Some(0 - (v as i64))
                }
            },
            None => None,
        }
    } else {
        let start: usize = if n > 0 && s.get_char(0) == '+' { 1 } else { 0 };
        assert(unsigned_digits(s@) =~= s@.subrange(start as int, n as int));
        if start == n {
            return None;
        }
        match digits_within(s, start, 0x7fff_ffff_ffff_ffff) {
            Some(v) => Some(v as i64),
            None => None,
        }
    }
}

fn digit_text(d: u64) -> (r: &'static str)
    requires
        d < 10,
    ensures
        r@ == seq![digit_char(d as nat)],
{
    proof {
        reveal_strlit("0");
        reveal_strlit("1");
        reveal_strlit("2");
        reveal_strlit("3");
        reveal_strlit("4");
        reveal_strlit("5");
        reveal_strlit("6");
        reveal_strlit("7");
        reveal_strlit("8");
        reveal_strlit("9");
    }
    let r = match d {
        0 => "0",
        1 => "1",
        2 => "2",
        3 => "3",
        4 => "4",
        5 => "5",
        6 => "6",
        7 => "7",
        8 => "8",
        _ => "9",
    };
    assert(r@ =~= seq![digit_char(d as nat)]);
    r
}

/// The decimal text of `n`, as `n.to_string()` writes it.
pub fn u64_decimal(n: u64) -> (r: String)
    ensures
        r@ == decimal(n as nat),
    decreases n,
{
    if n < 10 {
        String::from_str(digit_text(n))
    } else {
        let mut r = u64_decimal(n / 10);
        r.append(digit_text(n % 10));
        assert(r@ =~= decimal(n as nat));
        r
    }
}

/// The decimal text of `n`, as `n.to_string()` writes it.
pub fn u32_decimal(n: u32) -> (r: String)
    ensures
        r@ == decimal(n as nat),
{
    u64_decimal(n as u64)
}

} // verus!
