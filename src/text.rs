use vstd::prelude::*;
use vstd::std_specs::iter::IteratorSpec;

verus! {

broadcast use {vstd::string::axiom_spec_iter, vstd::string::next_postcondition};

/// The characters of a string, in order.
pub fn chars_of(s: &str) -> (r: Vec<char>)
    ensures
        r@ == s@,
{
    let mut out: Vec<char> = Vec::new();
    for c in it: s.chars()
        invariant
            out@ == it.seq().take(it.index() as int),
    {
        out.push(c);
    }
    assert(out@ =~= s@);
    out
}


/// `s` with every leading `c` removed.
pub open spec fn drop_leading(s: Seq<char>, c: char) -> Seq<char>
    decreases s.len(),
{
    if s.len() > 0 && s[0] == c {
        drop_leading(s.drop_first(), c)
    } else {
        s
    }
}

pub open spec fn digit_char(d: nat) -> char {
    (d + '0' as nat) as char
}

/// The decimal digits of `n`, most significant first, with no leading zero.
pub open spec fn decimal_text(n: nat) -> Seq<char>
    decreases n,
{
    if n < 10 {
        seq![digit_char(n)]
    } else {
        decimal_text(n / 10).push(digit_char(n % 10))
    }
}

/// `n` in decimal, with a leading `-` when negative.
pub open spec fn signed_decimal_text(n: int) -> Seq<char> {
    if n < 0 {
        seq!['-'] + decimal_text((-n) as nat)
    } else {
        decimal_text(n as nat)
    }
}

/// A decimal digit.
pub open spec fn is_digit(c: char) -> bool {
    '0' <= c && c <= '9'
}

pub open spec fn digit_value(c: char) -> int {
    c as int - '0' as int
}

pub open spec fn all_digits(s: Seq<char>) -> bool {
    forall|i: int| 0 <= i < s.len() ==> is_digit(#[trigger] s[i])
}

/// The number that a run of decimal digits denotes, most significant first.
pub open spec fn digits_value(s: Seq<char>) -> int
    decreases s.len(),
{
    if s.len() == 0 {
        0
    } else {
        digits_value(s.drop_last()) * 10 + digit_value(s.last())
    }
}

/// A non-negative decimal number: an optional `+`, then at least one digit.
pub open spec fn unsigned_text(s: Seq<char>) -> Option<int> {
    let body = if s.len() > 0 && s[0] == '+' {
        s.drop_first()
    } else {
        s
    };
    if body.len() > 0 && all_digits(body) {
        Some(digits_value(body))
    } else {
        None
    }
}

/// A signed decimal number: an optional `+` or `-`, then at least one digit.
pub open spec fn signed_text(s: Seq<char>) -> Option<int> {
    if s.len() > 0 && s[0] == '-' {
        let body = s.drop_first();
        if body.len() > 0 && all_digits(body) {
            Some(-digits_value(body))
        } else {
            None
        }
    } else {
        unsigned_text(s)
    }
}

/// The number that `s` denotes as an unsigned decimal, when it lies in `0..=limit`.
pub open spec fn unsigned_within(s: Seq<char>, limit: int) -> Option<int> {
    match unsigned_text(s) {
        Some(v) => if v <= limit {
            Some(v)
        } else {
            None
        },
        None => None,
    }
}

/// The number that `s` denotes as a signed decimal, when it lies in `lo..=hi`.
pub open spec fn signed_within(s: Seq<char>, lo: int, hi: int) -> Option<int> {
    match signed_text(s) {
        Some(v) => if lo <= v && v <= hi {
            Some(v)
        } else {
            None
        },
        None => None,
    }
}

/// The pieces of `s` between occurrences of `sep`, empty pieces included.
pub open spec fn split_on(s: Seq<char>, sep: char) -> Seq<Seq<char>>
    decreases s.len(),
{
    if s.len() == 0 {
        seq![Seq::empty()]
    } else {
        let p = split_on(s.drop_last(), sep);
        if s.last() == sep {
            p.push(Seq::empty())
        } else {
            p.update(p.len() - 1, p.last().push(s.last()))
        }
    }
}

proof fn lemma_split_nonempty(s: Seq<char>, sep: char)
    ensures
        split_on(s, sep).len() >= 1,
    decreases s.len(),
{
    if s.len() > 0 {
        lemma_split_nonempty(s.drop_last(), sep);
    }
}

proof fn lemma_digits_nonneg(s: Seq<char>)
    requires
        all_digits(s),
    ensures
        digits_value(s) >= 0,
    decreases s.len(),
{
    if s.len() > 0 {
        assert(is_digit(s[s.len() - 1]));
        lemma_digits_nonneg(s.drop_last());
    }
}

proof fn lemma_digits_prefix(s: Seq<char>, k: int)
    requires
        all_digits(s),
        0 <= k <= s.len(),
    ensures
        digits_value(s.take(k)) <= digits_value(s),
    decreases s.len() - k,
{
    if k < s.len() {
        lemma_digits_prefix(s, k + 1);
        assert(s.take(k + 1).drop_last() =~= s.take(k));
        assert(is_digit(s[k]));
        lemma_digits_nonneg(s.take(k));
    } else {
        assert(s.take(k) =~= s);
    }
}

/// The value of the digits `s[start..]`, when all are digits, there is at
/// least one, and the value is at most `limit`.
fn digits_from(s: &Vec<char>, start: usize, limit: u128) -> (r: Option<u128>)
    requires
        start <= s.len(),
    ensures
        r == (if start < s.len() && all_digits(s@.skip(start as int)) && digits_value(
            s@.skip(start as int),
        ) <= limit {
            Some(digits_value(s@.skip(start as int)) as u128)
        } else {
            None::<u128>
        }),
        r matches Some(v) ==> v as int == digits_value(s@.skip(start as int)),
{
    if start == s.len() {
        return None;
    }
    let ghost t = s@.skip(start as int);
    let mut acc: u128 = 0;
    let mut i: usize = start;
    while i < s.len()
        invariant
            start <= i <= s.len(),
            t == s@.skip(start as int),
            all_digits(t.take(i - start)),
            acc == digits_value(t.take(i - start)),
            acc <= limit,
        decreases s.len() - i,
    {
        let c = s[i];
        if !('0' <= c && c <= '9') {
            assert(t[i - start] == c);
            return None;
        }
        let d = (c as u32 - '0' as u32) as u128;
        proof {
            assert(t.take(i - start + 1).drop_last() =~= t.take(i - start));
            assert(t.take(i - start + 1).last() == c);
        }
        if d > limit || acc > (limit - d) / 10 {
            proof {
                assert(acc * 10 + d > limit) by (nonlinear_arith)
                    requires
                        d > limit || acc > (limit - d) / 10,
                        d >= 0,
                        acc >= 0,
                ;
                assert forall|j: int| 0 <= j < t.take(i - start + 1).len() implies is_digit(
                    #[trigger] t.take(i - start + 1)[j],
                ) by {
                    if j < i - start {
                        assert(t.take(i - start)[j] == t.take(i - start + 1)[j]);
                    }
                }
                if all_digits(t) {
                    lemma_digits_prefix(t, i - start + 1);
                }
            }
            return None;
        }
        proof {
            assert(acc * 10 + d <= limit) by (nonlinear_arith)
                requires
                    d <= limit,
                    acc <= (limit - d) / 10,
                    d >= 0,
                    acc >= 0,
            ;
            assert forall|j: int| 0 <= j < t.take(i - start + 1).len() implies is_digit(
                #[trigger] t.take(i - start + 1)[j],
            ) by {
                if j < i - start {
                    assert(t.take(i - start)[j] == t.take(i - start + 1)[j]);
                }
            }
        }
        acc = acc * 10 + d;
        i = i + 1;
    }
    assert(t.take(i - start) =~= t);
    Some(acc)
}

/// The characters of `s` from index `start` on.
pub fn tail_from(s: &Vec<char>, start: usize) -> (r: Vec<char>)
    requires
        start <= s@.len(),
    ensures
        r@ == s@.skip(start as int),
{
    let mut out: Vec<char> = Vec::new();
    let mut i: usize = start;
    while i < s.len()
        invariant
            start <= i <= s@.len(),
            out@ == s@.subrange(start as int, i as int),
        decreases s@.len() - i,
    {
        out.push(s[i]);
        assert(s@.subrange(start as int, i + 1) =~= s@.subrange(start as int, i as int).push(s@[i as int]));
        i = i + 1;
    }
    assert(s@.subrange(start as int, i as int) =~= s@.skip(start as int));
    out
}

/// Reads `s` as an unsigned decimal no greater than `limit`.
pub fn parse_unsigned(s: &Vec<char>, limit: u128) -> (r: Option<u128>)
    ensures
        r matches Some(v) ==> unsigned_within(s@, limit as int) == Some(v as int),
        r is None ==> unsigned_within(s@, limit as int) is None,
{
    let start: usize = if s.len() > 0 && s[0] == '+' {
        1
    } else {
        0
    };
    proof {
        if start == 1 {
            assert(s@.skip(1) =~= s@.drop_first());
        } else {
            assert(s@.skip(0) =~= s@);
        }
    }
    digits_from(s, start, limit)
}

/// Reads `s` as a signed decimal in `-(neg_limit)..=pos_limit`; the result
/// is the magnitude and whether it is negative.
fn parse_signed_parts(s: &Vec<char>, neg_limit: u128, pos_limit: u128) -> (r: Option<(bool, u128)>)
    ensures
        r matches Some((neg, m)) ==> signed_within(s@, -neg_limit, pos_limit as int) == Some(
            if neg {
                -(m as int)
            } else {
                m as int
            },
        ) && (neg ==> m > 0),
        r is None ==> signed_within(s@, -neg_limit, pos_limit as int) is None,
{
    if s.len() > 0 && s[0] == '-' {
        let m = digits_from(s, 1, neg_limit);
        proof {
            assert(s@.skip(1) =~= s@.drop_first());
            if s@.drop_first().len() > 0 && all_digits(s@.drop_first()) {
                lemma_digits_nonneg(s@.drop_first());
            }
        }
        match m {
            Some(v) => if v == 0 {
                Some((false, 0))
            } else {
                Some((true, v))
            },
            None => None,
        }
    } else {
        match parse_unsigned(s, pos_limit) {
            Some(v) => Some((false, v)),
            None => None,
        }
    }
}

/// Reads `s` as an `i32`, as `str::parse` does.
pub fn parse_i32(s: &Vec<char>) -> (r: Option<i32>)
    ensures
        r matches Some(v) ==> signed_within(s@, i32::MIN as int, i32::MAX as int) == Some(v as int),
        r is None ==> signed_within(s@, i32::MIN as int, i32::MAX as int) is None,
{
    match parse_signed_parts(s, 0x8000_0000, 0x7fff_ffff) {
        Some((neg, m)) => if neg {
            Some((0 - (m - 1) as i64 - 1) as i32)
        } else {
            Some(m as i32)
        },
        None => None,
    }
}

/// Reads `s` as an `i128`, as `str::parse` does.
pub fn parse_i128(s: &Vec<char>) -> (r: Option<i128>)
    ensures
        r matches Some(v) ==> signed_within(s@, i128::MIN as int, i128::MAX as int) == Some(
            v as int,
        ),
        r is None ==> signed_within(s@, i128::MIN as int, i128::MAX as int) is None,
{
    match parse_signed_parts(
        s,
        0x8000_0000_0000_0000_0000_0000_0000_0000,
        0x7fff_ffff_ffff_ffff_ffff_ffff_ffff_ffff,
    ) {
        Some((neg, m)) => if neg {
            Some(-((m - 1) as i128) - 1)
        } else {
            Some(m as i128)
        },
        None => None,
    }
}

/// The pieces of `s` between occurrences of `sep`, as `str::split` gives them.
pub fn split_chars(s: &Vec<char>, sep: char) -> (r: Vec<Vec<char>>)
    ensures
        r@.len() == split_on(s@, sep).len(),
        forall|k: int| 0 <= k < r@.len() ==> (#[trigger] r@[k])@ == split_on(s@, sep)[k],
{
    let mut done: Vec<Vec<char>> = Vec::new();
    let mut cur: Vec<char> = Vec::new();
    let mut i: usize = 0;
    while i < s.len()
        invariant
            i <= s.len(),
            done@.len() + 1 == split_on(s@.take(i as int), sep).len(),
            forall|k: int| 0 <= k < done@.len() ==> (#[trigger] done@[k])@ == split_on(s@.take(i as int), sep)[k],
            cur@ == split_on(s@.take(i as int), sep).last(),
        decreases s.len() - i,
    {
        let ghost before = split_on(s@.take(i as int), sep);
        proof {
            assert(s@.take(i + 1).drop_last() =~= s@.take(i as int));
            lemma_split_nonempty(s@.take(i as int), sep);
        }
        if s[i] == sep {
            done.push(cur);
            cur = Vec::new();
        } else {
            cur.push(s[i]);
        }
        i = i + 1;
        proof {
            let after = split_on(s@.take(i as int), sep);
            assert forall|k: int| 0 <= k < done@.len() implies (#[trigger] done@[k])@ == after[k] by {
                if k < before.len() - 1 {
                    assert(after[k] == before[k]);
                }
            }
        }
    }
    assert(s@.take(i as int) =~= s@);
    done.push(cur);
    proof {
        let fin = split_on(s@, sep);
        assert forall|k: int| 0 <= k < done@.len() implies (#[trigger] done@[k])@ == fin[k] by {}
    }
    done
}

/// Whether two character sequences are equal.
pub fn same_chars(a: &Vec<char>, b: &Vec<char>) -> (r: bool)
    ensures
        r == (a@ == b@),
{
    if a.len() != b.len() {
        return false;
    }
    let mut i: usize = 0;
    while i < a.len()
        invariant
            a.len() == b.len(),
            i <= a.len(),
            a@.take(i as int) == b@.take(i as int),
        decreases a.len() - i,
    {
        if a[i] != b[i] {
            assert(a@[i as int] != b@[i as int]);
            return false;
        }
        assert(a@.take(i + 1) =~= a@.take(i as int).push(a@[i as int]));
        assert(b@.take(i + 1) =~= b@.take(i as int).push(b@[i as int]));
        i = i + 1;
    }
    assert(a@.take(i as int) =~= a@);
    assert(b@.take(i as int) =~= b@);
    true
}

/// Whether the characters `a` spell the string `b`.
pub fn spells(a: &Vec<char>, b: &str) -> (r: bool)
    ensures
        r == (a@ == b@),
{
    let bc = chars_of(b);
    same_chars(a, &bc)
}

} // verus!
