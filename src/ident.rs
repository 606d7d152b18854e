use vstd::prelude::*;
use vstd::string::*;

verus! {

/// The decimal digit character for `d < 10`.
pub open spec fn digit_char(d: nat) -> char {
    if d == 0 {
        '0'
    } else if d == 1 {
        '1'
    } else if d == 2 {
        '2'
    } else if d == 3 {
        '3'
    } else if d == 4 {
        '4'
    } else if d == 5 {
        '5'
    } else if d == 6 {
        '6'
    } else if d == 7 {
        '7'
    } else if d == 8 {
        '8'
    } else {
        '9'
    }
}

pub open spec fn is_digit(c: char) -> bool {
    '0' <= c && c <= '9'
}

/// The value of a digit character.
pub open spec fn digit_value(c: char) -> nat {
    (c as u32 - '0' as u32) as nat
}

/// The canonical decimal text of `n`: no sign, no leading zeros.
pub open spec fn decimal(n: nat) -> Seq<char>
    decreases n,
{
    if n < 10 {
        seq![digit_char(n)]
    } else {
        decimal(n / 10).push(digit_char(n % 10))
    }
}

/// The number that a run of digits spells, most significant first.
pub open spec fn digits_value(s: Seq<char>) -> nat
    decreases s.len(),
{
    if s.len() == 0 {
        0
    } else {
        10 * digits_value(s.drop_last()) + digit_value(s.last())
    }
}

pub proof fn lemma_digit_char(d: nat)
    requires
        d < 10,
    ensures
        is_digit(digit_char(d)),
        digit_value(digit_char(d)) == d,
{
}

/// Decimal text is made of digits and spells back the number it was made from.
pub proof fn lemma_decimal_value(n: nat)
    ensures
        decimal(n).len() >= 1,
        forall|i: int| 0 <= i < decimal(n).len() ==> is_digit(#[trigger] decimal(n)[i]),
        digits_value(decimal(n)) == n,
    decreases n,
{
    if n < 10 {
        lemma_digit_char(n);
        assert(decimal(n).drop_last() =~= Seq::<char>::empty());
        assert(digits_value(decimal(n)) == 10 * digits_value(Seq::<char>::empty()) + digit_value(digit_char(n)));
    } else {
        lemma_decimal_value(n / 10);
        lemma_digit_char(n % 10);
        let p = decimal(n / 10);
        assert(decimal(n).drop_last() =~= p);
        assert(digits_value(decimal(n)) == 10 * (n / 10) + n % 10);
        assert(10 * (n / 10) + n % 10 == n) by (nonlinear_arith);
        assert forall|i: int| 0 <= i < decimal(n).len() implies is_digit(#[trigger] decimal(n)[i]) by {
            if i < p.len() {
                assert(decimal(n)[i] == p[i]);
            }
        }
    }
}

/// Distinct numbers have distinct decimal texts.
pub proof fn lemma_decimal_injective(a: nat, b: nat)
    requires
        decimal(a) == decimal(b),
    ensures
        a == b,
{
    lemma_decimal_value(a);
    lemma_decimal_value(b);
}

fn digit_str(d: u64) -> (r: &'static str)
    requires
        d < 10,
    ensures
        r@ == seq![digit_char(d as nat)],
{
    if d == 0 {
        proof { reveal_strlit("0"); }
        "0"
    } else if d == 1 {
        proof { reveal_strlit("1"); }
        "1"
    } else if d == 2 {
        proof { reveal_strlit("2"); }
        "2"
    } else if d == 3 {
        proof { reveal_strlit("3"); }
        "3"
    } else if d == 4 {
        proof { reveal_strlit("4"); }
        "4"
    } else if d == 5 {
        proof { reveal_strlit("5"); }
        "5"
    } else if d == 6 {
        proof { reveal_strlit("6"); }
        "6"
    } else if d == 7 {
        proof { reveal_strlit("7"); }
        "7"
    } else if d == 8 {
        proof { reveal_strlit("8"); }
        "8"
    } else {
        proof { reveal_strlit("9"); }
        "9"
    }
}

/// The identifier text for the counter value `n`.
pub fn id_text(n: u64) -> (r: String)
    ensures
        r@ == decimal(n as nat),
    decreases n,
{
    if n < 10 {
        String::from_str(digit_str(n))
    } else {
        let mut s = id_text(n / 10);
        s.append(digit_str(n % 10));
        proof {
            assert(seq![digit_char((n % 10) as nat)] =~= Seq::<char>::empty().push(digit_char((n % 10) as nat)));
        }
        s
    }
}

/// A text that spells, in decimal, a number too large for a `u64` counter.
pub open spec fn spells_huge(k: Seq<char>) -> bool {
    k.len() > 0 && (forall|i: int| 0 <= i < k.len() ==> is_digit(#[trigger] k[i]))
        && digits_value(k) >= u64::MAX
}

/// The least counter value from which no value's decimal text is `k`: one past
/// the number that `k` spells where it is all digits, else 0.
pub open spec fn id_floor(k: Seq<char>) -> nat {
    if k.len() > 0 && (forall|i: int| 0 <= i < k.len() ==> is_digit(#[trigger] k[i])) {
        digits_value(k) + 1
    } else {
        0
    }
}

/// A bound on the counter value that an identifier text can stand for:
/// `Some(b)` where every `j` with `decimal(j) == s` is below `b`, or `None`
/// where the text spells a number that leaves no room below `u64::MAX`.
pub fn id_bound(s: &str) -> (r: Option<u64>)
    ensures
        r matches Some(b) ==> b == id_floor(s@) && forall|j: nat| #[trigger] decimal(j) == s@ ==> j < b,
        r is None <==> spells_huge(s@),
{
    let len = s.unicode_len();
    if len == 0 {
        proof {
            assert forall|j: nat| #[trigger] decimal(j) == s@ implies j < 0 by {
                lemma_decimal_value(j);
            }
        }
        return Some(0);
    }
    let mut i: usize = 0;
    while i < len
        invariant
            len == s@.len(),
            i <= len,
            forall|k: int| 0 <= k < i ==> is_digit(#[trigger] s@[k]),
        decreases len - i,
    {
        let c = s.get_char(i);
        if c < '0' || c > '9' {
            proof {
                assert forall|j: nat| #[trigger] decimal(j) == s@ implies j < 0 by {
                    lemma_decimal_value(j);
                    assert(s@[i as int] == decimal(j)[i as int]);
                }
                assert(!is_digit(s@[i as int]));
            }
            return Some(0);
        }
        i = i + 1;
    }
    let mut v: u64 = 0;
    let mut i: usize = 0;
    while i < len
        invariant
            len == s@.len(),
            i <= len,
            v as nat == digits_value(s@.take(i as int)),
            forall|k: int| 0 <= k < len ==> is_digit(#[trigger] s@[k]),
            v < u64::MAX,
        decreases len - i,
    {
        let c = s.get_char(i);
        assert(s@.take(i as int + 1).drop_last() =~= s@.take(i as int));
        assert(is_digit(s@[i as int]));
        let d = (c as u32 - '0' as u32) as u64;
        if v > (u64::MAX - 1 - d) / 10 {
            proof {
                let t = s@.take(i as int + 1);
                assert(digits_value(t) == 10 * v + d) by (nonlinear_arith)
                    requires digits_value(t) == 10 * digits_value(t.drop_last()) + d,
                        digits_value(t.drop_last()) == v;
                assert(10 * v + d >= u64::MAX) by (nonlinear_arith)
                    requires v > (u64::MAX - 1 - d) / 10, d < 10;
                lemma_prefix_value_grows(s@, i as int + 1);
            }
            return None;
        }
        v = v * 10 + d;
        i = i + 1;
    }
    assert(s@.take(len as int) =~= s@);
    proof {
        assert forall|j: nat| #[trigger] decimal(j) == s@ implies j < v + 1 by {
            lemma_decimal_value(j);
        }
    }
    Some(v + 1)
}

/// The value of an all-digit text is at least that of each of its prefixes.
proof fn lemma_prefix_value_grows(s: Seq<char>, k: int)
    requires
        0 <= k <= s.len(),
        forall|i: int| 0 <= i < s.len() ==> is_digit(#[trigger] s[i]),
    ensures
        digits_value(s) >= digits_value(s.take(k)),
    decreases s.len() - k,
{
    if k < s.len() {
        lemma_prefix_value_grows(s, k + 1);
        let t = s.take(k + 1);
        assert(t.drop_last() =~= s.take(k));
    } else {
        assert(s.take(k) =~= s);
    }
}

} // verus!
