//! Decimal text: parsing of header values, the `<digits>;w=<digits>`
//! shape of the `ratelimit-policy` header, and rendering of numbers.

use vstd::prelude::*;

verus! {

/// True of an ASCII decimal digit.
pub open spec fn is_digit(c: char) -> bool {
    48 <= c as u32 <= 57
}

/// The numeric value of one ASCII decimal digit.
pub open spec fn digit_val(c: char) -> nat {
    (c as u32 - 48) as nat
}

pub open spec fn all_digits(s: Seq<char>) -> bool {
    forall|i: int| 0 <= i < s.len() ==> is_digit(#[trigger] s[i])
}

/// The number a digit string denotes, most significant digit first.
pub open spec fn digits_val(s: Seq<char>) -> nat
    decreases s.len(),
{
    if s.len() == 0 {
        0
    } else {
        digits_val(s.drop_last()) * 10 + digit_val(s.last())
    }
}

/// What `str::parse::<u64>` accepts: an optional leading `+`, then one
/// or more ASCII digits denoting a value that fits in 64 bits.
pub open spec fn spec_parse_u64(s: Seq<char>) -> Option<u64> {
    let t = if s.len() > 0 && s[0] == '+' {
        s.skip(1)
    } else {
        s
    };
    if t.len() > 0 && all_digits(t) && digits_val(t) <= u64::MAX {
        Some(digits_val(t) as u64)
    } else {
        None
    }
}

proof fn lemma_digits_val_take_step(s: Seq<char>, j: int)
    requires
        0 <= j < s.len(),
    ensures
        digits_val(s.take(j + 1)) == digits_val(s.take(j)) * 10 + digit_val(s[j]),
        digits_val(s.take(j)) <= digits_val(s.take(j + 1)),
{
    assert(s.take(j + 1).drop_last() =~= s.take(j));
    assert(s.take(j + 1).last() == s[j]);
}

proof fn lemma_digits_val_take_le(s: Seq<char>, j: int)
    requires
        0 <= j <= s.len(),
    ensures
        digits_val(s.take(j)) <= digits_val(s),
    decreases s.len() - j,
{
    if j == s.len() {
        assert(s.take(j) =~= s);
    } else {
        lemma_digits_val_take_step(s, j);
        lemma_digits_val_take_le(s, j + 1);
    }
}

/// Parses exactly as `str::parse::<u64>` does: an optional leading
/// `+`, then decimal digits; `None` on an empty or malformed string
/// and on overflow.
pub fn parse_u64(s: &str) -> (r: Option<u64>)
    ensures
        r == spec_parse_u64(s@),
{
    let n = s.unicode_len();
    let mut start: usize = 0;
    if n > 0 && s.get_char(0) == '+' {
        start = 1;
    }
    let ghost t: Seq<char> = s@.skip(start as int);
    proof {
        if start == 1 {
            assert(s@[0] == '+');
        } else {
            assert(t =~= s@);
        }
    }
    if start >= n {
        return None;
    }
    proof {
        assert(s@.skip(start as int).len() == n - start);
    }
    let mut i: usize = start;
    let mut acc: u64 = 0;
    while i < n
        invariant
            start <= i <= n,
            n == s@.len(),
            start == 1 <==> s@.len() > 0 && s@[0] == '+',
            start <= 1,
            t == s@.skip(start as int),
            t.len() == n - start,
            forall|k: int| start <= k < i ==> is_digit(#[trigger] s@[k]),
            acc == digits_val(t.take(i - start)),
        decreases n - i,
    {
        let c = s.get_char(i);
        let u = c as u32;
        proof {
            assert(s@.skip(start as int)[i - start] == s@[i as int]);
            assert(t[i - start] == s@[i as int]);
        }
        if u < 48 || u > 57 {
            proof {
                assert(!is_digit(t[i - start]));
                assert(!all_digits(t));
                assert(start == 0 ==> t =~= s@);
            }
            return None;
        }
        let d = (u - 48) as u64;
        proof {
            lemma_digits_val_take_step(t, i - start);
        }
        let acc10 = match acc.checked_mul(10) {
            Some(v) => v,
            None => {
                proof {
                    lemma_digits_val_take_le(t, i - start + 1);
                    assert(start == 0 ==> t =~= s@);
                }
                return None;
            },
        };
        acc = match acc10.checked_add(d) {
            Some(v) => v,
            None => {
                proof {
                    lemma_digits_val_take_le(t, i - start + 1);
                    assert(start == 0 ==> t =~= s@);
                }
                return None;
            },
        };
        i = i + 1;
    }
    proof {
        assert(t.take(n - start) =~= t);
        assert(forall|k: int| 0 <= k < t.len() ==> t[k] == s@[k + start]);
    }
    Some(acc)
}

/// True where `i` is the split point of a policy header of the shape
/// `<digits>;w=<digits>` with both digit groups non-empty.
pub open spec fn policy_split_at(s: Seq<char>, i: int) -> bool {
    &&& 1 <= i
    &&& i + 4 <= s.len()
    &&& all_digits(s.take(i))
    &&& s[i] == ';'
    &&& s[i + 1] == 'w'
    &&& s[i + 2] == '='
    &&& all_digits(s.skip(i + 3))
}

/// True of header text that matches the policy pattern
/// `^<digits>;w=<digits>$`.
pub open spec fn policy_matches(s: Seq<char>) -> bool {
    exists|i: int| policy_split_at(s, i)
}

pub open spec fn policy_split(s: Seq<char>) -> int {
    choose|i: int| policy_split_at(s, i)
}

/// The first policy field (maximum requests), where the pattern
/// matches and the digits fit in a `u64`.
pub open spec fn policy_max_field(s: Seq<char>) -> Option<u64> {
    if policy_matches(s) {
        spec_parse_u64(s.take(policy_split(s)))
    } else {
        None
    }
}

/// The second policy field (window length), where the pattern matches
/// and the digits fit in a `u64`.
pub open spec fn policy_window_field(s: Seq<char>) -> Option<u64> {
    if policy_matches(s) {
        spec_parse_u64(s.skip(policy_split(s) + 3))
    } else {
        None
    }
}

proof fn lemma_policy_split_unique(s: Seq<char>, i: int, j: int)
    requires
        policy_split_at(s, i),
        policy_split_at(s, j),
    ensures
        i == j,
{
    if i < j {
        assert(is_digit(s.take(j)[i]));
        assert(s[i] == ';');
    }
    if j < i {
        assert(is_digit(s.take(i)[j]));
        assert(s[j] == ';');
    }
}

/// Parses a `ratelimit-policy` header value of the shape
/// `<digits>;w=<digits>`: `None` where the shape is wrong, else the
/// two fields, each `None` where its digits overflow a `u64`.
pub fn parse_policy(s: &str) -> (r: Option<(Option<u64>, Option<u64>)>)
    ensures
        r is Some <==> policy_matches(s@),
        r matches Some(p) ==> p.0 == policy_max_field(s@) && p.1 == policy_window_field(s@),
{
    let n = s.unicode_len();
    let mut i: usize = 0;
    loop
        invariant
            i <= n,
            n == s@.len(),
            forall|k: int| 0 <= k < i ==> is_digit(#[trigger] s@[k]),
        ensures
            i <= n,
            n == s@.len(),
            forall|k: int| 0 <= k < i ==> is_digit(#[trigger] s@[k]),
            i < n ==> !is_digit(s@[i as int]),
        decreases n - i,
    {
        if i >= n {
            break;
        }
        let c = s.get_char(i);
        let u = c as u32;
        if u < 48 || u > 57 {
            break;
        }
        i = i + 1;
    }
    // The only candidate split point is `i`, the first non-digit.
    proof {
        assert forall|j: int| policy_split_at(s@, j) implies j == i as int by {
            if j < i {
                assert(is_digit(s@[j]));
                assert(s@[j] == ';');
                assert(!is_digit(';'));
            }
            if j > i {
                assert(i < s@.len());
                assert(is_digit(s@.take(j)[i as int]));
            }
        }
    }
    if i < 1 || i >= n || n - i < 4 {
        proof {
            assert(!policy_matches(s@));
        }
        return None;
    }
    if !(s.get_char(i) == ';' && s.get_char(i + 1) == 'w' && s.get_char(i + 2) == '=') {
        proof {
            assert(!policy_matches(s@));
        }
        return None;
    }
    let mut j: usize = i + 3;
    loop
        invariant
            i + 3 <= j <= n,
            n == s@.len(),
            forall|k: int| i + 3 <= k < j ==> is_digit(#[trigger] s@[k]),
        ensures
            i + 3 <= j <= n,
            forall|k: int| i + 3 <= k < j ==> is_digit(#[trigger] s@[k]),
            j < n ==> !is_digit(s@[j as int]),
        decreases n - j,
    {
        if j >= n {
            break;
        }
        let c = s.get_char(j);
        let u = c as u32;
        if u < 48 || u > 57 {
            break;
        }
        j = j + 1;
    }
    if j < n {
        proof {
            assert forall|k: int| !policy_split_at(s@, k) by {
                if policy_split_at(s@, k) {
                    assert(k == i as int);
                    assert(is_digit(s@.skip(k + 3)[j - k - 3]));
                }
            }
        }
        return None;
    }
    proof {
        assert forall|k: int| 0 <= k < s@.take(i as int).len() implies is_digit(
            #[trigger] s@.take(i as int)[k],
        ) by {
            assert(s@.take(i as int)[k] == s@[k]);
        }
        assert forall|k: int| 0 <= k < s@.skip(i + 3).len() implies is_digit(
            #[trigger] s@.skip(i + 3)[k],
        ) by {
            assert(s@.skip(i + 3)[k] == s@[k + i + 3]);
        }
        assert(policy_split_at(s@, i as int));
        lemma_policy_split_unique(s@, policy_split(s@), i as int);
    }
    let g1 = s.substring_char(0, i);
    let g2 = s.substring_char(i + 3, n);
    proof {
        assert(g1@ =~= s@.take(i as int));
        assert(g2@ =~= s@.skip(i + 3));
    }
    let v1 = parse_u64(g1);
    let v2 = parse_u64(g2);
    Some((v1, v2))
}

/// The digit character of a value below ten.
pub open spec fn digit_char(d: nat) -> char {
    ((d + 48) as u32) as char
}

/// The decimal text of a number, most significant digit first, with
/// no sign and no leading zero.
pub open spec fn dec_str(n: nat) -> Seq<char>
    decreases n,
{
    if n < 10 {
        seq![digit_char(n)]
    } else {
        dec_str(n / 10).push(digit_char(n % 10))
    }
}

/// The digit characters of a byte sequence read back to front.
spec fn rev_chars(v: Seq<u8>) -> Seq<char> {
    Seq::new(v.len(), |i: int| digit_char(v[v.len() - 1 - i] as nat))
}

fn render_digit(d: u8) -> (r: char)
    requires
        d < 10,
    ensures
        r == digit_char(d as nat),
{
    (d + 48) as char
}

/// Renders a number as decimal text.
pub fn u64_to_decimal(n: u64) -> (r: String)
    ensures
        r@ == dec_str(n as nat),
{
    let mut digits: Vec<u8> = Vec::new();
    let mut m = n;
    while m >= 10
        invariant
            dec_str(n as nat) =~= dec_str(m as nat) + rev_chars(digits@),
            forall|k: int| 0 <= k < digits@.len() ==> #[trigger] digits@[k] < 10,
        decreases m,
    {
        let d = (m % 10) as u8;
        digits.push(d);
        proof {
            assert(rev_chars(digits@) =~= seq![digit_char(d as nat)] + rev_chars(
                digits@.drop_last(),
            ));
            assert(dec_str(m as nat) == dec_str((m as nat) / 10).push(digit_char((m as nat) % 10)));
            assert(dec_str((m / 10) as nat) + rev_chars(digits@) =~= dec_str(m as nat) + rev_chars(
                digits@.drop_last(),
            ));
        }
        m = m / 10;
    }
    let mut out = String::new();
    out.push(render_digit(m as u8));
    proof {
        assert(out@ =~= seq![digit_char(m as nat)]);
        assert(out@ + rev_chars(digits@) =~= dec_str(n as nat));
    }
    let mut i = digits.len();
    while i > 0
        invariant
            i <= digits@.len(),
            forall|k: int| 0 <= k < digits@.len() ==> #[trigger] digits@[k] < 10,
            out@ =~= seq![digit_char(m as nat)] + rev_chars(digits@).take(
                digits@.len() - i,
            ),
            seq![digit_char(m as nat)] + rev_chars(digits@) =~= dec_str(n as nat),
        decreases i,
    {
        i = i - 1;
        let c = render_digit(digits[i]);
        out.push(c);
        proof {
            assert(rev_chars(digits@)[digits@.len() - 1 - i] == digit_char(digits@[i as int] as nat));
            assert(out@ =~= seq![digit_char(m as nat)] + rev_chars(digits@).take(
                digits@.len() - i,
            ));
        }
    }
    proof {
        assert(rev_chars(digits@).take(digits@.len() as int) =~= rev_chars(digits@));
        assert(out@ =~= dec_str(n as nat));
    }
    out
}

proof fn lemma_dec_str_digits(n: nat)
    ensures
        dec_str(n).len() > 0,
        all_digits(dec_str(n)),
        digits_val(dec_str(n)) == n,
    decreases n,
{
    assert(forall|d: nat| d < 10 ==> (#[trigger] digit_char(d)) as u32 == d + 48);
    if n < 10 {
        let s = seq![digit_char(n)];
        assert(s.drop_last() =~= Seq::<char>::empty());
        assert(digits_val(Seq::<char>::empty()) == 0);
        assert(s.last() == digit_char(n));
        assert(digits_val(s) == digits_val(s.drop_last()) * 10 + digit_val(s.last()));
        assert(digits_val(s) == digit_val(digit_char(n)));
    } else {
        lemma_dec_str_digits(n / 10);
        let s = dec_str(n / 10).push(digit_char(n % 10));
        assert(s.drop_last() =~= dec_str(n / 10));
        assert(digits_val(s) == digits_val(dec_str(n / 10)) * 10 + digit_val(digit_char(n % 10)));
        assert(n == (n / 10) * 10 + n % 10);
        assert forall|k: int| 0 <= k < s.len() implies is_digit(#[trigger] s[k]) by {
            if k < s.len() - 1 {
                assert(s[k] == dec_str(n / 10)[k]);
            }
        }
    }
}

/// Law: rendering a number as decimal text and parsing that text back
/// returns the same number.
pub proof fn lemma_decimal_round_trip(n: u64)
    ensures
        spec_parse_u64(dec_str(n as nat)) == Some(n),
{
    lemma_dec_str_digits(n as nat);
    assert(dec_str(n as nat)[0] as u32 != 43);
}

} // verus!
