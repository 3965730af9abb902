//! Verified text helpers: splitting on a separator, trimming whitespace,
//! taking the token after the last space, and decimal numerals in both
//! directions.  All contracts are stated over `Seq<char>` views.

use vstd::prelude::*;
use vstd::string::StrSliceExecFns;
use vstd::string::StringExecFns;

verus! {

/// The whitespace characters that trimming removes.
pub open spec fn is_space(c: char) -> bool {
    c == ' ' || c == '\t' || c == '\n' || c == '\r'
}

fn is_space_char(c: char) -> (r: bool)
    ensures
        r == is_space(c),
{
    c == ' ' || c == '\t' || c == '\n' || c == '\r'
}

/// The segments of `s` between occurrences of `sep`.  The result always has
/// one more segment than `s` has separators; segments may be empty.
pub open spec fn split_ch(s: Seq<char>, sep: char) -> Seq<Seq<char>>
    decreases s.len(),
{
    if s.len() == 0 {
        seq![s]
    } else if s[0] == sep {
        seq![Seq::<char>::empty()] + split_ch(s.skip(1), sep)
    } else {
        let rest = split_ch(s.skip(1), sep);
        seq![seq![s[0]] + rest[0]] + rest.skip(1)
    }
}

/// A sequence without the separator splits into itself alone.
proof fn lemma_split_nosep(s: Seq<char>, sep: char)
    requires
        forall|i: int| 0 <= i < s.len() ==> s[i] != sep,
    ensures
        split_ch(s, sep) =~~= seq![s],
    decreases s.len(),
{
    if s.len() > 0 {
        lemma_split_nosep(s.skip(1), sep);
    }
}

/// Splitting at the first separator: the head segment, then the split of the
/// remainder.
proof fn lemma_split_first_sep(a: Seq<char>, t: Seq<char>, sep: char)
    requires
        forall|i: int| 0 <= i < a.len() ==> a[i] != sep,
    ensures
        split_ch(a + seq![sep] + t, sep) =~~= seq![a] + split_ch(t, sep),
    decreases a.len(),
{
    let s = a + seq![sep] + t;
    if a.len() == 0 {
        assert(s =~= seq![sep] + t);
        assert(s.skip(1) =~= t);
    } else {
        lemma_split_first_sep(a.skip(1), t, sep);
        assert(s.skip(1) =~= a.skip(1) + seq![sep] + t);
        let rest = split_ch(s.skip(1), sep);
        assert(rest =~~= seq![a.skip(1)] + split_ch(t, sep));
        assert(seq![a[0]] + rest[0] =~= a);
        assert(rest.skip(1) =~~= split_ch(t, sep));
    }
}

/// The views of a list of strings.
pub open spec fn str_views(v: Seq<String>) -> Seq<Seq<char>> {
    v.map_values(|x: String| x@)
}

/// Splits `s` on every occurrence of `sep`, as the segments between them.
pub fn split_char(s: &str, sep: char) -> (r: Vec<String>)
    ensures
        str_views(r@) =~~= split_ch(s@, sep),
    decreases s@.len(),
{
    let n = s.unicode_len();
    let mut j: usize = 0;
    while j < n && s.get_char(j) != sep
        invariant
            j <= n,
            n == s@.len(),
            forall|t: int| 0 <= t < j ==> s@[t] != sep,
        decreases n - j,
    {
        j = j + 1;
    }
    if j == n {
        proof {
            lemma_split_nosep(s@, sep);
        }
        let mut out: Vec<String> = Vec::new();
        out.push(s.to_owned());
        assert(str_views(out@) =~~= seq![s@]);
        out
    } else {
        let head = s.substring_char(0, j);
        let tail = s.substring_char(j + 1, n);
        proof {
            assert(s@ =~= head@ + seq![sep] + tail@);
            lemma_split_first_sep(head@, tail@, sep);
        }
        let mut rest = split_char(tail, sep);
        let ghost rest_views = str_views(rest@);
        let mut out: Vec<String> = Vec::new();
        out.push(head.to_owned());
        out.append(&mut rest);
        assert(str_views(out@) =~~= seq![head@] + rest_views);
        out
    }
}

/// `s` without trailing whitespace.
pub open spec fn trim_back(s: Seq<char>) -> Seq<char>
    decreases s.len(),
{
    if s.len() > 0 && is_space(s.last()) {
        trim_back(s.drop_last())
    } else {
        s
    }
}

/// `s` without leading whitespace.
pub open spec fn trim_front(s: Seq<char>) -> Seq<char>
    decreases s.len(),
{
    if s.len() > 0 && is_space(s[0]) {
        trim_front(s.skip(1))
    } else {
        s
    }
}

/// `s` without leading and trailing whitespace.
pub open spec fn trimmed(s: Seq<char>) -> Seq<char> {
    trim_front(trim_back(s))
}

/// Removes leading and trailing whitespace.
pub fn trim_whitespace(s: &str) -> (r: String)
    ensures
        r@ == trimmed(s@),
{
    let n = s.unicode_len();
    let mut j: usize = n;
    assert(s@.take(n as int) =~= s@);
    while j > 0 && is_space_char(s.get_char(j - 1))
        invariant
            j <= n,
            n == s@.len(),
            trim_back(s@) == trim_back(s@.take(j as int)),
        decreases j,
    {
        proof {
            assert(s@.take(j as int).drop_last() =~= s@.take(j - 1));
        }
        j = j - 1;
    }
    assert(trim_back(s@) == s@.take(j as int));
    let mut i: usize = 0;
    assert(s@.take(j as int).skip(0) =~= s@.take(j as int));
    while i < j && is_space_char(s.get_char(i))
        invariant
            i <= j <= n,
            n == s@.len(),
            trim_back(s@) == s@.take(j as int),
            trim_front(s@.take(j as int)) == trim_front(s@.take(j as int).skip(i as int)),
        decreases j - i,
    {
        proof {
            assert(s@.take(j as int).skip(i as int).skip(1) =~= s@.take(j as int).skip(i + 1));
        }
        i = i + 1;
    }
    assert(trim_front(s@.take(j as int)) == s@.take(j as int).skip(i as int));
    let r = s.substring_char(i, j).to_owned();
    proof {
        assert(r@ =~= s@.take(j as int).skip(i as int));
    }
    r
}

/// The suffix of `s` after its last space character; `s` itself when it
/// holds no space.
pub open spec fn after_last_space(s: Seq<char>) -> Seq<char>
    decreases s.len(),
{
    if s.len() == 0 {
        s
    } else if s.last() == ' ' {
        Seq::<char>::empty()
    } else {
        after_last_space(s.drop_last()).push(s.last())
    }
}

/// Returns the token after the last space of `s`.
pub fn last_space_token(s: &str) -> (r: String)
    ensures
        r@ == after_last_space(s@),
{
    let n = s.unicode_len();
    let mut k: usize = n;
    assert(s@.take(n as int) =~= s@);
    assert(s@.skip(n as int) =~= Seq::<char>::empty());
    while k > 0 && s.get_char(k - 1) != ' '
        invariant
            k <= n,
            n == s@.len(),
            after_last_space(s@) == after_last_space(s@.take(k as int)) + s@.skip(k as int),
        decreases k,
    {
        proof {
            assert(s@.take(k as int).drop_last() =~= s@.take(k - 1));
            assert(after_last_space(s@.take(k - 1)) + s@.skip(k - 1)
                =~= (after_last_space(s@.take(k - 1)).push(s@[k - 1])) + s@.skip(k as int));
        }
        k = k - 1;
    }
    let r = s.substring_char(k, n).to_owned();
    proof {
        if k == 0 {
            assert(after_last_space(s@.take(0)) + s@.skip(0) =~= s@);
        } else {
            assert(after_last_space(s@.take(k as int)) =~= Seq::<char>::empty());
        }
        assert(after_last_space(s@) =~= s@.skip(k as int));
        assert(r@ =~= s@.skip(k as int));
    }
    r
}

/// Decimal digit characters.
pub open spec fn is_digit(c: char) -> bool {
    48 <= c as int <= 57
}

pub open spec fn all_digits(s: Seq<char>) -> bool {
    forall|i: int| 0 <= i < s.len() ==> is_digit(s[i])
}

/// The value of a string of decimal digits.
pub open spec fn digits_val(s: Seq<char>) -> int
    decreases s.len(),
{
    if s.len() == 0 {
        0
    } else {
        digits_val(s.drop_last()) * 10 + (s.last() as int - 48)
    }
}

proof fn lemma_digits_val_nonneg(s: Seq<char>)
    requires
        all_digits(s),
    ensures
        digits_val(s) >= 0,
    decreases s.len(),
{
    if s.len() > 0 {
        lemma_digits_val_nonneg(s.drop_last());
    }
}

/// The value of a prefix never exceeds the value of the whole numeral.
proof fn lemma_digits_val_prefix_le(s: Seq<char>, k: int)
    requires
        all_digits(s),
        0 <= k <= s.len(),
    ensures
        digits_val(s.take(k)) <= digits_val(s),
    decreases s.len(),
{
    if k == s.len() {
        assert(s.take(k) =~= s);
    } else {
        assert(s.drop_last().take(k) =~= s.take(k));
        lemma_digits_val_prefix_le(s.drop_last(), k);
        lemma_digits_val_nonneg(s.drop_last());
    }
}

/// A non-empty string of decimal digits whose value fits an `i32`.
pub open spec fn is_i32_numeral(s: Seq<char>) -> bool {
    s.len() > 0 && all_digits(s) && digits_val(s) <= i32::MAX
}

/// Parses a non-negative decimal numeral.  The result is the numeral's value
/// when `s` is non-empty, all digits, and the value fits an `i32`; `None`
/// otherwise.
pub fn parse_decimal_i32(s: &str) -> (r: Option<i32>)
    ensures
        r is Some <==> is_i32_numeral(s@),
        r matches Some(v) ==> v as int == digits_val(s@),
{
    let n = s.unicode_len();
    if n == 0 {
        return None;
    }
    let mut acc: i64 = 0;
    let mut i: usize = 0;
    while i < n
        invariant
            i <= n,
            n == s@.len(),
            n > 0,
            all_digits(s@.take(i as int)),
            acc == digits_val(s@.take(i as int)),
            0 <= acc <= i32::MAX,
        decreases n - i,
    {
        let c = s.get_char(i);
        let cv = c as u32;
        if cv < 48 || cv > 57 {
            return None;
        }
        proof {
            assert(s@.take(i + 1).drop_last() =~= s@.take(i as int));
        }
        let next: i64 = acc * 10 + (cv as i64 - 48);
        i = i + 1;
        if next > i32::MAX as i64 {
            proof {
                if all_digits(s@) {
                    lemma_digits_val_prefix_le(s@, i as int);
                }
            }
            return None;
        }
        acc = next;
    }
    proof {
        assert(s@.take(n as int) =~= s@);
    }
    Some(acc as i32)
}

/// The decimal digit characters of `n`, most significant first.
pub open spec fn dec_rep(n: int) -> Seq<char>
    decreases n,
{
    if n < 10 {
        seq![digit_char(n)]
    } else {
        dec_rep(n / 10).push(digit_char(n % 10))
    }
}

/// The character of a single decimal digit.
pub open spec fn digit_char(d: int) -> char {
    if d == 0 { '0' }
    else if d == 1 { '1' }
    else if d == 2 { '2' }
    else if d == 3 { '3' }
    else if d == 4 { '4' }
    else if d == 5 { '5' }
    else if d == 6 { '6' }
    else if d == 7 { '7' }
    else if d == 8 { '8' }
    else { '9' }
}

/// Renders `n` as a decimal numeral.
pub fn u64_to_string(n: u64) -> (r: String)
    ensures
        r@ == dec_rep(n as int),
    decreases n,
{
    let digits: &str = "0123456789";
    proof {
        reveal_strlit("0123456789");
    }
    let d = (n % 10) as usize;
    assert(digits@.subrange(d as int, d + 1) =~= seq![digit_char((n % 10) as int)]);
    if n < 10 {
        let r = digits.substring_char(d, d + 1).to_owned();
        assert(r@ =~= seq![digit_char(n as int)]);
        r
    } else {
        let mut r = u64_to_string(n / 10);
        r.append(digits.substring_char(d, d + 1));
        assert(r@ =~= dec_rep((n / 10) as int).push(digit_char((n % 10) as int)));
        r
    }
}

} // verus!
