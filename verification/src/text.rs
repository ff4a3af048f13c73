//! Verified text utilities for the line-oriented bytecode grammar:
//! splitting on a separator character, trimming surrounding whitespace,
//! and reading signed 64-bit integer literals.

use vstd::prelude::*;
use vstd::string::*;

verus! {

/// Whitespace for the purposes of trimming and blank-line detection.
pub open spec fn is_space_char(c: char) -> bool {
    c == ' ' || c == '\t' || c == '\r' || c == '\n'
}

/// Executable counterpart of [`is_space_char`].
pub fn is_space(c: char) -> (r: bool)
    ensures
        r == is_space_char(c),
{
    c == ' ' || c == '\t' || c == '\r' || c == '\n'
}

/// Splitting a sequence on every occurrence of `c`; the result always has at
/// least one part, and the parts joined by `c` give back the sequence.
pub open spec fn split_on(s: Seq<char>, c: char) -> Seq<Seq<char>>
    decreases s.len(),
{
    if s.len() == 0 {
        seq![Seq::<char>::empty()]
    } else {
        let rest = split_on(s.drop_first(), c);
        if s[0] == c {
            seq![Seq::<char>::empty()] + rest
        } else {
            seq![seq![s[0]] + rest[0]] + rest.drop_first()
        }
    }
}

pub proof fn lemma_split_on_nonempty(s: Seq<char>, c: char)
    ensures
        split_on(s, c).len() >= 1,
    decreases s.len(),
{
    if s.len() > 0 {
        lemma_split_on_nonempty(s.drop_first(), c);
    }
}

/// When no separator occurs, the split is the whole sequence as one part.
pub proof fn lemma_split_on_no_sep(s: Seq<char>, c: char)
    requires
        forall|j: int| 0 <= j < s.len() ==> s[j] != c,
    ensures
        split_on(s, c) =~~= seq![s],
    decreases s.len(),
{
    if s.len() == 0 {
        assert(split_on(s, c) =~~= seq![s]);
    } else {
        lemma_split_on_no_sep(s.drop_first(), c);
        lemma_split_on_nonempty(s.drop_first(), c);
        assert(seq![s[0]] + s.drop_first() =~= s);
        assert(split_on(s, c) =~~= seq![s]);
    }
}

/// When the first separator stands at position `k`, the split is the prefix
/// before it followed by the split of what comes after it.
pub proof fn lemma_split_on_first_sep(s: Seq<char>, c: char, k: int)
    requires
        0 <= k < s.len(),
        s[k] == c,
        forall|j: int| 0 <= j < k ==> s[j] != c,
    ensures
        split_on(s, c) =~~= seq![s.take(k)] + split_on(s.skip(k + 1), c),
    decreases s.len(),
{
    if k == 0 {
        assert(s.take(0) =~= Seq::<char>::empty());
        assert(s.skip(1) =~= s.drop_first());
        assert(split_on(s, c) =~~= seq![s.take(0)] + split_on(s.skip(1), c));
    } else {
        let t = s.drop_first();
        assert(forall|j: int| 0 <= j < k - 1 ==> t[j] != c);
        assert(t[k - 1] == c);
        lemma_split_on_first_sep(t, c, k - 1);
        lemma_split_on_nonempty(t.skip(k), c);
        assert(t.take(k - 1) =~= s.take(k).drop_first());
        assert(seq![s[0]] + t.take(k - 1) =~= s.take(k));
        assert(t.skip(k) =~= s.skip(k + 1));
        assert((seq![t.take(k - 1)] + split_on(t.skip(k), c)).drop_first() =~~= split_on(
            t.skip(k),
            c,
        ));
        assert(split_on(s, c) =~~= seq![s.take(k)] + split_on(s.skip(k + 1), c));
    }
}

/// The views of a sequence of owned strings.
pub open spec fn views_of(v: Seq<String>) -> Seq<Seq<char>> {
    v.map_values(|p: String| p@)
}

/// Splits `s` on every occurrence of `c`, as [`split_on`] describes.
pub fn split_str(s: &str, c: char) -> (parts: Vec<String>)
    ensures
        views_of(parts@) == split_on(s@, c),
{
    let len = s.unicode_len();
    let mut parts: Vec<String> = Vec::new();
    let mut start: usize = 0;
    let mut i: usize = 0;
    proof {
        assert(s@.skip(0) =~= s@);
        assert(views_of(Seq::<String>::empty()) =~~= Seq::<Seq<char>>::empty());
    }
    while i < len
        invariant
            start <= i <= len,
            len == s@.len(),
            forall|j: int| start <= j < i ==> s@[j] != c,
            split_on(s@, c) =~~= views_of(parts@) + split_on(s@.skip(start as int), c),
        decreases len - i,
    {
        if s.get_char(i) == c {
            let piece = String::from_str(s.substring_char(start, i));
            proof {
                let t = s@.skip(start as int);
                assert(t[i - start] == s@[i as int]);
                assert(forall|j: int| 0 <= j < i - start ==> t[j] == s@[#[trigger] (j + start)]);
                lemma_split_on_first_sep(t, c, i - start);
                assert(t.take(i - start) =~= s@.subrange(start as int, i as int));
                assert(t.skip(i - start + 1) =~= s@.skip(i + 1));
                assert(views_of(parts@.push(piece)) =~~= views_of(parts@) + seq![piece@]);
            }
            parts.push(piece);
            start = i + 1;
        }
        i += 1;
    }
    let piece = String::from_str(s.substring_char(start, len));
    proof {
        let t = s@.skip(start as int);
        assert(forall|j: int| 0 <= j < t.len() ==> t[j] == s@[#[trigger] (j + start)]);
        lemma_split_on_no_sep(t, c);
        assert(t =~= s@.subrange(start as int, len as int));
        assert(views_of(parts@.push(piece)) =~~= views_of(parts@) + seq![piece@]);
    }
    parts.push(piece);
    proof {
        assert(views_of(parts@) =~~= split_on(s@, c));
    }
    parts
}

/// The sequence with leading whitespace removed.
pub open spec fn trim_front(s: Seq<char>) -> Seq<char>
    decreases s.len(),
{
    if s.len() > 0 && is_space_char(s[0]) {
        trim_front(s.drop_first())
    } else {
        s
    }
}

/// The sequence with trailing whitespace removed.
pub open spec fn trim_back(s: Seq<char>) -> Seq<char>
    decreases s.len(),
{
    if s.len() > 0 && is_space_char(s.last()) {
        trim_back(s.drop_last())
    } else {
        s
    }
}

/// The sequence with surrounding whitespace removed.
pub open spec fn trimmed(s: Seq<char>) -> Seq<char> {
    trim_back(trim_front(s))
}

/// Removes surrounding whitespace, as [`trimmed`] describes.
pub fn trim_str(s: &str) -> (r: String)
    ensures
        r@ == trimmed(s@),
{
    let len = s.unicode_len();
    let mut a: usize = 0;
    proof {
        assert(s@.skip(0) =~= s@);
    }
    while a < len && is_space(s.get_char(a))
        invariant
            a <= len,
            len == s@.len(),
            trim_front(s@) == trim_front(s@.skip(a as int)),
        decreases len - a,
    {
        proof {
            let t = s@.skip(a as int);
            assert(t[0] == s@[a as int]);
            assert(t.drop_first() =~= s@.skip(a + 1));
        }
        a += 1;
    }
    proof {
        let t = s@.skip(a as int);
        if a < len {
            assert(t[0] == s@[a as int]);
        }
        assert(trim_front(s@) == t);
    }
    let mut b: usize = len;
    while b > a && is_space(s.get_char(b - 1))
        invariant
            a <= b <= len,
            len == s@.len(),
            trim_front(s@) == s@.skip(a as int),
            trim_back(s@.skip(a as int)) == trim_back(s@.subrange(a as int, b as int)),
        decreases b,
    {
        proof {
            let u = s@.subrange(a as int, b as int);
            assert(u.last() == s@[b - 1]);
            assert(u.drop_last() =~= s@.subrange(a as int, b - 1));
        }
        b -= 1;
    }
    proof {
        let u = s@.subrange(a as int, b as int);
        if b > a {
            assert(u.last() == s@[b - 1]);
        } else {
            assert(u.len() == 0);
        }
        assert(trim_back(u) == u);
        assert(s@.skip(a as int) =~= s@.subrange(a as int, len as int));
    }
    String::from_str(s.substring_char(a, b))
}

/// The token with a single pair of surrounding single-quote characters
/// removed, when both are present; otherwise the token unchanged.
pub open spec fn literal_strip(s: Seq<char>) -> Seq<char> {
    if s.len() >= 2 && s[0] == '\'' && s.last() == '\'' {
        s.subrange(1, s.len() - 1)
    } else {
        s
    }
}

/// Whether `c` is a decimal digit.
pub open spec fn is_digit(c: char) -> bool {
    48 <= c as int <= 57
}

/// The numeric value of a digit character.
pub open spec fn digit_val(c: char) -> int {
    c as int - 48
}

/// Whether `s` is one or more decimal digits.
pub open spec fn all_digits(s: Seq<char>) -> bool {
    s.len() > 0 && forall|j: int| 0 <= j < s.len() ==> is_digit(s[j])
}

/// The number denoted by a digit sequence, most significant digit first.
pub open spec fn digits_val(s: Seq<char>) -> int
    decreases s.len(),
{
    if s.len() == 0 {
        0
    } else {
        digits_val(s.drop_last()) * 10 + digit_val(s.last())
    }
}

/// Whether `s` is an optionally signed run of decimal digits.
pub open spec fn is_int_literal(s: Seq<char>) -> bool {
    if s.len() > 0 && (s[0] == '+' || s[0] == '-') {
        all_digits(s.drop_first())
    } else {
        all_digits(s)
    }
}

/// The signed value denoted by an integer literal.
pub open spec fn int_literal_val(s: Seq<char>) -> int {
    if s.len() > 0 && s[0] == '-' {
        -digits_val(s.drop_first())
    } else if s.len() > 0 && s[0] == '+' {
        digits_val(s.drop_first())
    } else {
        digits_val(s)
    }
}

/// Whether `s` denotes a value representable as an `i64`.
pub open spec fn parses_as_i64(s: Seq<char>) -> bool {
    is_int_literal(s) && i64::MIN <= int_literal_val(s) <= i64::MAX
}

pub proof fn lemma_digits_val_nonneg(s: Seq<char>)
    requires
        forall|j: int| 0 <= j < s.len() ==> is_digit(s[j]),
    ensures
        digits_val(s) >= 0,
    decreases s.len(),
{
    if s.len() > 0 {
        assert(forall|j: int| 0 <= j < s.len() - 1 ==> is_digit(s.drop_last()[j]));
        lemma_digits_val_nonneg(s.drop_last());
    }
}

/// A digit sequence denotes at least as much as any of its prefixes.
pub proof fn lemma_digits_val_prefix_le(s: Seq<char>, k: int)
    requires
        0 <= k <= s.len(),
        forall|j: int| 0 <= j < s.len() ==> is_digit(s[j]),
    ensures
        digits_val(s.take(k)) <= digits_val(s),
    decreases s.len(),
{
    if k == s.len() {
        assert(s.take(k) =~= s);
    } else {
        assert(forall|j: int| 0 <= j < s.len() - 1 ==> is_digit(s.drop_last()[j]));
        lemma_digits_val_prefix_le(s.drop_last(), k);
        assert(s.drop_last().take(k) =~= s.take(k));
        lemma_digits_val_nonneg(s.drop_last());
    }
}

/// Reads an optionally signed decimal integer, exactly when
/// [`parses_as_i64`] holds of the text.
pub fn parse_i64_str(s: &str) -> (r: Option<i64>)
    ensures
        match r {
            Some(v) => parses_as_i64(s@) && v as int == int_literal_val(s@),
            None => !parses_as_i64(s@),
        },
{
    let len = s.unicode_len();
    if len == 0 {
        return None;
    }
    let c0 = s.get_char(0);
    let signed = c0 == '-' || c0 == '+';
    let neg = c0 == '-';
    let start: usize = if signed {
        1
    } else {
        0
    };
    if start == len {
        return None;
    }
    let ghost digits: Seq<char> = if signed {
        s@.drop_first()
    } else {
        s@
    };
    proof {
        assert(digits.len() == len - start);
        assert(forall|j: int|
            0 <= j < digits.len() ==> digits[j] == s@[#[trigger] (j + start)]);
    }
    let mut acc: i128 = 0;
    let mut i: usize = start;
    while i < len
        invariant
            start <= i <= len,
            len == s@.len(),
            start <= 1,
            digits == (if signed {
                s@.drop_first()
            } else {
                s@
            }),
            signed == (s@[0] == '-' || s@[0] == '+'),
            digits.len() == len - start,
            forall|j: int| 0 <= j < digits.len() ==> digits[j] == s@[#[trigger] (j + start)],
            forall|j: int| 0 <= j < i - start ==> is_digit(digits[j]),
            acc == digits_val(digits.take(i - start)),
            0 <= acc <= 0x8000_0000_0000_0000,
        decreases len - i,
    {
        let c = s.get_char(i);
        let d = c as u32;
        if d < 48 || d > 57 {
            proof {
                assert(!is_digit(digits[i - start]));
                assert(!all_digits(digits));
            }
            return None;
        }
        proof {
            assert(is_digit(digits[i - start]));
            assert(digits.take(i - start + 1).drop_last() =~= digits.take(i - start));
            assert(digits.take(i - start + 1).last() == digits[i - start]);
            assert(digit_val(digits[i - start]) == d - 48);
        }
        acc = acc * 10 + ((d - 48) as i128);
        i += 1;
        if acc > 0x8000_0000_0000_0000i128 {
            proof {
                if is_int_literal(s@) {
                    assert(all_digits(digits));
                    lemma_digits_val_prefix_le(digits, i - start);
                    assert(digits_val(digits) >= acc);
                    assert(int_literal_val(s@) > i64::MAX || int_literal_val(s@) < i64::MIN);
                }
            }
            return None;
        }
    }
    proof {
        assert(digits.take(len - start) =~= digits);
        assert(all_digits(digits));
        assert(acc == digits_val(digits));
    }
    if neg {
        proof {
            assert(int_literal_val(s@) == -acc);
        }
        Some((-acc) as i64)
    } else if acc >= 0x8000_0000_0000_0000i128 {
        proof {
            assert(int_literal_val(s@) == acc);
        }
        None
    } else {
        proof {
            assert(int_literal_val(s@) == acc);
        }
        Some(acc as i64)
    }
}

/// Character-for-character equality of two string slices.
pub fn str_eq(a: &str, b: &str) -> (r: bool)
    ensures
        r == (a@ == b@),
{
    let la = a.unicode_len();
    let lb = b.unicode_len();
    if la != lb {
        return false;
    }
    let mut i: usize = 0;
    while i < la
        invariant
            i <= la,
            la == a@.len(),
            la == b@.len(),
            forall|j: int| 0 <= j < i ==> a@[j] == b@[j],
        decreases la - i,
    {
        if a.get_char(i) != b.get_char(i) {
            return false;
        }
        i += 1;
    }
    proof {
        assert(a@ =~= b@);
    }
    true
}

} // verus!
