use vstd::prelude::*;
use vstd::string::*;

verus! {

/// Whether `c` is a decimal digit.
pub open spec fn is_digit(c: char) -> bool {
    '0' <= c && c <= '9'
}

/// The numeric value of a digit.
pub open spec fn digit_val(c: char) -> int {
    c as int - '0' as int
}

/// Two string slices hold the same characters.
pub fn str_eq(a: &str, b: &str) -> (r: bool)
    ensures
        r == (a@ == b@),
{
    let na = a.unicode_len();
    let nb = b.unicode_len();
    if na != nb {
        proof {
            assert(a@.len() != b@.len());
        }
        return false;
    }
    let mut i: usize = 0;
    while i < na
        invariant
            i <= na,
            na == a@.len(),
            na == b@.len(),
            forall|j: int| 0 <= j < i ==> a@[j] == b@[j],
        decreases na - i,
    {
        if a.get_char(i) != b.get_char(i) {
            proof {
                assert(a@[i as int] != b@[i as int]);
            }
            return false;
        }
        i = i + 1;
    }
    proof {
        assert(a@ =~= b@);
    }
    true
}

/// An integer literal: only digits and grouping separators, and at least
/// one digit.
pub open spec fn is_int_text(s: Seq<char>) -> bool {
    &&& forall|i: int| 0 <= i < s.len() ==> (is_digit(#[trigger] s[i]) || s[i] == '_')
    &&& exists|i: int| 0 <= i < s.len() && is_digit(#[trigger] s[i])
}

/// The value of the digits of `s` read left to right, grouping separators
/// skipped.
pub open spec fn int_val(s: Seq<char>) -> int
    decreases s.len(),
{
    if s.len() == 0 {
        0
    } else {
        let prefix = int_val(s.subrange(0, s.len() - 1));
        let c = s[s.len() - 1];
        if is_digit(c) {
            prefix * 10 + digit_val(c)
        } else {
            prefix
        }
    }
}

/// A literal's value is never negative.
pub proof fn lemma_int_val_nonneg(s: Seq<char>)
    ensures
        int_val(s) >= 0,
    decreases s.len(),
{
    if s.len() > 0 {
        lemma_int_val_nonneg(s.subrange(0, s.len() - 1));
    }
}

/// Extending a literal to the right never decreases its value.
pub proof fn lemma_int_val_prefix(s: Seq<char>, i: int)
    requires
        0 <= i <= s.len(),
    ensures
        int_val(s.subrange(0, i)) <= int_val(s),
    decreases s.len() - i,
{
    if i == s.len() {
        assert(s.subrange(0, i) =~= s);
    } else {
        lemma_int_val_prefix(s, i + 1);
        let t = s.subrange(0, i + 1);
        assert(t.subrange(0, t.len() - 1) =~= s.subrange(0, i));
        lemma_int_val_nonneg(s.subrange(0, i));
    }
}

/// Parse an integer literal. Returns its value when the text is a valid
/// integer literal whose value fits in `isize`, and nothing otherwise.
pub fn parse_int_text(text: &str) -> (r: Option<isize>)
    ensures
        match r {
            Some(v) => is_int_text(text@) && v == int_val(text@) && int_val(text@) <= isize::MAX,
            None => !is_int_text(text@) || int_val(text@) > isize::MAX,
        },
{
    let n = text.unicode_len();
    let mut val: isize = 0;
    let mut seen_digit = false;
    let mut i: usize = 0;
    while i < n
        invariant
            i <= n,
            n == text@.len(),
            0 <= val,
            val == int_val(text@.subrange(0, i as int)),
            seen_digit == exists|j: int| 0 <= j < i && is_digit(#[trigger] text@[j]),
            forall|j: int| 0 <= j < i ==> (is_digit(#[trigger] text@[j]) || text@[j] == '_'),
        decreases n - i,
    {
        let c = text.get_char(i);
        let ghost prefix = text@.subrange(0, i as int);
        let ghost next_prefix = text@.subrange(0, i + 1 as int);
        proof {
            assert(next_prefix.subrange(0, next_prefix.len() - 1) =~= prefix);
            assert(next_prefix[next_prefix.len() - 1] == text@[i as int]);
        }
        if c == '_' {
            i = i + 1;
        } else if '0' <= c && c <= '9' {
            let d = (c as u32 as isize) - ('0' as u32 as isize);
            assert(0 <= d <= 9);
            if val > (isize::MAX - d) / 10 {
                proof {
                    assert(val * 10 + d > isize::MAX) by (nonlinear_arith)
                        requires
                            val > (isize::MAX - d) / 10,
                            0 <= d <= 9,
                            0 <= val,
                    ;
                    lemma_int_val_prefix(text@, i + 1);
                }
                return None;
            }
            proof {
                assert(val * 10 + d <= isize::MAX) by (nonlinear_arith)
                    requires
                        val <= (isize::MAX - d) / 10,
                        0 <= d <= 9,
                        0 <= val,
                ;
            }
            val = val * 10 + d;
            seen_digit = true;
            i = i + 1;
        } else {
            return None;
        }
    }
    proof {
        assert(text@.subrange(0, n as int) =~= text@);
    }
    if seen_digit {
        Some(val)
    } else {
        None
    }
}

/// How many decimal points the text holds.
pub open spec fn dot_count(s: Seq<char>) -> int
    decreases s.len(),
{
    if s.len() == 0 {
        0
    } else {
        dot_count(s.subrange(0, s.len() - 1)) + if s[s.len() - 1] == '.' {
            1int
        } else {
            0int
        }
    }
}

/// A float literal: digits, grouping separators and exactly one decimal
/// point, with at least one digit.
pub open spec fn is_float_text(s: Seq<char>) -> bool {
    &&& forall|i: int|
        0 <= i < s.len() ==> (is_digit(#[trigger] s[i]) || s[i] == '_' || s[i] == '.')
    &&& dot_count(s) == 1
    &&& exists|i: int| 0 <= i < s.len() && is_digit(#[trigger] s[i])
}

/// Whether the text holds a decimal point. Number literals with a point
/// are classified as floats, all others as integers.
pub fn has_dot(text: &str) -> (r: bool)
    ensures
        r == (dot_count(text@) > 0),
{
    let n = text.unicode_len();
    let mut i: usize = 0;
    while i < n
        invariant
            i <= n,
            n == text@.len(),
            dot_count(text@.subrange(0, i as int)) == 0,
        decreases n - i,
    {
        let ghost prefix = text@.subrange(0, i as int);
        let ghost next_prefix = text@.subrange(0, i + 1 as int);
        proof {
            assert(next_prefix.subrange(0, next_prefix.len() - 1) =~= prefix);
            lemma_dot_count_prefix(text@, i + 1);
        }
        if text.get_char(i) == '.' {
            return true;
        }
        i = i + 1;
    }
    proof {
        assert(text@.subrange(0, n as int) =~= text@);
    }
    false
}

/// A text holds at least as many decimal points as any of its prefixes.
pub proof fn lemma_dot_count_prefix(s: Seq<char>, i: int)
    requires
        0 <= i <= s.len(),
    ensures
        dot_count(s.subrange(0, i)) <= dot_count(s),
    decreases s.len() - i,
{
    if i == s.len() {
        assert(s.subrange(0, i) =~= s);
    } else {
        lemma_dot_count_prefix(s, i + 1);
        let t = s.subrange(0, i + 1);
        assert(t.subrange(0, t.len() - 1) =~= s.subrange(0, i));
    }
}

/// Whether the text is a valid float literal.
pub fn check_float_text(text: &str) -> (r: bool)
    ensures
        r == is_float_text(text@),
{
    let n = text.unicode_len();
    let mut dots: usize = 0;
    let mut seen_digit = false;
    let mut i: usize = 0;
    while i < n
        invariant
            i <= n,
            n == text@.len(),
            dots <= i,
            dots == dot_count(text@.subrange(0, i as int)),
            seen_digit == exists|j: int| 0 <= j < i && is_digit(#[trigger] text@[j]),
            forall|j: int|
                0 <= j < i ==> (is_digit(#[trigger] text@[j]) || text@[j] == '_' || text@[j]
                    == '.'),
        decreases n - i,
    {
        let c = text.get_char(i);
        let ghost prefix = text@.subrange(0, i as int);
        let ghost next_prefix = text@.subrange(0, i + 1 as int);
        proof {
            assert(next_prefix.subrange(0, next_prefix.len() - 1) =~= prefix);
            assert(next_prefix[next_prefix.len() - 1] == text@[i as int]);
        }
        if c == '.' {
            dots = dots + 1;
        } else if '0' <= c && c <= '9' {
            seen_digit = true;
        } else if c != '_' {
            return false;
        }
        i = i + 1;
    }
    proof {
        assert(text@.subrange(0, n as int) =~= text@);
    }
    dots == 1 && seen_digit
}

} // verus!
