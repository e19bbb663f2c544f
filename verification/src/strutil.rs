//! Verified character-level string utilities: equality, decimal parsing,
//! substring search and trimming, used by the event classifier and by the
//! signing-material validation.

use vstd::prelude::*;

verus! {

/// Character-wise equality of two string slices.
pub fn str_eq(a: &str, b: &str) -> (r: bool)
    ensures
        r == (a@ == b@),
{
    let n = a.unicode_len();
    let m = b.unicode_len();
    if n != m {
        assert(a@.len() != b@.len());
        return false;
    }
    let mut i: usize = 0;
    #[verifier::loop_isolation(false)]
    while i < n
        invariant
            0 <= i <= n,
            forall|j: int| 0 <= j < i ==> a@[j] == b@[j],
        decreases n - i,
    {
        if a.get_char(i) != b.get_char(i) {
            return false;
        }
        i += 1;
    }
    assert(a@ =~= b@);
    true
}

/// Decimal parse, one digit at a time from position `i` with accumulator
/// `acc`: `None` on a non-digit or when the value leaves `u64`.
pub open spec fn parse_dec_from(s: Seq<char>, i: int, acc: u64) -> Option<u64>
    decreases s.len() - i,
{
    if i < 0 || i >= s.len() {
        Some(acc)
    } else if !(48 <= s[i] as int <= 57) {
        None
    } else {
        let v = acc * 10 + (s[i] as int - 48);
        if v > u64::MAX {
            None
        } else {
            parse_dec_from(s, i + 1, v as u64)
        }
    }
}

/// The value of a string of decimal digits; `None` when empty, on any
/// non-digit character, or on overflow of `u64`.
pub open spec fn parse_dec_spec(s: Seq<char>) -> Option<u64> {
    if s.len() == 0 {
        None
    } else {
        parse_dec_from(s, 0, 0)
    }
}

/// Parse an unsigned decimal number.
pub fn parse_u64_digits(s: &str) -> (r: Option<u64>)
    ensures
        r == parse_dec_spec(s@),
{
    let n = s.unicode_len();
    if n == 0 {
        return None;
    }
    let mut acc: u64 = 0;
    let mut i: usize = 0;
    #[verifier::loop_isolation(false)]
    while i < n
        invariant
            0 <= i <= n,
            parse_dec_from(s@, 0, 0) == parse_dec_from(s@, i as int, acc),
        decreases n - i,
    {
        let c = s.get_char(i);
        let cv = c as u32;
        if cv < 48 || cv > 57 {
            assert(parse_dec_from(s@, i as int, acc) is None);
            return None;
        }
        let d = (cv - 48) as u64;
        let wide: u128 = acc as u128 * 10 + d as u128;
        if wide > u64::MAX as u128 {
            assert(parse_dec_from(s@, i as int, acc) is None);
            return None;
        }
        acc = wide as u64;
        i += 1;
    }
    Some(acc)
}

/// `needle` occurs contiguously somewhere in `hay`.
pub open spec fn contains_seq(hay: Seq<char>, needle: Seq<char>) -> bool {
    exists|i: int|
        0 <= i <= hay.len() - needle.len() && #[trigger] hay.subrange(i, i + needle.len())
            == needle
}

/// Substring search.
pub fn contains_substr(hay: &str, needle: &str) -> (r: bool)
    ensures
        r == contains_seq(hay@, needle@),
{
    let hn = hay.unicode_len();
    let nn = needle.unicode_len();
    if nn > hn {
        return false;
    }
    if nn == 0 {
        assert(contains_seq(hay@, needle@)) by {
            assert(hay@.subrange(0, 0 + needle@.len() as int) =~= needle@);
        }
        return true;
    }
    let mut i: usize = 0;
    #[verifier::loop_isolation(false)]
    while i <= hn - nn
        invariant
            0 <= i <= hn - nn + 1,
            0 < nn <= hn,
            forall|j: int| 0 <= j < i ==> #[trigger] hay@.subrange(j, j + nn) != needle@,
        decreases hn - nn + 1 - i,
    {
        let mut k: usize = 0;
        let mut mismatch = false;
        #[verifier::loop_isolation(false)]
        while k < nn
            invariant
                0 <= k <= nn,
                i + nn <= hn,
                !mismatch ==> forall|l: int| 0 <= l < k ==> hay@[i + l] == needle@[l],
                mismatch ==> hay@.subrange(i as int, i + nn) != needle@,
            decreases nn - k,
        {
            if hay.get_char(i + k) != needle.get_char(k) {
                proof {
                    assert(hay@.subrange(i as int, i + nn)[k as int] == hay@[i + k]);
                }
                mismatch = true;
            }
            k += 1;
        }
        if !mismatch {
            assert(hay@.subrange(i as int, i + nn) =~= needle@);
            return true;
        }
        i += 1;
    }
    assert(forall|j: int|
        0 <= j <= hn - nn ==> #[trigger] hay@.subrange(j, j + nn) != needle@);
    false
}

/// Classes of characters stripped from the ends of configured key material.
#[derive(Copy, Clone, Debug, PartialEq, Eq, Structural)]
pub enum TrimClass {
    DoubleQuote,
    SingleQuote,
    Whitespace,
}

/// Membership in a trim class; whitespace covers the ASCII blank characters.
pub open spec fn in_trim_class(class: TrimClass, c: char) -> bool {
    match class {
        TrimClass::DoubleQuote => c == '"',
        TrimClass::SingleQuote => c == '\'',
        TrimClass::Whitespace => {
            let v = c as int;
            v == 32 || (9 <= v <= 13)
        },
    }
}

fn char_in_class(c: char, class: TrimClass) -> (r: bool)
    ensures
        r == in_trim_class(class, c),
{
    match class {
        TrimClass::DoubleQuote => c == '"',
        TrimClass::SingleQuote => c == '\'',
        TrimClass::Whitespace => {
            let v = c as u32;
            v == 32 || (9 <= v && v <= 13)
        },
    }
}

/// Drop every leading character of the class.
pub open spec fn strip_leading(s: Seq<char>, class: TrimClass) -> Seq<char>
    decreases s.len(),
{
    if s.len() > 0 && in_trim_class(class, s[0]) {
        strip_leading(s.drop_first(), class)
    } else {
        s
    }
}

/// Drop every trailing character of the class.
pub open spec fn strip_trailing(s: Seq<char>, class: TrimClass) -> Seq<char>
    decreases s.len(),
{
    if s.len() > 0 && in_trim_class(class, s.last()) {
        strip_trailing(s.drop_last(), class)
    } else {
        s
    }
}

/// Both ends stripped.
pub open spec fn trim_spec(s: Seq<char>, class: TrimClass) -> Seq<char> {
    strip_trailing(strip_leading(s, class), class)
}

proof fn lemma_strip_leading_at(s: Seq<char>, class: TrimClass, k: int)
    requires
        0 <= k <= s.len(),
        forall|j: int| 0 <= j < k ==> in_trim_class(class, s[j]),
        k < s.len() ==> !in_trim_class(class, s[k]),
    ensures
        strip_leading(s, class) =~= s.subrange(k, s.len() as int),
    decreases k,
{
    if k == 0 {
        if s.len() > 0 && in_trim_class(class, s[0]) {
            assert(false);
        }
        assert(s.subrange(0, s.len() as int) =~= s);
    } else {
        assert(in_trim_class(class, s[0]));
        lemma_strip_leading_at(s.drop_first(), class, k - 1);
        assert(s.drop_first().subrange(k - 1, s.drop_first().len() as int) =~= s.subrange(
            k,
            s.len() as int,
        ));
    }
}

proof fn lemma_strip_trailing_at(s: Seq<char>, class: TrimClass, k: int)
    requires
        0 <= k <= s.len(),
        forall|j: int| k <= j < s.len() ==> in_trim_class(class, s[j]),
        k > 0 ==> !in_trim_class(class, s[k - 1]),
    ensures
        strip_trailing(s, class) =~= s.subrange(0, k),
    decreases s.len() - k,
{
    if k == s.len() {
        if s.len() > 0 && in_trim_class(class, s.last()) {
            assert(false);
        }
        assert(s.subrange(0, s.len() as int) =~= s);
    } else {
        assert(in_trim_class(class, s.last()));
        lemma_strip_trailing_at(s.drop_last(), class, k);
        assert(s.drop_last().subrange(0, k) =~= s.subrange(0, k));
    }
}

/// Strip every leading and trailing character of the class.
pub fn trim_class<'a>(s: &'a str, class: TrimClass) -> (r: &'a str)
    ensures
        r@ == trim_spec(s@, class),
{
    let n = s.unicode_len();
    let mut start: usize = 0;
    #[verifier::loop_isolation(false)]
    while start < n && char_in_class(s.get_char(start), class)
        invariant
            0 <= start <= n,
            forall|j: int| 0 <= j < start ==> in_trim_class(class, s@[j]),
        decreases n - start,
    {
        start += 1;
    }
    proof {
        lemma_strip_leading_at(s@, class, start as int);
    }
    let ghost mid = s@.subrange(start as int, n as int);
    let mut end: usize = n;
    #[verifier::loop_isolation(false)]
    while end > start && char_in_class(s.get_char(end - 1), class)
        invariant
            start <= end <= n,
            forall|j: int| end <= j < n ==> in_trim_class(class, s@[j]),
        decreases end,
    {
        end -= 1;
    }
    proof {
        assert(forall|j: int|
            end - start <= j < mid.len() ==> in_trim_class(class, mid[j]));
        if end > start {
            assert(mid[end - start - 1] == s@[end - 1]);
        }
        lemma_strip_trailing_at(mid, class, end - start);
        assert(mid.subrange(0, end - start) =~= s@.subrange(start as int, end as int));
    }
    s.substring_char(start, end)
}

/// Stripping applied to configured secret-key material before validation:
/// surrounding double quotes, then single quotes, then blanks.
pub open spec fn clean_key_spec(s: Seq<char>) -> Seq<char> {
    trim_spec(
        trim_spec(trim_spec(s, TrimClass::DoubleQuote), TrimClass::SingleQuote),
        TrimClass::Whitespace,
    )
}

/// Strip quoting and blanks from configured secret-key material.
pub fn clean_secret_key(s: &str) -> (r: String)
    ensures
        r@ == clean_key_spec(s@),
{
    let a = trim_class(s, TrimClass::DoubleQuote);
    let b = trim_class(a, TrimClass::SingleQuote);
    let c = trim_class(b, TrimClass::Whitespace);
    String::from_str(c)
}

/// Faults of configured signing material, found before any network call.
#[derive(Copy, Clone, Debug, PartialEq, Eq, Structural)]
pub enum KeyMaterialError {
    MissingKeyPrefix,
    WrongKeyLength,
}

/// A well-formed secret key starts with 'S' and is exactly 56 characters.
pub open spec fn valid_secret_key(s: Seq<char>) -> bool {
    s.len() == 56 && s[0] == 'S'
}

/// Validate already-cleaned secret-key material, failing fast with the fault.
pub fn validate_secret_key(s: &str) -> (r: Result<(), KeyMaterialError>)
    ensures
        r is Ok <==> valid_secret_key(s@),
        r == Err::<(), KeyMaterialError>(KeyMaterialError::MissingKeyPrefix) <==> !(s@.len() > 0
            && s@[0] == 'S'),
        r == Err::<(), KeyMaterialError>(KeyMaterialError::WrongKeyLength) <==> (s@.len() > 0
            && s@[0] == 'S' && s@.len() != 56),
{
    let n = s.unicode_len();
    if n == 0 || s.get_char(0) != 'S' {
        return Err(KeyMaterialError::MissingKeyPrefix);
    }
    if n != 56 {
        return Err(KeyMaterialError::WrongKeyLength);
    }
    Ok(())
}

} // verus!
