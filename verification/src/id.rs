//! The canonical `<number>[-<slug>]` post identifier and its codec.
use vstd::prelude::*;

verus! {

use vstd::string::StrSliceExecFns;
use vstd::string::StringExecFns;

/// The reasons an identifier string is rejected.
#[derive(Clone, Copy, Debug, PartialEq, Eq, Structural)]
pub enum PostIdError {
    ParseNumberFailed,
    InvalidFormat,
    Missing,
    Unknown,
}

/// A post identifier: a non-negative number and an optional slug.
#[derive(Clone, Debug)]
pub struct PostId {
    pub number: usize,
    pub slug: String,
}

impl PartialEq for PostId {
    fn eq(&self, other: &PostId) -> (r: bool) {
        self.number == other.number && self.slug == other.slug
    }
}

impl vstd::std_specs::cmp::PartialEqSpecImpl for PostId {
    open spec fn obeys_eq_spec() -> bool {
        true
    }

    open spec fn eq_spec(&self, other: &PostId) -> bool {
        self.number == other.number && self.slug@ == other.slug@
    }
}

/// A decimal digit.
pub open spec fn is_digit(c: char) -> bool {
    '0' <= c && c <= '9'
}

/// The numeric value of a decimal digit character.
pub open spec fn digit_val(c: char) -> nat {
    (c as int - '0' as int) as nat
}

/// The character of a decimal digit value.
pub open spec fn digit_char(d: nat) -> char {
    if d == 0 {
        '0'
    } else if d == 1 {
        '1'
    } else if d == 2 {
        '2'
    } else if d == 3 {
        '3'
    } else if d == 4 {
        '4'
    } else if d == 5 {
        '5'
    } else if d == 6 {
        '6'
    } else if d == 7 {
        '7'
    } else if d == 8 {
        '8'
    } else {
        '9'
    }
}

/// A slug character: lower-case letter, digit, `-` or `_`.
pub open spec fn is_slug_char(c: char) -> bool {
    ('a' <= c && c <= 'z') || is_digit(c) || c == '-' || c == '_'
}

/// Every character is a slug character.
pub open spec fn valid_slug(s: Seq<char>) -> bool {
    forall|i: int| 0 <= i < s.len() ==> is_slug_char(#[trigger] s[i])
}

/// The numeric value of a string of decimal digits.
pub open spec fn digits_val(s: Seq<char>) -> nat
    decreases s.len(),
{
    if s.len() == 0 {
        0
    } else {
        digits_val(s.drop_last()) * 10 + digit_val(s.last())
    }
}

/// The decimal digit string of `n`, most significant digit first.
pub open spec fn dec_digits(n: nat) -> Seq<char>
    decreases n,
{
    if n < 10 {
        seq![digit_char(n)]
    } else {
        dec_digits(n / 10).push(digit_char(n % 10))
    }
}

/// The length of the maximal leading run of decimal digits.
pub open spec fn digit_prefix_len(s: Seq<char>) -> nat
    decreases s.len(),
{
    if s.len() > 0 && is_digit(s[0]) {
        (1 + digit_prefix_len(s.drop_first())) as nat
    } else {
        0
    }
}

/// What parsing an identifier string yields: the number and the slug,
/// or the reason the string is rejected. The accepted strings are
/// exactly those of the shape `<digits>` or `<digits>-<slug chars>`,
/// and a digit run whose value does not fit the machine word is
/// rejected as a number-parse failure.
pub open spec fn spec_parse(s: Seq<char>) -> Result<(nat, Seq<char>), PostIdError> {
    let k = digit_prefix_len(s) as int;
    if k == 0 {
        Err(PostIdError::InvalidFormat)
    } else if k == s.len() {
        if digits_val(s) <= usize::MAX as nat {
            Ok((digits_val(s), Seq::empty()))
        } else {
            Err(PostIdError::ParseNumberFailed)
        }
    } else if s[k] == '-' && valid_slug(s.subrange(k + 1, s.len() as int)) {
        if digits_val(s.subrange(0, k)) <= usize::MAX as nat {
            Ok((digits_val(s.subrange(0, k)), s.subrange(k + 1, s.len() as int)))
        } else {
            Err(PostIdError::ParseNumberFailed)
        }
    } else {
        Err(PostIdError::InvalidFormat)
    }
}

/// The canonical text of an identifier: the number alone when the slug
/// is empty, else `<number>-<slug>`.
pub open spec fn spec_format(id: PostId) -> Seq<char> {
    if id.slug@.len() == 0 {
        dec_digits(id.number as nat)
    } else {
        dec_digits(id.number as nat) + seq!['-'] + id.slug@
    }
}

pub(crate) fn char_digit(c: char) -> (r: Option<usize>)
    ensures
        r == if is_digit(c) {
            Some(digit_val(c) as usize)
        } else {
            None::<usize>
        },
{
    match c {
        '0' => Some(0),
        '1' => Some(1),
        '2' => Some(2),
        '3' => Some(3),
        '4' => Some(4),
        '5' => Some(5),
        '6' => Some(6),
        '7' => Some(7),
        '8' => Some(8),
        '9' => Some(9),
        _ => None,
    }
}

fn char_is_slug(c: char) -> (r: bool)
    ensures
        r == is_slug_char(c),
{
    let u = c as u32;
    (97 <= u && u <= 122) || (48 <= u && u <= 57) || u == 45 || u == 95
}

proof fn lemma_digit_prefix(s: Seq<char>, k: int)
    requires
        0 <= k <= s.len(),
        forall|i: int| 0 <= i < k ==> is_digit(#[trigger] s[i]),
        k < s.len() ==> !is_digit(s[k]),
    ensures
        digit_prefix_len(s) == k,
    decreases s.len(),
{
    if s.len() > 0 && is_digit(s[0]) {
        assert(k >= 1) by {
            assert(0 < s.len());
        }
        let t = s.drop_first();
        assert(forall|i: int| 0 <= i < k - 1 ==> is_digit(#[trigger] t[i]));
        lemma_digit_prefix(t, k - 1);
    }
}

proof fn lemma_digits_val_step(s: Seq<char>, i: int)
    requires
        0 <= i < s.len(),
    ensures
        digits_val(s.subrange(0, i + 1)) == digits_val(s.subrange(0, i)) * 10 + digit_val(s[i]),
{
    let a = s.subrange(0, i + 1);
    assert(a.drop_last() =~= s.subrange(0, i));
    assert(a.last() == s[i]);
}

proof fn lemma_digits_val_mono(s: Seq<char>, j: int, k: int)
    requires
        0 <= j <= k <= s.len(),
    ensures
        digits_val(s.subrange(0, j)) <= digits_val(s.subrange(0, k)),
    decreases k - j,
{
    if j < k {
        lemma_digits_val_mono(s, j, k - 1);
        lemma_digits_val_step(s, k - 1);
    }
}

impl PostId {
    /// Parses the canonical `<number>[-<slug>]` identifier text.
    pub fn from_str(s: &str) -> (r: Result<PostId, PostIdError>)
        ensures
            r matches Ok(id) ==> spec_parse(s@) == Ok::<_, PostIdError>(
                (id.number as nat, id.slug@),
            ),
            r matches Err(e) ==> spec_parse(s@) == Err::<(nat, Seq<char>), _>(e),
    {
        let n = s.unicode_len();
        let mut k: usize = 0;
        while k < n && char_digit(s.get_char(k)).is_some()
            invariant
                0 <= k <= n,
                n == s@.len(),
                forall|i: int| 0 <= i < k ==> is_digit(#[trigger] s@[i]),
            decreases n - k,
        {
            k = k + 1;
        }
        proof {
            lemma_digit_prefix(s@, k as int);
        }
        if k == 0 {
            return Err(PostIdError::InvalidFormat);
        }
        let slug: String = if k == n {
            String::new()
        } else {
            if s.get_char(k) != '-' {
                return Err(PostIdError::InvalidFormat);
            }
            let mut j: usize = k + 1;
            while j < n
                invariant
                    k + 1 <= j <= n,
                    0 < k < n,
                    n == s@.len(),
                    digit_prefix_len(s@) == k,
                    s@[k as int] == '-',
                    forall|i: int| k + 1 <= i < j ==> is_slug_char(#[trigger] s@[i]),
                decreases n - j,
            {
                if !char_is_slug(s.get_char(j)) {
                    proof {
                        assert(s@.subrange(k as int + 1, n as int)[j - k - 1] == s@[j as int]);
                    }
                    return Err(PostIdError::InvalidFormat);
                }
                j = j + 1;
            }
            proof {
                assert(valid_slug(s@.subrange(k as int + 1, n as int))) by {
                    assert forall|i: int|
                        0 <= i < s@.subrange(k as int + 1, n as int).len() implies is_slug_char(
                        #[trigger] s@.subrange(k as int + 1, n as int)[i],
                    ) by {
                        assert(s@.subrange(k as int + 1, n as int)[i] == s@[k + 1 + i]);
                    }
                }
            }
            String::from_str(s.substring_char(k + 1, n))
        };
        let mut acc: usize = 0;
        let mut i: usize = 0;
        while i < k
            invariant
                0 < k <= n,
                0 <= i <= k,
                n == s@.len(),
                digit_prefix_len(s@) == k,
                forall|ii: int| 0 <= ii < k ==> is_digit(#[trigger] s@[ii]),
                k < n ==> s@[k as int] == '-' && valid_slug(s@.subrange(k as int + 1, n as int)),
                acc as nat == digits_val(s@.subrange(0, i as int)),
            decreases k - i,
        {
            let d = match char_digit(s.get_char(i)) {
                Some(d) => d,
                None => unreached(),
            };
            let shifted = match acc.checked_mul(10) {
                Some(v) => v,
                None => {
                    proof {
                        lemma_digits_val_step(s@, i as int);
                        lemma_digits_val_mono(s@, i as int + 1, k as int);
                        if k == n {
                            assert(s@.subrange(0, k as int) =~= s@);
                        }
                    }
                    return Err(PostIdError::ParseNumberFailed);
                },
            };
            let next = match shifted.checked_add(d) {
                Some(v) => v,
                None => {
                    proof {
                        lemma_digits_val_step(s@, i as int);
                        lemma_digits_val_mono(s@, i as int + 1, k as int);
                        if k == n {
                            assert(s@.subrange(0, k as int) =~= s@);
                        }
                    }
                    return Err(PostIdError::ParseNumberFailed);
                },
            };
            proof {
                lemma_digits_val_step(s@, i as int);
            }
            acc = next;
            i = i + 1;
        }
        proof {
            if k == n {
                assert(s@.subrange(0, k as int) =~= s@);
            }
        }
        Ok(PostId { number: acc, slug })
    }

    /// Parses an identifier from an optional request parameter: a missing
    /// parameter is its own error, distinct from an empty string.
    pub fn from_param(p: Option<&str>) -> (r: Result<PostId, PostIdError>)
        ensures
            p is None ==> r == Err::<PostId, _>(PostIdError::Missing),
            p matches Some(s) ==> {
                &&& r matches Ok(id) ==> spec_parse(s@) == Ok::<_, PostIdError>(
                    (id.number as nat, id.slug@),
                )
                &&& r matches Err(e) ==> spec_parse(s@) == Err::<(nat, Seq<char>), _>(e)
            },
    {
        match p {
            None => Err(PostIdError::Missing),
            Some(s) => PostId::from_str(s),
        }
    }

    /// Emits the canonical text: `<number>` when the slug is empty,
    /// else `<number>-<slug>`.
    pub fn format(&self) -> (r: String)
        ensures
            r@ == spec_format(*self),
    {
        let mut out = usize_to_string(self.number);
        if !self.slug.as_str().is_empty() {
            proof {
                reveal_strlit("-");
            }
            out.append("-");
            out.append(self.slug.as_str());
        }
        out
    }
}

fn digit_str(d: usize) -> (r: &'static str)
    requires
        d < 10,
    ensures
        r@ == seq![digit_char(d as nat)],
{
    proof {
        reveal_strlit("0");
        reveal_strlit("1");
        reveal_strlit("2");
        reveal_strlit("3");
        reveal_strlit("4");
        reveal_strlit("5");
        reveal_strlit("6");
        reveal_strlit("7");
        reveal_strlit("8");
        reveal_strlit("9");
    }
    match d {
        0 => "0",
        1 => "1",
        2 => "2",
        3 => "3",
        4 => "4",
        5 => "5",
        6 => "6",
        7 => "7",
        8 => "8",
        _ => "9",
    }
}

pub(crate) fn usize_to_string(n: usize) -> (r: String)
    ensures
        r@ == dec_digits(n as nat),
    decreases n,
{
    if n < 10 {
        String::from_str(digit_str(n))
    } else {
        let mut r = usize_to_string(n / 10);
        r.append(digit_str(n % 10));
        r
    }
}

/// Formatting an identifier and parsing the text back yields the same
/// number and slug, for every number and every slug made of slug
/// characters.
pub proof fn lemma_parse_format_roundtrip(id: PostId)
    requires
        valid_slug(id.slug@),
    ensures
        spec_parse(spec_format(id)) == Ok::<_, PostIdError>((id.number as nat, id.slug@)),
{
    let n = id.number as nat;
    let d = dec_digits(n);
    lemma_dec_digits_are_digits(n);
    lemma_dec_digits_val(n);
    let s = spec_format(id);
    if id.slug@.len() == 0 {
        assert(s == d);
        lemma_digit_prefix(s, d.len() as int);
        assert(s.subrange(0, d.len() as int) =~= s);
        assert(spec_parse(s) == Ok::<_, PostIdError>((n, Seq::<char>::empty())));
        assert(id.slug@ =~= Seq::<char>::empty());
    } else {
        let k = d.len() as int;
        assert(forall|i: int| 0 <= i < k ==> is_digit(#[trigger] s[i]) && s[i] == d[i]);
        assert(s[k] == '-');
        assert(!is_digit('-'));
        lemma_digit_prefix(s, k);
        assert(s.subrange(0, k) =~= d);
        assert(s.subrange(k + 1, s.len() as int) =~= id.slug@);
    }
}

proof fn lemma_dec_digits_are_digits(n: nat)
    ensures
        dec_digits(n).len() >= 1,
        forall|i: int| 0 <= i < dec_digits(n).len() ==> is_digit(#[trigger] dec_digits(n)[i]),
    decreases n,
{
    if n >= 10 {
        lemma_dec_digits_are_digits(n / 10);
    }
}

proof fn lemma_dec_digits_val(n: nat)
    ensures
        digits_val(dec_digits(n)) == n,
    decreases n,
{
    assert(digits_val(Seq::<char>::empty()) == 0);
    if n < 10 {
        let d = dec_digits(n);
        assert(d.drop_last() =~= Seq::<char>::empty());
        assert(d.last() == digit_char(n));
        assert(digit_val(digit_char(n)) == n);
    } else {
        lemma_dec_digits_val(n / 10);
        let d = dec_digits(n);
        assert(d.drop_last() =~= dec_digits(n / 10));
        assert(d.last() == digit_char(n % 10));
        assert(digit_val(digit_char(n % 10)) == n % 10);
    }
}

} // verus!
