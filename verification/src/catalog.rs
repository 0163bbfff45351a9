use vstd::prelude::*;
use vstd::string::StrSliceExecFns;

use crate::errors::PackError;

verus! {

/// The field-type catalog: the sixteen field kinds a template can name,
/// each identified by one case-sensitive letter tag. The optional modifier
/// is a fixed byte width for the string-like kinds, a repeat count for the
/// scalar kinds, and a byte count for the null-byte kind; `None` means the
/// natural width or a single occurrence.
#[derive(Debug, Clone, Copy, PartialEq, Eq, Structural)]
pub enum PackType {
    /// Tag `a`: a string with arbitrary binary data, null padded.
    StringNullPadded(Option<usize>),
    /// Tag `A`: a text (ASCII) string, space padded.
    AsciiNullPadded(Option<usize>),
    /// Tag `Z`: a null-terminated (ASCIZ) string, null padded.
    AscizNullPadded(Option<usize>),
    /// Tag `c`: a signed char (8-bit) value.
    SignedChar(Option<usize>),
    /// Tag `C`: an unsigned char (octet) value.
    UnsignedChar(Option<usize>),
    /// Tag `s`: a signed short (16-bit) value.
    SignedShort(Option<usize>),
    /// Tag `S`: an unsigned short value.
    UnsignedShort(Option<usize>),
    /// Tag `l`: a signed long (32-bit) value.
    SignedLong(Option<usize>),
    /// Tag `L`: an unsigned long value.
    UnsignedLong(Option<usize>),
    /// Tag `q`: a signed quad (64-bit) value.
    SignedQuad(Option<usize>),
    /// Tag `Q`: an unsigned quad value.
    UnsignedQuad(Option<usize>),
    /// Tag `n`: an unsigned short (16-bit) in "network" (big-endian) order.
    UnsignedShortBE(Option<usize>),
    /// Tag `N`: an unsigned long (32-bit) in "network" (big-endian) order.
    UnsignedLongBE(Option<usize>),
    /// Tag `v`: an unsigned short (16-bit) in "VAX" (little-endian) order.
    UnsignedShortLE(Option<usize>),
    /// Tag `V`: an unsigned long (32-bit) in "VAX" (little-endian) order.
    UnsignedLongLE(Option<usize>),
    /// Tag `x`: a null byte (ASCII NUL), or several of them.
    NullByte(Option<usize>),
}

/// An ASCII decimal digit.
pub open spec fn is_ascii_digit_char(c: char) -> bool {
    48 <= c as u32 && c as u32 <= 57
}

/// An ASCII letter, upper or lower case.
pub open spec fn is_ascii_letter_char(c: char) -> bool {
    (65 <= c as u32 && c as u32 <= 90) || (97 <= c as u32 && c as u32 <= 122)
}

/// An ASCII letter or digit; every other character of a template is
/// decoration and is stripped before tokenization.
pub open spec fn is_ascii_alnum_char(c: char) -> bool {
    is_ascii_digit_char(c) || is_ascii_letter_char(c)
}

/// The numeric value of a digit character; zero for anything else.
pub open spec fn char_digit_val(c: char) -> nat {
    if is_ascii_digit_char(c) {
        (c as u32 - 48) as nat
    } else {
        0
    }
}

/// Every character of the sequence is an ASCII digit.
pub open spec fn all_ascii_digits(s: Seq<char>) -> bool {
    forall|i: int| 0 <= i < s.len() ==> is_ascii_digit_char(#[trigger] s[i])
}

/// The non-negative integer a digit sequence denotes, most significant first.
pub open spec fn digits_val(s: Seq<char>) -> nat
    decreases s.len(),
{
    if s.len() == 0 {
        0
    } else {
        digits_val(s.drop_last()) * 10 + char_digit_val(s.last())
    }
}

/// Is the character one of the sixteen recognized tags?
pub open spec fn is_recognized_tag(c: char) -> bool {
    c == 'a' || c == 'A' || c == 'Z' || c == 'c' || c == 'C' || c == 's' || c == 'S' || c == 'l'
        || c == 'L' || c == 'q' || c == 'Q' || c == 'n' || c == 'N' || c == 'v' || c == 'V'
        || c == 'x'
}

/// The descriptor a recognized tag denotes, carrying the given modifier.
pub open spec fn tag_descriptor(c: char, m: Option<usize>) -> PackType
    recommends
        is_recognized_tag(c),
{
    if c == 'a' {
        PackType::StringNullPadded(m)
    } else if c == 'A' {
        PackType::AsciiNullPadded(m)
    } else if c == 'Z' {
        PackType::AscizNullPadded(m)
    } else if c == 'c' {
        PackType::SignedChar(m)
    } else if c == 'C' {
        PackType::UnsignedChar(m)
    } else if c == 's' {
        PackType::SignedShort(m)
    } else if c == 'S' {
        PackType::UnsignedShort(m)
    } else if c == 'l' {
        PackType::SignedLong(m)
    } else if c == 'L' {
        PackType::UnsignedLong(m)
    } else if c == 'q' {
        PackType::SignedQuad(m)
    } else if c == 'Q' {
        PackType::UnsignedQuad(m)
    } else if c == 'n' {
        PackType::UnsignedShortBE(m)
    } else if c == 'N' {
        PackType::UnsignedLongBE(m)
    } else if c == 'v' {
        PackType::UnsignedShortLE(m)
    } else if c == 'V' {
        PackType::UnsignedLongLE(m)
    } else {
        PackType::NullByte(m)
    }
}

/// The modifier a token carries: absent for a bare tag, else the value of
/// the digit suffix, which must be all digits and fit in `usize`.
pub open spec fn token_modifier_spec(s: Seq<char>) -> Result<Option<usize>, PackError> {
    if s.len() <= 1 {
        Ok(None)
    } else {
        let digits = s.subrange(1, s.len() as int);
        if all_ascii_digits(digits) && digits_val(digits) <= usize::MAX {
            Ok(Some(digits_val(digits) as usize))
        } else {
            Err(PackError::InvalidFormatLengthArgument)
        }
    }
}

/// What parsing one token yields: the modifier is examined first, then the
/// tag is looked up in the catalog.
pub open spec fn parse_token_spec(s: Seq<char>) -> Result<PackType, PackError> {
    if s.len() == 0 {
        Err(PackError::EmptyFormatCharacter)
    } else {
        match token_modifier_spec(s) {
            Ok(m) => if is_recognized_tag(s[0]) {
                Ok(tag_descriptor(s[0], m))
            } else {
                Err(PackError::InvalidFormatCharacter)
            },
            Err(e) => Err(e),
        }
    }
}

/// The value of a digit prefix never exceeds the value of the whole run.
proof fn lemma_digits_val_prefix(s: Seq<char>, i: int)
    requires
        0 <= i <= s.len(),
    ensures
        digits_val(s.subrange(0, i)) <= digits_val(s),
    decreases s.len() - i,
{
    if i == s.len() {
        assert(s.subrange(0, i) =~= s);
    } else {
        lemma_digits_val_prefix(s.drop_last(), i);
        assert(s.drop_last().subrange(0, i) =~= s.subrange(0, i));
        assert(digits_val(s.drop_last()) * 10 >= digits_val(s.drop_last()));
    }
}

pub(crate) fn is_alnum_char(c: char) -> (b: bool)
    ensures
        b == is_ascii_alnum_char(c),
{
    let u = c as u32;
    (48 <= u && u <= 57) || (65 <= u && u <= 90) || (97 <= u && u <= 122)
}

pub(crate) fn is_letter_char(c: char) -> (b: bool)
    ensures
        b == is_ascii_letter_char(c),
{
    let u = c as u32;
    (65 <= u && u <= 90) || (97 <= u && u <= 122)
}

/// Parse the token standing at `chars[start..end]`.
pub(crate) fn parse_token_chars(chars: &Vec<char>, start: usize, end: usize) -> (r: Result<
    PackType,
    PackError,
>)
    requires
        start <= end <= chars@.len(),
    ensures
        r == parse_token_spec(chars@.subrange(start as int, end as int)),
{
    let ghost tok = chars@.subrange(start as int, end as int);
    if start == end {
        return Err(PackError::EmptyFormatCharacter);
    }
    let ghost digits = tok.subrange(1, tok.len() as int);
    let modifier: Option<usize>;
    if end - start == 1 {
        modifier = None;
    } else {
        let mut acc: usize = 0;
        let mut i: usize = start + 1;
        while i < end
            invariant
                start + 1 <= i <= end <= chars@.len(),
                tok == chars@.subrange(start as int, end as int),
                digits == tok.subrange(1, tok.len() as int),
                all_ascii_digits(chars@.subrange(start as int + 1, i as int)),
                acc == digits_val(chars@.subrange(start as int + 1, i as int)),
            decreases end - i,
        {
            let ghost seen = chars@.subrange(start as int + 1, i as int);
            let c = chars[i];
            let u = c as u32;
            if u < 48 || u > 57 {
                proof {
                    assert(digits[i - start - 1] == c);
                    assert(!all_ascii_digits(digits));
                }
                return Err(PackError::InvalidFormatLengthArgument);
            }
            let d = (u - 48) as usize;
            let ghost seen_next = chars@.subrange(start as int + 1, i as int + 1);
            proof {
                assert(seen_next.drop_last() =~= seen);
                assert(seen_next.last() == c);
                assert(digits_val(seen_next) == acc * 10 + d);
                assert(seen_next =~= digits.subrange(0, i - start));
            }
            let step = match acc.checked_mul(10) {
                Some(x) => x.checked_add(d),
                None => None,
            };
            match step {
                Some(v) => {
                    acc = v;
                }
                None => {
                    proof {
                        lemma_digits_val_prefix(digits, i - start);
                        assert(digits_val(digits) > usize::MAX);
                    }
                    return Err(PackError::InvalidFormatLengthArgument);
                }
            }
            i += 1;
        }
        proof {
            assert(chars@.subrange(start as int + 1, end as int) =~= digits);
        }
        modifier = Some(acc);
    }
    proof {
        assert(tok[0] == chars@[start as int]);
    }
    let c = chars[start];
    match c {
        'a' => Ok(PackType::StringNullPadded(modifier)),
        'A' => Ok(PackType::AsciiNullPadded(modifier)),
        'Z' => Ok(PackType::AscizNullPadded(modifier)),
        'c' => Ok(PackType::SignedChar(modifier)),
        'C' => Ok(PackType::UnsignedChar(modifier)),
        's' => Ok(PackType::SignedShort(modifier)),
        'S' => Ok(PackType::UnsignedShort(modifier)),
        'l' => Ok(PackType::SignedLong(modifier)),
        'L' => Ok(PackType::UnsignedLong(modifier)),
        'q' => Ok(PackType::SignedQuad(modifier)),
        'Q' => Ok(PackType::UnsignedQuad(modifier)),
        'n' => Ok(PackType::UnsignedShortBE(modifier)),
        'N' => Ok(PackType::UnsignedLongBE(modifier)),
        'v' => Ok(PackType::UnsignedShortLE(modifier)),
        'V' => Ok(PackType::UnsignedLongLE(modifier)),
        'x' => Ok(PackType::NullByte(modifier)),
        _ => Err(PackError::InvalidFormatCharacter),
    }
}

/// Parse one template token: the first character is the tag, the rest is
/// the optional numeric modifier. Exposed so collaborators can pre-validate
/// or introspect a tag on its own.
pub fn parse_field(token: &str) -> (r: Result<PackType, PackError>)
    ensures
        r == parse_token_spec(token@),
{
    let n: usize = token.unicode_len();
    let mut chars: Vec<char> = Vec::new();
    let mut i: usize = 0;
    while i < n
        invariant
            i <= n,
            n == token@.len(),
            chars@ == token@.subrange(0, i as int),
        decreases n - i,
    {
        chars.push(token.get_char(i));
        proof {
            assert(token@.subrange(0, i as int).push(token@[i as int]) =~= token@.subrange(
                0,
                i as int + 1,
            ));
        }
        i += 1;
    }
    proof {
        assert(chars@ =~= token@);
        assert(chars@.subrange(0, n as int) =~= token@);
    }
    parse_token_chars(&chars, 0, n)
}

} // verus!
