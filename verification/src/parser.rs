use vstd::prelude::*;
use vstd::string::StrSliceExecFns;

use crate::catalog::is_ascii_alnum_char;
use crate::catalog::is_ascii_letter_char;
use crate::catalog::is_alnum_char;
use crate::catalog::is_letter_char;
use crate::catalog::parse_token_chars;
use crate::catalog::parse_token_spec;
use crate::catalog::PackType;
use crate::errors::PackError;

verus! {

/// The template with every character that is not ASCII alphanumeric
/// stripped out: whitespace and punctuation carry no meaning and exist only
/// for human readability.
pub open spec fn cleaned(s: Seq<char>) -> Seq<char>
    decreases s.len(),
{
    if s.len() == 0 {
        Seq::empty()
    } else if is_ascii_alnum_char(s.last()) {
        cleaned(s.drop_last()).push(s.last())
    } else {
        cleaned(s.drop_last())
    }
}

/// The backward token scan over a cleaned template: positions are examined
/// from `start` down to zero while `end` marks where the current token
/// stops. A letter at position `p` closes the token `t[p..end]`; that token
/// is parsed at once, so the error of the rightmost bad token surfaces
/// first, and digits standing before the first letter are dropped without
/// error. The surviving descriptors come back in left-to-right order.
pub open spec fn scan_tokens(t: Seq<char>, start: int, end: int) -> Result<
    Seq<PackType>,
    PackError,
>
    decreases start + 1,
{
    if start < 0 {
        Ok(Seq::empty())
    } else if is_ascii_letter_char(t[start]) {
        match parse_token_spec(t.subrange(start, end)) {
            Ok(d) => match scan_tokens(t, start - 1, start) {
                Ok(ds) => Ok(ds.push(d)),
                Err(e) => Err(e),
            },
            Err(e) => Err(e),
        }
    } else {
        scan_tokens(t, start - 1, end)
    }
}

/// What parsing a whole template yields: an empty template is rejected,
/// everything but letters and digits is stripped, and the remainder is cut
/// into tokens of one letter plus its digit run.
pub open spec fn parse_template_spec(template: Seq<char>) -> Result<Seq<PackType>, PackError> {
    if template.len() == 0 {
        Err(PackError::EmptyTemplate)
    } else {
        let t = cleaned(template);
        scan_tokens(t, t.len() - 1, t.len() as int)
    }
}

fn clean_template(template: &str) -> (r: Vec<char>)
    ensures
        r@ == cleaned(template@),
{
    let n: usize = template.unicode_len();
    let mut out: Vec<char> = Vec::with_capacity(n);
    let mut i: usize = 0;
    while i < n
        invariant
            i <= n,
            n == template@.len(),
            out@ == cleaned(template@.subrange(0, i as int)),
        decreases n - i,
    {
        let c = template.get_char(i);
        proof {
            assert(template@.subrange(0, i as int + 1).drop_last() =~= template@.subrange(
                0,
                i as int,
            ));
            assert(template@.subrange(0, i as int + 1).last() == template@[i as int]);
        }
        if is_alnum_char(c) {
            out.push(c);
        }
        i += 1;
    }
    proof {
        assert(template@.subrange(0, n as int) =~= template@);
    }
    out
}

/// Parse a template string into its ordered descriptor sequence.
pub fn parse_template(template: &str) -> (r: Result<Vec<PackType>, PackError>)
    ensures
        match r {
            Ok(descs) => parse_template_spec(template@) == Ok::<Seq<PackType>, PackError>(descs@),
            Err(e) => parse_template_spec(template@) == Err::<Seq<PackType>, PackError>(e),
        },
{
    if template.is_empty() {
        return Err(PackError::EmptyTemplate);
    }
    let t = clean_template(template);
    let n: usize = t.len();
    let mut descs: Vec<PackType> = Vec::new();
    let mut end: usize = n;
    let mut i: usize = n;
    while i > 0
        invariant
            i <= end <= n,
            n == t@.len(),
            t@ == cleaned(template@),
            template@.len() > 0,
            scan_tokens(t@, n as int - 1, n as int) == (match scan_tokens(
                t@,
                i as int - 1,
                end as int,
            ) {
                Ok(ds) => Ok::<Seq<PackType>, PackError>(ds + descs@),
                Err(e) => Err::<Seq<PackType>, PackError>(e),
            }),
        decreases i,
    {
        i -= 1;
        let c = t[i];
        if is_letter_char(c) {
            match parse_token_chars(&t, i, end) {
                Ok(d) => {
                    proof {
                        if scan_tokens(t@, i as int - 1, i as int) is Ok {
                            let ds = scan_tokens(t@, i as int - 1, i as int)->Ok_0;
                            assert((ds.push(d)) + descs@ =~= ds + (seq![d] + descs@));
                            assert(descs@.insert(0, d) =~= seq![d] + descs@);
                        }
                    }
                    descs.insert(0, d);
                    end = i;
                }
                Err(e) => {
                    return Err(e);
                }
            }
        }
    }
    proof {
        if scan_tokens(t@, n as int - 1, n as int) is Ok {
            let ds = scan_tokens(t@, -1, end as int)->Ok_0;
            assert(ds + descs@ =~= descs@);
        }
    }
    Ok(descs)
}

} // verus!
