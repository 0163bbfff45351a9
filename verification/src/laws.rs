use vstd::prelude::*;

use crate::catalog::all_ascii_digits;
use crate::catalog::digits_val;
use crate::catalog::is_ascii_alnum_char;
use crate::catalog::is_ascii_letter_char;
use crate::catalog::is_recognized_tag;
use crate::catalog::parse_token_spec;
use crate::catalog::PackType;
use crate::engine::pack_result_spec;
use crate::engine::pair_spec;
use crate::engine::Packable;
use crate::engine::PackableArg;
use crate::errors::PackError;
use crate::parser::cleaned;
use crate::parser::parse_template_spec;
use crate::parser::scan_tokens;

verus! {

/// A pack call on the empty template fails with `EmptyTemplate`, whatever
/// the argument sequence is.
pub proof fn lemma_empty_template<A: Packable>(args: Seq<PackableArg<A>>)
    ensures
        pack_result_spec(Seq::<char>::empty(), args) == Err::<Seq<u8>, PackError>(
            PackError::EmptyTemplate,
        ),
{
}

/// A token whose first character is not one of the sixteen recognized tags
/// parses to `InvalidFormatCharacter`, whatever digits trail it — provided
/// the digit suffix itself is in order, since a bad suffix is reported
/// first as `InvalidFormatLengthArgument`.
pub proof fn lemma_tag_validation(token: Seq<char>)
    requires
        token.len() > 0,
        !is_recognized_tag(token[0]),
        token.len() > 1 ==> all_ascii_digits(token.subrange(1, token.len() as int)) && digits_val(
            token.subrange(1, token.len() as int),
        ) <= usize::MAX,
    ensures
        parse_token_spec(token) == Err::<PackType, PackError>(PackError::InvalidFormatCharacter),
{
}

/// Strict arity: when every rendering that is actually attempted succeeds,
/// pairing succeeds exactly when descriptors and arguments are equally
/// many, fails with `RightArgumentIsMissingForTemplate` when the template
/// is longer, and with `LeftArgumentIsMissingForTemplate` when the argument
/// sequence is longer.
pub proof fn lemma_arity<A: Packable>(descs: Seq<PackType>, args: Seq<PackableArg<A>>)
    requires
        forall|i: int|
            0 <= i < descs.len() && i < args.len() ==> (#[trigger] args[i].inner.pack_spec(
                descs[i],
            )) is Ok,
    ensures
        pair_spec(descs, args) is Ok <==> descs.len() == args.len(),
        descs.len() > args.len() ==> pair_spec(descs, args) == Err::<Seq<u8>, PackError>(
            PackError::RightArgumentIsMissingForTemplate,
        ),
        args.len() > descs.len() ==> pair_spec(descs, args) == Err::<Seq<u8>, PackError>(
            PackError::LeftArgumentIsMissingForTemplate,
        ),
    decreases descs.len() + args.len(),
{
    if descs.len() == 0 || args.len() == 0 {
    } else {
        assert(args[0].inner.pack_spec(descs[0]) is Ok);
        assert forall|i: int|
            0 <= i < descs.drop_first().len() && i < args.drop_first().len() implies (
        #[trigger] args.drop_first()[i].inner.pack_spec(descs.drop_first()[i])) is Ok by {
            assert(args.drop_first()[i] == args[i + 1]);
            assert(descs.drop_first()[i] == descs[i + 1]);
        }
        lemma_arity(descs.drop_first(), args.drop_first());
    }
}

/// Strict arity at the pack level: for a template that parses to `m`
/// descriptors and an argument sequence of length `n`, and renderings that
/// do not themselves fail, a pack call succeeds exactly when `m == n`, and
/// otherwise fails naming the side that ran out.
pub proof fn lemma_pack_arity<A: Packable>(template: Seq<char>, args: Seq<PackableArg<A>>)
    requires
        parse_template_spec(template) is Ok,
        forall|i: int|
            0 <= i < parse_template_spec(template)->Ok_0.len() && i < args.len() ==> (
            #[trigger] args[i].inner.pack_spec(parse_template_spec(template)->Ok_0[i])) is Ok,
    ensures
        pack_result_spec(template, args) is Ok <==> parse_template_spec(template)->Ok_0.len()
            == args.len(),
        parse_template_spec(template)->Ok_0.len() > args.len() ==> pack_result_spec(template, args)
            == Err::<Seq<u8>, PackError>(PackError::RightArgumentIsMissingForTemplate),
        args.len() > parse_template_spec(template)->Ok_0.len() ==> pack_result_spec(template, args)
            == Err::<Seq<u8>, PackError>(PackError::LeftArgumentIsMissingForTemplate),
{
    lemma_arity(parse_template_spec(template)->Ok_0, args);
}

/// The ordered concatenation of the renderings each pair yields, assuming
/// they all succeed.
pub open spec fn concat_encodings<A: Packable>(
    descs: Seq<PackType>,
    args: Seq<PackableArg<A>>,
) -> Seq<u8>
    decreases descs.len(),
{
    if descs.len() == 0 || args.len() == 0 {
        Seq::empty()
    } else {
        args[0].inner.pack_spec(descs[0])->Ok_0 + concat_encodings(
            descs.drop_first(),
            args.drop_first(),
        )
    }
}

/// Concatenation order: a successful pairing pairs every descriptor with
/// one argument, every rendering succeeds, and the buffer is exactly their
/// ordered concatenation, with no reordering or interleaving.
pub proof fn lemma_concatenation_order<A: Packable>(descs: Seq<PackType>, args: Seq<PackableArg<A>>)
    requires
        pair_spec(descs, args) is Ok,
    ensures
        descs.len() == args.len(),
        forall|i: int|
            0 <= i < descs.len() ==> (#[trigger] args[i].inner.pack_spec(descs[i])) is Ok,
        pair_spec(descs, args) == Ok::<Seq<u8>, PackError>(concat_encodings(descs, args)),
    decreases descs.len(),
{
    if descs.len() == 0 {
    } else {
        lemma_concatenation_order(descs.drop_first(), args.drop_first());
        assert forall|i: int|
            0 <= i < descs.len() implies (#[trigger] args[i].inner.pack_spec(descs[i])) is Ok by {
            if i > 0 {
                assert(args.drop_first()[i - 1] == args[i]);
                assert(descs.drop_first()[i - 1] == descs[i]);
                assert(args.drop_first()[i - 1].inner.pack_spec(descs.drop_first()[i - 1]) is Ok);
            }
        }
    }
}

/// Failure short-circuit: if the renderings before position `i` succeed and
/// the one at `i` fails, the whole pairing returns exactly that failure —
/// nothing rendered after it can appear anywhere.
pub proof fn lemma_failure_short_circuit<A: Packable>(
    descs: Seq<PackType>,
    args: Seq<PackableArg<A>>,
    i: int,
    e: PackError,
)
    requires
        0 <= i < descs.len(),
        i < args.len(),
        forall|j: int| 0 <= j < i ==> (#[trigger] args[j].inner.pack_spec(descs[j])) is Ok,
        args[i].inner.pack_spec(descs[i]) == Err::<Seq<u8>, PackError>(e),
    ensures
        pair_spec(descs, args) == Err::<Seq<u8>, PackError>(e),
    decreases i,
{
    if i == 0 {
    } else {
        assert(args[0].inner.pack_spec(descs[0]) is Ok);
        assert(args.drop_first()[i - 1] == args[i]);
        assert(descs.drop_first()[i - 1] == descs[i]);
        assert forall|j: int|
            0 <= j < i - 1 implies (#[trigger] args.drop_first()[j].inner.pack_spec(
            descs.drop_first()[j],
        )) is Ok by {
            assert(args.drop_first()[j] == args[j + 1]);
            assert(descs.drop_first()[j] == descs[j + 1]);
        }
        lemma_failure_short_circuit(descs.drop_first(), args.drop_first(), i - 1, e);
    }
}

/// Stripping distributes over template concatenation.
pub proof fn lemma_cleaned_append(a: Seq<char>, b: Seq<char>)
    ensures
        cleaned(a + b) == cleaned(a) + cleaned(b),
    decreases b.len(),
{
    if b.len() == 0 {
        assert(a + b =~= a);
        assert(cleaned(a) + cleaned(b) =~= cleaned(a));
    } else {
        assert((a + b).drop_last() =~= a + b.drop_last());
        assert((a + b).last() == b.last());
        lemma_cleaned_append(a, b.drop_last());
        if is_ascii_alnum_char(b.last()) {
            assert((cleaned(a) + cleaned(b.drop_last())).push(b.last()) =~= cleaned(a) + cleaned(
                b.drop_last(),
            ).push(b.last()));
        }
    }
}

/// The scan of positions that lie inside a prefix never looks past it.
proof fn lemma_scan_prefix(t: Seq<char>, u: Seq<char>, start: int, end: int)
    requires
        -1 <= start < end <= t.len(),
    ensures
        scan_tokens(t + u, start, end) == scan_tokens(t, start, end),
    decreases start + 1,
{
    if start < 0 {
    } else {
        assert((t + u)[start] == t[start]);
        if is_ascii_letter_char(t[start]) {
            assert((t + u).subrange(start, end) =~= t.subrange(start, end));
            if parse_token_spec(t.subrange(start, end)) is Ok {
                lemma_scan_prefix(t, u, start - 1, start);
            }
        } else {
            lemma_scan_prefix(t, u, start - 1, end);
        }
    }
}

/// How the results of scanning two neighbouring template parts combine: the
/// right part is scanned first, so its error wins; two successes
/// concatenate in reading order.
spec fn chain_scans(
    prefix: Result<Seq<PackType>, PackError>,
    suffix: Result<Seq<PackType>, PackError>,
) -> Result<Seq<PackType>, PackError> {
    match suffix {
        Err(e) => Err(e),
        Ok(db) => match prefix {
            Err(e) => Err(e),
            Ok(da) => Ok(da + db),
        },
    }
}

/// Scanning a concatenation whose right part begins with a letter scans the
/// two parts independently: no token straddles the boundary.
proof fn lemma_scan_append(c1: Seq<char>, c2: Seq<char>, k: int, e: int)
    requires
        c2.len() > 0,
        is_ascii_letter_char(c2[0]),
        0 <= k < e <= c2.len(),
    ensures
        scan_tokens(c1 + c2, c1.len() + k, c1.len() + e) == chain_scans(
            scan_tokens(c1, c1.len() - 1, c1.len() as int),
            scan_tokens(c2, k, e),
        ),
    decreases k,
{
    let t = c1 + c2;
    let gk: int = c1.len() + k;
    let ge: int = c1.len() + e;
    assert(t[gk] == c2[k]);
    if is_ascii_letter_char(c2[k]) {
        assert(t.subrange(gk, ge) =~= c2.subrange(k, e));
        match parse_token_spec(c2.subrange(k, e)) {
            Err(_) => {
            }
            Ok(d) => {
                if k == 0 {
                    lemma_scan_prefix(c1, c2, c1.len() - 1, c1.len() as int);
                    assert(scan_tokens(c2, -1, 0) == Ok::<Seq<PackType>, PackError>(Seq::empty()));
                    assert(Seq::<PackType>::empty().push(d) =~= seq![d]);
                    if scan_tokens(c1, c1.len() - 1, c1.len() as int) is Ok {
                        let da = scan_tokens(c1, c1.len() - 1, c1.len() as int)->Ok_0;
                        assert(da.push(d) =~= da + seq![d]);
                    }
                } else {
                    lemma_scan_append(c1, c2, k - 1, k);
                    let s1 = scan_tokens(c1, c1.len() - 1, c1.len() as int);
                    let s2 = scan_tokens(c2, k - 1, k);
                    if s2 is Ok && s1 is Ok {
                        let da = s1->Ok_0;
                        let ds = s2->Ok_0;
                        assert((da + ds).push(d) =~= da + ds.push(d));
                    }
                }
            }
        }
    } else {
        lemma_scan_append(c1, c2, k - 1, e);
    }
}

/// Order preservation: descriptors come back in the left-to-right reading
/// order of the surviving characters. Concretely, a template cut anywhere
/// ahead of a surviving letter parses to the concatenation, in order, of
/// what its two parts parse to.
pub proof fn lemma_order_preservation(t1: Seq<char>, t2: Seq<char>, d1: Seq<PackType>, d2: Seq<
    PackType,
>)
    requires
        parse_template_spec(t1) == Ok::<Seq<PackType>, PackError>(d1),
        parse_template_spec(t2) == Ok::<Seq<PackType>, PackError>(d2),
        cleaned(t2).len() > 0,
        is_ascii_letter_char(cleaned(t2)[0]),
    ensures
        parse_template_spec(t1 + t2) == Ok::<Seq<PackType>, PackError>(d1 + d2),
{
    let c1 = cleaned(t1);
    let c2 = cleaned(t2);
    lemma_cleaned_append(t1, t2);
    assert(cleaned(t1 + t2) == c1 + c2);
    assert((t1 + t2).len() > 0);
    if c1.len() == 0 {
        assert(c1 + c2 =~= c2);
        assert(scan_tokens(c1, -1, 0) == Ok::<Seq<PackType>, PackError>(Seq::empty()));
        assert(d1 =~= Seq::<PackType>::empty());
        assert(d1 + d2 =~= d2);
    } else {
        lemma_scan_append(c1, c2, c2.len() - 1, c2.len() as int);
        assert((c1 + c2).len() - 1 == c1.len() + (c2.len() - 1));
    }
}

} // verus!
