use vstd::prelude::*;

use crate::catalog::PackType;
use crate::errors::PackError;
use crate::errors::UnpackError;
use crate::parser::parse_template;
use crate::parser::parse_template_spec;

verus! {

/// The packed buffer: the ordered bytes a pack call accumulates.
pub type Packed = Vec<u8>;

/// The encoding capability. A value that implements it can render itself as
/// bytes for one field descriptor; encoding consumes the value, so it is
/// encoded at most once. `pack_spec` is the implementor's own statement of
/// what that rendering is, and `pack` is bound to it.
pub trait Packable: Sized {
    /// The byte rendering (or the refusal) this value answers the given
    /// descriptor with, as a mathematical value.
    spec fn pack_spec(&self, pack_type: PackType) -> Result<Seq<u8>, PackError>;

    /// Render the value as bytes for the given descriptor, consuming it.
    fn pack(self, pack_type: PackType) -> (r: Result<Packed, PackError>)
        ensures
            match r {
                Ok(data) => self.pack_spec(pack_type) == Ok::<Seq<u8>, PackError>(data@),
                Err(e) => self.pack_spec(pack_type) == Err::<Seq<u8>, PackError>(e),
            },
    ;
}

/// The decoding capability, declared for the decode direction. Its byte
/// semantics are not yet settled, so no contract binds it.
pub trait Unpackable: Sized {
    /// Rebuild a value from packed bytes and the descriptor they follow.
    fn unpack(data: &[u8], pack_type: PackType) -> Result<Self, UnpackError>;
}

/// One argument of a pack call: a capability-bearing value, owned by the
/// argument sequence until the pairing engine consumes it.
pub struct PackableArg<A> {
    /// The wrapped value.
    pub inner: A,
}

/// A ready-made capability-bearing value: it renders as a fixed byte
/// sequence when handed the one descriptor it expects, and rejects every
/// other descriptor with `InvalidFormatCharacter` — the answer of a value
/// asked for a shape it does not know.
pub struct ScriptedArg {
    /// The descriptor this value knows how to answer.
    pub expected: PackType,
    /// The bytes it answers with.
    pub data: Vec<u8>,
}

impl Packable for ScriptedArg {
    open spec fn pack_spec(&self, pack_type: PackType) -> Result<Seq<u8>, PackError> {
        if pack_type == self.expected {
            Ok(self.data@)
        } else {
            Err(PackError::InvalidFormatCharacter)
        }
    }

    fn pack(self, pack_type: PackType) -> (r: Result<Packed, PackError>) {
        if pack_type == self.expected {
            Ok(self.data)
        } else {
            Err(PackError::InvalidFormatCharacter)
        }
    }
}

/// What pairing descriptors against arguments yields: one descriptor and
/// one argument per step, the argument's rendering appended to the output;
/// the first failed rendering aborts the call with that error, a leftover
/// descriptor or argument aborts it with the matching arity error, and two
/// exhausted cursors end it with the concatenated buffer.
pub open spec fn pair_spec<A: Packable>(descs: Seq<PackType>, args: Seq<PackableArg<A>>) -> Result<
    Seq<u8>,
    PackError,
>
    decreases descs.len(), args.len(),
{
    if descs.len() == 0 && args.len() == 0 {
        Ok(Seq::empty())
    } else if descs.len() == 0 {
        Err(PackError::LeftArgumentIsMissingForTemplate)
    } else if args.len() == 0 {
        Err(PackError::RightArgumentIsMissingForTemplate)
    } else {
        match args[0].inner.pack_spec(descs[0]) {
            Ok(bytes) => match pair_spec(descs.drop_first(), args.drop_first()) {
                Ok(rest) => Ok(bytes + rest),
                Err(e) => Err(e),
            },
            Err(e) => Err(e),
        }
    }
}

/// What a whole pack call yields: the parsed template paired against the
/// arguments, or the parse error.
pub open spec fn pack_result_spec<A: Packable>(
    template: Seq<char>,
    args: Seq<PackableArg<A>>,
) -> Result<Seq<u8>, PackError> {
    match parse_template_spec(template) {
        Ok(descs) => pair_spec(descs, args),
        Err(e) => Err(e),
    }
}

/// The pairing engine: advance a descriptor cursor and an argument cursor
/// together, render each argument against its descriptor, and concatenate
/// the renderings in order.
#[verifier::loop_isolation(false)]
pub fn pack_private<A: Packable>(template: Vec<PackType>, args: Vec<PackableArg<A>>) -> (r: Result<
    Packed,
    PackError,
>)
    ensures
        match r {
            Ok(buf) => pair_spec(template@, args@) == Ok::<Seq<u8>, PackError>(buf@),
            Err(e) => pair_spec(template@, args@) == Err::<Seq<u8>, PackError>(e),
        },
{
    let ghost descs0 = template@;
    let ghost args0 = args@;
    let mut rest_args = args;
    // a performance hint only: the buffer grows as needed
    let mut result: Packed = Vec::with_capacity(4096);
    let mut ti: usize = 0;
    proof {
        assert(descs0.skip(0) =~= descs0);
        assert(Seq::<u8>::empty() + pair_spec(descs0, args0)->Ok_0 =~= pair_spec(
            descs0,
            args0,
        )->Ok_0);
    }
    loop
        invariant
            ti <= template@.len(),
            template@ == descs0,
            pair_spec(descs0, args0) == (match pair_spec(descs0.skip(ti as int), rest_args@) {
                Ok(rest) => Ok::<Seq<u8>, PackError>(result@ + rest),
                Err(e) => Err::<Seq<u8>, PackError>(e),
            }),
        decreases template@.len() - ti,
    {
        let ghost rem_descs = descs0.skip(ti as int);
        let ghost rem_args = rest_args@;
        let t_present = ti < template.len();
        let a_present = rest_args.len() > 0;
        if t_present && a_present {
            let p = template[ti];
            let a = rest_args.remove(0);
            proof {
                assert(rem_descs[0] == descs0[ti as int]);
                assert(rem_descs.drop_first() =~= descs0.skip(ti as int + 1));
                assert(rem_args.drop_first() =~= rem_args.remove(0));
            }
            match a.inner.pack(p) {
                Ok(mut data) => {
                    proof {
                        if pair_spec(descs0.skip(ti as int + 1), rest_args@) is Ok {
                            let rest = pair_spec(descs0.skip(ti as int + 1), rest_args@)->Ok_0;
                            assert(result@ + (data@ + rest) =~= (result@ + data@) + rest);
                        }
                    }
                    result.append(&mut data);
                    ti += 1;
                }
                Err(e) => {
                    return Err(e);
                }
            }
        } else if !t_present && a_present {
            return Err(PackError::LeftArgumentIsMissingForTemplate);
        } else if t_present && !a_present {
            return Err(PackError::RightArgumentIsMissingForTemplate);
        } else {
            proof {
                assert(result@ + Seq::<u8>::empty() =~= result@);
            }
            return Ok(result);
        }
    }
}

/// The sole entry point: parse the template and pair its descriptors
/// against the arguments, strictly one to one, concatenating each
/// argument's byte rendering into the returned buffer.
pub fn pack<A: Packable>(template: &str, args: Vec<PackableArg<A>>) -> (r: Result<
    Packed,
    PackError,
>)
    ensures
        match r {
            Ok(buf) => pack_result_spec(template@, args@) == Ok::<Seq<u8>, PackError>(buf@),
            Err(e) => pack_result_spec(template@, args@) == Err::<Seq<u8>, PackError>(e),
        },
{
    let descs = match parse_template(template) {
        Ok(descs) => descs,
        Err(e) => {
            return Err(e);
        }
    };
    pack_private(descs, args)
}

/// The declared decode direction: its byte-level semantics are intentionally
/// left open, so every call reports that decoding is not implemented.
pub fn unpack<T: Unpackable>(template: &str, packed: Packed) -> (r: Result<Vec<T>, UnpackError>)
    ensures
        r == Err::<Vec<T>, UnpackError>(UnpackError::NotImplemented),
{
    Err(UnpackError::NotImplemented)
}

} // verus!
