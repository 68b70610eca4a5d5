use stack_vec::StackVec64;
use vstd::prelude::*;

verus! {

/// The most arguments that a command can have.
pub const MAX_ARGS: usize = 64;

/// The arguments of a command, each a span of bytes of the command line: a
/// `StackVec64` of pairs of the first position of the argument and the
/// position behind its last.
#[verifier::external_body]
pub struct Args {
    inner: StackVec64<(usize, usize)>,
}

/// The spans that the arguments hold, first pushed first.
pub uninterp spec fn held(args: Args) -> Seq<(usize, usize)>;

/// `StackVec64::new`: the new vector holds nothing.
#[verifier::external_body]
pub(crate) fn empty() -> (args: Args)
    ensures
        held(args) == Seq::<(usize, usize)>::empty(),
{
    Args { inner: StackVec64::new() }
}

/// `StackVec64::try_push`: while the vector holds fewer than its sixty-four
/// elements the value goes to its end; a full vector stays as it is and
/// hands the value back.
#[verifier::external_body]
pub(crate) fn try_push(args: &mut Args, span: (usize, usize)) -> (pushed: Result<(), (usize, usize)>)
    ensures
        pushed is Ok <==> held(*old(args)).len() < MAX_ARGS,
        pushed is Ok ==> held(*final(args)) == held(*old(args)).push(span),
        pushed matches Err(back) ==> back == span && held(*final(args)) == held(*old(args)),
{
    args.inner.try_push(span)
}

/// `StackVec64::len`: the number of elements held, which is never more
/// than sixty-four.
#[verifier::external_body]
pub(crate) fn len(args: &Args) -> (count: usize)
    ensures
        count == held(*args).len(),
        count <= MAX_ARGS,
{
    args.inner.len()
}

/// `StackVec64::as_slice`, read at one position: the element pushed as
/// number `i`.
#[verifier::external_body]
pub(crate) fn get(args: &Args, i: usize) -> (span: (usize, usize))
    requires
        i < held(*args).len(),
    ensures
        span == held(*args)[i as int],
{
    args.inner.as_slice()[i]
}

} // verus!
