//! Streams in pieces: what is passed on in order and without loss is a start of what came.
use vstd::prelude::*;
use vstd::seq_lib;

verus! {

/// A start of a start is a start.
pub proof fn starts_compose<A>(a: Seq<A>, b: Seq<A>, c: Seq<A>)
    requires
        a.is_prefix_of(b),
        b.is_prefix_of(c),
    ensures
        a.is_prefix_of(c),
{
    assert(a =~= c.take(a.len() as int));
}

/// The first pieces of a list hold a start of what the whole list holds.
pub proof fn starts_flatten<A>(a: Seq<Seq<A>>, b: Seq<Seq<A>>)
    requires
        a.is_prefix_of(b),
    ensures
        a.flatten().is_prefix_of(b.flatten()),
{
    let rest = b.skip(a.len() as int);
    assert(b =~= a + rest);
    seq_lib::lemma_flatten_concat(a, rest);
    assert(a.flatten() =~= b.flatten().take(a.flatten().len() as int));
}

} // verus!
