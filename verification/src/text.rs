use vstd::prelude::*;
use vstd::utf8::encode_utf8;

verus! {

/// `part` stands somewhere in `whole`, as one unbroken run.
pub open spec fn occurs_in<T>(part: Seq<T>, whole: Seq<T>) -> bool {
    exists|at: int|
        0 <= at && at + part.len() <= whole.len() && #[trigger] whole.subrange(
            at,
            at + part.len(),
        ) == part
}

/// Every run occurs in itself.
pub proof fn lemma_occurs_in_itself<T>(whole: Seq<T>)
    ensures
        occurs_in(whole, whole),
{
    assert(whole.subrange(0, 0int + whole.len()) =~= whole);
}

/// What stands in the middle of three runs stands in their concatenation.
pub proof fn lemma_occurs_in_middle<T>(before: Seq<T>, part: Seq<T>, after: Seq<T>)
    ensures
        occurs_in(part, before + part + after),
{
    let whole = before + part + after;
    let at = before.len() as int;
    assert(whole.subrange(at, at + part.len()) =~= part);
}

/// What occurs in a run occurs in every run around it.
pub proof fn lemma_occurs_in_wider<T>(part: Seq<T>, before: Seq<T>, inner: Seq<T>, after: Seq<T>)
    requires
        occurs_in(part, inner),
    ensures
        occurs_in(part, before + inner + after),
{
    let at = choose|at: int|
        0 <= at && at + part.len() <= inner.len() && #[trigger] inner.subrange(
            at,
            at + part.len(),
        ) == part;
    let whole = before + inner + after;
    let to = before.len() + at;
    assert(whole.subrange(to, to + part.len()) =~= inner.subrange(at, at + part.len()));
}

/// What occurs in a part of a run occurs in the run.
pub proof fn lemma_occurs_in_trans<T>(part: Seq<T>, inner: Seq<T>, whole: Seq<T>)
    requires
        occurs_in(part, inner),
        occurs_in(inner, whole),
    ensures
        occurs_in(part, whole),
{
    let at = choose|at: int|
        0 <= at && at + inner.len() <= whole.len() && #[trigger] whole.subrange(
            at,
            at + inner.len(),
        ) == inner;
    let before = whole.subrange(0, at);
    let after = whole.subrange(at + inner.len(), whole.len() as int);
    assert(whole =~= before + inner + after);
    lemma_occurs_in_wider(part, before, inner, after);
}

/// What occurs in one of several runs occurs in all of them laid end to end.
pub proof fn lemma_occurs_in_flatten<T>(part: Seq<T>, runs: Seq<Seq<T>>, i: int)
    requires
        0 <= i < runs.len(),
        occurs_in(part, runs[i]),
    ensures
        occurs_in(part, runs.flatten()),
    decreases runs.len(),
{
    let rest = runs.drop_first();
    if i == 0 {
        lemma_occurs_in_wider(part, Seq::empty(), runs[0], rest.flatten());
    } else {
        lemma_occurs_in_flatten(part, rest, i - 1);
        lemma_occurs_in_wider(part, runs[0], rest.flatten(), Seq::empty());
    }
}

/// The UTF-8 encoding of two texts, one after the other, is the encoding of
/// the first followed by the encoding of the second.
pub proof fn lemma_encode_utf8_concat(first: Seq<char>, second: Seq<char>)
    ensures
        encode_utf8(first + second) == encode_utf8(first) + encode_utf8(second),
    decreases first.len(),
{
    if first.len() > 0 {
        assert((first + second).drop_first() =~= first.drop_first() + second);
        lemma_encode_utf8_concat(first.drop_first(), second);
    }
}

/// A text that occurs in another occurs in it encoded, too: the bytes of the
/// one stand, unbroken, among the bytes of the other.
pub proof fn lemma_occurs_in_encoded(part: Seq<char>, whole: Seq<char>)
    requires
        occurs_in(part, whole),
    ensures
        occurs_in(encode_utf8(part), encode_utf8(whole)),
{
    let at = choose|at: int|
        0 <= at && at + part.len() <= whole.len() && #[trigger] whole.subrange(
            at,
            at + part.len(),
        ) == part;
    let before = whole.subrange(0, at);
    let after = whole.subrange(at + part.len(), whole.len() as int);
    assert(whole =~= before + part + after);
    lemma_encode_utf8_concat(before, part);
    lemma_encode_utf8_concat(before + part, after);
    lemma_occurs_in_middle(encode_utf8(before), encode_utf8(part), encode_utf8(after));
}

} // verus!
