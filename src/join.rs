use vstd::prelude::*;

use crate::component::{is_normal_component, SinglePathComponent};
use crate::path::{joined, lemma_pieces_of_joined, pieces, pushed, PathBuilder, PushPathComponent};

verus! {

/// The texts of `parts`, in order.
pub open spec fn texts(parts: Seq<&str>) -> Seq<Seq<char>> {
    parts.map_values(|p: &str| p@)
}

/// Every one of `parts` names exactly one plain component.
pub open spec fn all_normal(parts: Seq<&str>) -> bool {
    forall|i: int| 0 <= i < parts.len() ==> is_normal_component(#[trigger] parts[i]@)
}

proof fn lemma_joined_step(prefix: Seq<Seq<char>>, all: Seq<Seq<char>>, i: int)
    requires
        0 <= i < all.len(),
    ensures
        joined(prefix + all.take(i + 1)) == pushed(joined(prefix + all.take(i)), all[i]),
{
    assert((prefix + all.take(i + 1)).drop_last() =~= prefix + all.take(i));
}

/// Appends each of `parts` in turn to the empty path, without any check.
pub fn pathbuf(parts: &[&str]) -> (r: PathBuilder)
    ensures
        r@ == joined(texts(parts@)),
{
    let mut path = PathBuilder::new();
    for i in 0..parts.len()
        invariant
            path@ == joined(texts(parts@).take(i as int)),
    {
        proof {
            lemma_joined_step(seq![], texts(parts@), i as int);
            assert(seq![] + texts(parts@).take(i as int) =~= texts(parts@).take(i as int));
            assert(seq![] + texts(parts@).take(i + 1) =~= texts(parts@).take(i + 1));
        }
        path.push(parts[i]);
    }
    assert(texts(parts@).take(parts@.len() as int) =~= texts(parts@));
    path
}

/// Appends each of `parts` in turn to the empty path, provided every one of
/// them names exactly one plain component; gives `None` at the first part
/// that does not. Split at its separators, the path gives back the parts.
pub fn pathbuf_safe(parts: &[&str]) -> (r: Option<PathBuilder>)
    ensures
        r is Some <==> all_normal(parts@),
        r matches Some(p) ==> p@ == joined(texts(parts@)),
        r matches Some(p) ==> parts@.len() > 0 ==> pieces(p@) == texts(parts@),
{
    let mut path = PathBuilder::new();
    for i in 0..parts.len()
        invariant
            path@ == joined(texts(parts@).take(i as int)),
            forall|j: int| 0 <= j < i ==> is_normal_component(#[trigger] parts@[j]@),
    {
        let component = match SinglePathComponent::new(parts[i]) {
            Some(c) => c,
            None => return None,
        };
        proof {
            lemma_joined_step(seq![], texts(parts@), i as int);
            assert(seq![] + texts(parts@).take(i as int) =~= texts(parts@).take(i as int));
            assert(seq![] + texts(parts@).take(i + 1) =~= texts(parts@).take(i + 1));
        }
        path.push_component(component);
    }
    assert(texts(parts@).take(parts@.len() as int) =~= texts(parts@));
    proof {
        if parts@.len() > 0 {
            lemma_pieces_of_joined(texts(parts@));
        }
    }
    Some(path)
}

/// Appends `first` unchecked to the empty path, then each of `parts` in turn
/// provided every one of them names exactly one plain component; gives
/// `None` at the first of `parts` that does not. `first` is trusted: it may
/// start at the root or hold several components.
pub fn pathbuf_safe_allow(first: &str, parts: &[&str]) -> (r: Option<PathBuilder>)
    ensures
        r is Some <==> all_normal(parts@),
        r matches Some(p) ==> p@ == joined(seq![first@] + texts(parts@)),
{
    let mut path = PathBuilder::new();
    path.push(first);
    proof {
        let one = seq![first@];
        assert(one.drop_last() =~= Seq::<Seq<char>>::empty());
        assert(joined(one.drop_last()) =~= Seq::<char>::empty());
        assert(joined(one) == pushed(Seq::<char>::empty(), first@));
        assert(one + texts(parts@).take(0) =~= one);
    }
    for i in 0..parts.len()
        invariant
            path@ == joined(seq![first@] + texts(parts@).take(i as int)),
            forall|j: int| 0 <= j < i ==> is_normal_component(#[trigger] parts@[j]@),
    {
        let component = match SinglePathComponent::new(parts[i]) {
            Some(c) => c,
            None => return None,
        };
        proof {
            lemma_joined_step(seq![first@], texts(parts@), i as int);
        }
        path.push_component(component);
    }
    assert(texts(parts@).take(parts@.len() as int) =~= texts(parts@));
    Some(path)
}

} // verus!
