use vstd::prelude::*;

verus! {

/// The sequence `s` with its last element moved to the front.
pub open spec fn rotated<E>(s: Seq<E>) -> Seq<E>
    recommends
        s.len() > 0,
{
    seq![s.last()] + s.drop_last()
}

/// Moving the last element of a one-element sequence to the front leaves
/// the sequence as it was.
pub proof fn lemma_rotate_single<E>(s: Seq<E>)
    requires
        s.len() == 1,
    ensures
        rotated(s) == s,
{
    assert(rotated(s) =~= s);
}

/// Moves every entry of `vec` one place to the right, the last one to the start.
pub fn rotate_vec<E>(vec: &mut Vec<E>)
    requires
        old(vec)@.len() > 0,
    ensures
        final(vec)@ == rotated(old(vec)@),
{
    let last_element = match vec.pop() {
        Some(e) => e,
        None => {
            return;
        },
    };
    vec.insert(0, last_element);
    proof {
        assert(vec@ =~= rotated(old(vec)@));
    }
}

/// Indexing that wraps around instead of running past the end:
/// position `index` names the element at `index % len`.
pub trait GetWrapping<T> {
    /// The elements, in order.
    spec fn wrapped_items(&self) -> Seq<T>;

    fn get_wrap(&self, index: usize) -> (r: &T)
        requires
            self.wrapped_items().len() > 0,
        ensures
            *r == self.wrapped_items()[index as int % self.wrapped_items().len() as int],
    ;
}

impl<T> GetWrapping<T> for Vec<T> {
    open spec fn wrapped_items(&self) -> Seq<T> {
        self@
    }

    fn get_wrap(&self, index: usize) -> (r: &T) {
        &self[index % self.len()]
    }
}

} // verus!
