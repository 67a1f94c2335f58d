use vstd::prelude::*;

verus! {

/// A value that may hold a list of values of its own kind (a module its submodules, a
/// provider the providers bound to it), which can be taken out of it.
pub trait Nested: Sized {
    /// The values held by this one.
    spec fn children(&self) -> Seq<Self>;

    /// This value with the values it holds taken out.
    spec fn stripped(&self) -> Self;

    /// The values of the forest `s` in pre-order: each value, stripped, is followed by the
    /// values it held, flattened, and then by the values that follow it.
    spec fn flat(s: Seq<Self>) -> Seq<Self>;

    /// One step of the definition of [`Nested::flat`].
    proof fn lemma_flat_step(s: Seq<Self>)
        ensures
            s.len() == 0 ==> Self::flat(s) == Seq::<Self>::empty(),
            s.len() > 0 ==> Self::flat(s) == seq![s[0].stripped()] + Self::flat(s[0].children()) + Self::flat(s.drop_first()),
    ;

    /// A value with the values it holds taken out holds none.
    proof fn lemma_stripped_childless(&self)
        ensures
            self.stripped().children() == Seq::<Self>::empty(),
    ;

    /// Takes out the values held by this one.
    fn take_children(&mut self) -> (r: Option<Vec<Self>>)
        ensures
            *final(self) == old(self).stripped(),
            r matches Some(v) ==> v@ == old(self).children(),
            r is None ==> old(self).children() == Seq::<Self>::empty(),
    ;
}

/// The sequence `s` in reverse order.
pub open spec fn rev<T>(s: Seq<T>) -> Seq<T> {
    Seq::new(s.len(), |i: int| s[s.len() - 1 - i])
}

proof fn lemma_rev_push<T>(s: Seq<T>, x: T)
    ensures
        rev(s.push(x)) == seq![x] + rev(s),
{
    assert(rev(s.push(x)) =~= seq![x] + rev(s));
}

proof fn lemma_rev_drop_last<T>(s: Seq<T>)
    requires
        s.len() > 0,
    ensures
        rev(s.drop_last()) == rev(s).drop_first(),
        rev(s)[0] == s.last(),
{
    assert(rev(s.drop_last()) =~= rev(s).drop_first());
}

/// Flattening distributes over concatenation.
pub proof fn lemma_flat_concat<T: Nested>(a: Seq<T>, b: Seq<T>)
    ensures
        T::flat(a + b) == T::flat(a) + T::flat(b),
    decreases a.len(),
{
    T::lemma_flat_step(a);
    T::lemma_flat_step(a + b);
    if a.len() == 0 {
        assert(a + b =~= b);
        assert(T::flat(a) + T::flat(b) =~= T::flat(b));
    } else {
        assert((a + b)[0] == a[0]);
        assert((a + b).drop_first() =~= a.drop_first() + b);
        lemma_flat_concat(a.drop_first(), b);
        assert(T::flat(a + b) =~= T::flat(a) + T::flat(b));
    }
}

/// Flattens the forest `unresolved` in pre-order: every value is followed by the values it
/// held, so that no value of the result holds any.
pub fn flatten<T: Nested>(unresolved: Vec<T>) -> (resolved: Vec<T>)
    ensures
        resolved@ == T::flat(unresolved@),
        forall|i: int| 0 <= i < resolved@.len() ==> (#[trigger] resolved@[i]).children() == Seq::<T>::empty(),
{
    let ghost input = unresolved@;
    let mut unresolved = unresolved;
    let mut stack: Vec<T> = Vec::new();
    while unresolved.len() > 0
        invariant
            unresolved@ + rev(stack@) == input,
        decreases unresolved@.len(),
    {
        let ghost before = unresolved@;
        let ghost stack_before = stack@;
        let element = unresolved.pop().unwrap();
        proof {
            lemma_rev_push(stack_before, element);
            assert(before == unresolved@.push(element));
            assert(unresolved@ + (seq![element] + rev(stack_before)) =~= before + rev(stack_before));
        }
        stack.push(element);
    }
    assert(rev(stack@) =~= input);
    let mut resolved: Vec<T> = Vec::new();
    assert(resolved@ + T::flat(rev(stack@)) =~= T::flat(input));
    while stack.len() > 0
        invariant
            resolved@ + T::flat(rev(stack@)) == T::flat(input),
            forall|i: int| 0 <= i < resolved@.len() ==> (#[trigger] resolved@[i]).children() == Seq::<T>::empty(),
        decreases T::flat(rev(stack@)).len(),
    {
        let ghost forest = rev(stack@);
        proof {
            lemma_rev_drop_last(stack@);
            T::lemma_flat_step(forest);
        }
        let mut element = stack.pop().unwrap();
        let ghost first = element;
        let ghost rest = rev(stack@);
        assert(forest[0] == first && forest.drop_first() == rest);
        match element.take_children() {
            Some(sublist) => {
                let mut sublist = sublist;
                let ghost children = sublist@;
                while sublist.len() > 0
                    invariant
                        sublist@ + rev(stack@) == children + rest,
                    decreases sublist@.len(),
                {
                    let ghost sub_before = sublist@;
                    let ghost stack_before = stack@;
                    let child = sublist.pop().unwrap();
                    proof {
                        lemma_rev_push(stack_before, child);
                        assert(sub_before == sublist@.push(child));
                        assert(sublist@ + (seq![child] + rev(stack_before)) =~= sub_before + rev(stack_before));
                    }
                    stack.push(child);
                }
                assert(rev(stack@) =~= children + rest);
            },
            None => {
                assert(first.children() + rest =~= rest);
            },
        }
        proof {
            first.lemma_stripped_childless();
            lemma_flat_concat(first.children(), rest);
            assert(rev(stack@) == first.children() + rest);
        }
        resolved.push(element);
        assert(resolved@ + T::flat(rev(stack@)) =~= T::flat(input));
    }
    assert(resolved@ =~= T::flat(input)) by {
        T::lemma_flat_step(rev(stack@));
    }
    resolved
}

} // verus!
