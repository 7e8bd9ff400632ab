//! Observable values: a value with callbacks to run when it changes.
//!
//! Setting a property hands back the old value and the callbacks; raising
//! them runs each, in the order they were added, with the owner, a context
//! and the old value.

use vstd::prelude::*;

verus! {

/// A value and the callbacks to run after it is set.
pub struct Property<Owner, Type, Context, F> {
    value: Type,
    on_changed: Vec<F>,
    parties: Ghost<Option<(Owner, Context)>>,
}

/// The callbacks of a set, to run with the old value.
pub struct PropertyOnChanged<Owner, Type, Context, F>(pub Vec<F>, pub Ghost<Option<(Owner, Type, Context)>>);

impl<Owner, Type, Context, F: Fn(&mut Owner, &mut Context, &Type)> PropertyOnChanged<Owner, Type, Context, F> {
    /// Runs the callbacks in the order they were added, each with the owner
    /// and the context that the ones before it left, and with `old_value`.
    ///
    /// Stated as an induction over the calls: whatever holds of the owner and
    /// the context before the first call (as step 0), and is carried by each
    /// call `i` from step `i` to step `i + 1`, holds of them after the last
    /// one.
    pub fn raise(self, owner: &mut Owner, context: &mut Context, old_value: &Type)
        requires
            forall|i: int, a: (&mut Owner, &mut Context, &Type)| 0 <= i < self.0@.len() ==> #[trigger] self.0@[i].requires(a),
        ensures
            forall|inv: spec_fn(int, Owner, Context) -> bool|
                #[trigger] inv(0, *old(owner), *old(context))
                && (forall|i: int, a: (&mut Owner, &mut Context, &Type)|
                    0 <= i < self.0@.len() && inv(i, *a.0, *a.1) && *a.2 == *old_value && #[trigger] self.0@[i].ensures(a, ())
                    ==> inv(i + 1, *final(a.0), *final(a.1)))
                ==> inv(self.0@.len() as int, *final(owner), *final(context)),
    {
        let v = self.0;
        let mut i: usize = 0;
        let ghost o0 = *owner;
        let ghost c0 = *context;
        while i < v.len()
            invariant
                i <= v@.len(),
                o0 == *old(owner),
                c0 == *old(context),
                forall|k: int, a: (&mut Owner, &mut Context, &Type)| 0 <= k < v@.len() ==> #[trigger] v@[k].requires(a),
                forall|inv: spec_fn(int, Owner, Context) -> bool|
                    #[trigger] inv(0, o0, c0)
                    && (forall|j: int, a: (&mut Owner, &mut Context, &Type)|
                        0 <= j < v@.len() && inv(j, *a.0, *a.1) && *a.2 == *old_value && #[trigger] v@[j].ensures(a, ())
                        ==> inv(j + 1, *final(a.0), *final(a.1)))
                    ==> inv(i as int, *owner, *context),
            decreases v@.len() - i,
        {
            let f = &v[i];
            let ghost ob = *owner;
            let ghost cb = *context;
            f(owner, context, old_value);
            proof {
                assert(exists|a: (&mut Owner, &mut Context, &Type)| {
                    &&& *a.0 == ob && *a.1 == cb && *a.2 == *old_value
                    &&& *final(a.0) == *owner && *final(a.1) == *context
                    &&& #[trigger] v@[i as int].ensures(a, ())
                });
            }
            i = i + 1;
        }
    }
}

/// What `raise` states, applied to one property `inv` of the owner and the
/// context: it holds after the callbacks `fs` ran from `(o0, c0)` to
/// `(o1, c1)` with `old_value`, where it holds before them and each call
/// carries it one step on.
pub proof fn lemma_raised<Owner, Type, Context, F: Fn(&mut Owner, &mut Context, &Type)>(
    fs: Seq<F>,
    inv: spec_fn(int, Owner, Context) -> bool,
    o0: Owner,
    c0: Context,
    old_value: Type,
    o1: Owner,
    c1: Context,
)
    requires
        forall|inv2: spec_fn(int, Owner, Context) -> bool|
            #[trigger] inv2(0, o0, c0)
            && (forall|i: int, a: (&mut Owner, &mut Context, &Type)|
                0 <= i < fs.len() && inv2(i, *a.0, *a.1) && *a.2 == old_value && #[trigger] fs[i].ensures(a, ())
                ==> inv2(i + 1, *final(a.0), *final(a.1)))
            ==> inv2(fs.len() as int, o1, c1),
        inv(0, o0, c0),
        forall|i: int, a: (&mut Owner, &mut Context, &Type)|
            0 <= i < fs.len() && inv(i, *a.0, *a.1) && *a.2 == old_value && #[trigger] fs[i].ensures(a, ())
            ==> inv(i + 1, *final(a.0), *final(a.1)),
    ensures
        inv(fs.len() as int, o1, c1),
{
}

impl<Owner, Type, Context, F: Copy> Property<Owner, Type, Context, F> {
    pub closed spec fn value_spec(&self) -> Type {
        self.value
    }

    pub closed spec fn callbacks(&self) -> Seq<F> {
        self.on_changed@
    }

    pub fn new(value: Type) -> (r: Self)
        ensures
            r.value_spec() == value,
            r.callbacks() == Seq::<F>::empty(),
    {
        Property { value, on_changed: Vec::new(), parties: Ghost(None) }
    }

    /// Sets the value; returns the old one, and the callbacks to raise: the
    /// ones added so far, in order (a copy, which callbacks added later do
    /// not join).
    pub fn set(&mut self, value: Type) -> (r: (Type, PropertyOnChanged<Owner, Type, Context, F>))
        ensures
            r.0 == old(self).value_spec(),
            final(self).value_spec() == value,
            final(self).callbacks() == old(self).callbacks(),
            r.1.0@ == old(self).callbacks(),
    {
        let mut v = value;
        std::mem::swap(&mut self.value, &mut v);
        let mut fs: Vec<F> = Vec::new();
        let mut i: usize = 0;
        while i < self.on_changed.len()
            invariant
                i <= self.on_changed@.len(),
                fs@ == self.on_changed@.subrange(0, i as int),
            decreases self.on_changed@.len() - i,
        {
            fs.push(self.on_changed[i]);
            i = i + 1;
            proof {
                assert(fs@ =~= self.on_changed@.subrange(0, i as int));
            }
        }
        proof {
            assert(fs@ =~= self.on_changed@);
        }
        (v, PropertyOnChanged(fs, Ghost(None)))
    }

    pub fn get(&self) -> (r: &Type)
        ensures
            *r == self.value_spec(),
    {
        &self.value
    }

    /// Adds a callback, run after the ones added before.
    pub fn on_changed(&mut self, callback: F)
        ensures
            final(self).value_spec() == old(self).value_spec(),
            final(self).callbacks() == old(self).callbacks().push(callback),
    {
        self.on_changed.push(callback);
    }
}

} // verus!
