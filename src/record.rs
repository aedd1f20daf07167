use vstd::prelude::*;
use crate::aggregate::BvhQuery;
use crate::axis::Axis;
use crate::bounds::AABB;
use crate::integrator::{Interaction, PathSpace};

verus! {

/// A query of a hierarchy together with the record of what it was asked:
/// the shapes it was told to test, in order, and how many boxes it turned
/// down. The record changes only through the calls below, each of which
/// passes the call on to the query.
pub struct Recorder<Q> {
    query: Q,
    tested: Ghost<Seq<usize>>,
    rejected: Ghost<nat>,
}

impl<Q> Recorder<Q> {
    /// The shapes the query has been told to test, in order.
    pub closed spec fn tested(&self) -> Seq<usize> {
        self.tested@
    }

    /// How many boxes the query has turned down.
    pub closed spec fn rejected(&self) -> nat {
        self.rejected@
    }

    pub fn new(query: Q) -> (r: Recorder<Q>)
        ensures
            r.tested() == Seq::<usize>::empty(),
            r.rejected() == 0,
    {
        Recorder { query, tested: Ghost(Seq::empty()), rejected: Ghost(0) }
    }

    /// The query, for reading what it found.
    pub fn inner(&self) -> &Q {
        &self.query
    }

    pub fn into_inner(self) -> Q {
        self.query
    }

    /// Asks the query whether the ray can meet anything in the box.
    pub fn hits_box<T>(&mut self, bounds: &AABB<T>) -> (r: bool)
        where
            Q: BvhQuery<T>,
        ensures
            final(self).tested() == old(self).tested(),
            final(self).rejected() == old(self).rejected() + if r { 0nat } else { 1nat },
    {
        let r = self.query.hits_box(bounds);
        if !r {
            self.rejected = Ghost(self.rejected@ + 1);
        }
        r
    }

    /// Asks the query which way the ray goes along `axis`.
    pub fn is_negative<T>(&self, axis: Axis) -> bool
        where
            Q: BvhQuery<T>,
    {
        self.query.is_negative(axis)
    }

    /// Tells the query to test shape `shape`.
    pub fn test_shape<T>(&mut self, shape: usize)
        where
            Q: BvhQuery<T>,
        ensures
            final(self).tested() == old(self).tested().push(shape),
            final(self).rejected() == old(self).rejected(),
    {
        self.query.test_shape(shape);
        self.tested = Ghost(self.tested@.push(shape));
    }
}

/// One call that a path estimate made on its scene, with what came back.
pub enum Event<R, C> {
    Interact(Interaction<R, C>),
    Background(R, C),
    Black(C),
    /// A weight, the colour it was applied to, and the result.
    Attenuate(C, C, C),
}

/// A scene together with the record of the calls made on it, in order.
/// The record changes only through the calls below, each of which passes
/// the call on to the scene.
pub struct Walker<S, R, C> {
    space: S,
    events: Ghost<Seq<Event<R, C>>>,
}

impl<S, R, C> Walker<S, R, C> {
    /// The calls made on the scene so far, with their results.
    pub closed spec fn events(&self) -> Seq<Event<R, C>> {
        self.events@
    }

    pub fn new(space: S) -> (r: Walker<S, R, C>)
        ensures
            r.events() == Seq::<Event<R, C>>::empty(),
    {
        Walker { space, events: Ghost(Seq::empty()) }
    }

    pub fn inner(&self) -> &S {
        &self.space
    }

    pub fn into_inner(self) -> S {
        self.space
    }

    pub fn interact(&mut self, ray: &R) -> (r: Interaction<R, C>)
        where
            S: PathSpace<R, C>,
        ensures
            final(self).events() == old(self).events().push(Event::Interact(r)),
    {
        let r = self.space.interact(ray);
        self.events = Ghost(self.events@.push(Event::Interact(r)));
        r
    }

    pub fn background(&mut self, ray: &R) -> (r: C)
        where
            S: PathSpace<R, C>,
        ensures
            final(self).events() == old(self).events().push(Event::Background(*ray, r)),
    {
        let r = self.space.background(ray);
        self.events = Ghost(self.events@.push(Event::Background(*ray, r)));
        r
    }

    pub fn black(&mut self) -> (r: C)
        where
            S: PathSpace<R, C>,
        ensures
            final(self).events() == old(self).events().push(Event::Black(r)),
    {
        let r = self.space.black();
        self.events = Ghost(self.events@.push(Event::Black(r)));
        r
    }

    pub fn attenuate(&mut self, weight: &C, incoming: &C) -> (r: C)
        where
            S: PathSpace<R, C>,
        ensures
            final(self).events() == old(self).events().push(Event::Attenuate(*weight, *incoming, r)),
    {
        let r = self.space.attenuate(weight, incoming);
        self.events = Ghost(self.events@.push(Event::Attenuate(*weight, *incoming, r)));
        r
    }
}

} // verus!
