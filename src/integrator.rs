use vstd::prelude::*;
use crate::record::{Event, Walker};

verus! {

/// The number of surface interactions after which a path is cut off and
/// sees the background.
pub const MAX_DEPTH: u32 = 50;

/// What the scene does to a path at one interaction.
pub enum Interaction<R, C> {
    /// The ray leaves the scene: the path sees the background.
    Escape,
    /// The ray meets an emitter: the path sees its emission.
    Emit(C),
    /// The ray meets a surface that neither emits nor scatters: black.
    Absorb,
    /// The ray scatters into `next`; what arrives along `next` is weighted
    /// by `weight` (attenuation times the scattering density over the
    /// sampling density).
    Scatter { next: R, weight: C },
}

/// The scene as a path sees it: rays of type `R` and colours of type `C`.
pub trait PathSpace<R, C> {
    /// Follows `ray` to its closest hit and shades it.
    fn interact(&mut self, ray: &R) -> Interaction<R, C>;

    /// The colour seen along a ray that meets nothing.
    fn background(&self, ray: &R) -> C;

    fn black(&self) -> C;

    /// `weight` applied to the colour `incoming`.
    fn attenuate(&self, weight: &C, incoming: &C) -> C;
}

/// The calls that estimating the colour along `ray` at interaction number
/// `depth` makes on the scene, in order, when the estimate is `result`:
/// - at or past `MAX_DEPTH`, only the background along `ray`, which is the
///   result;
/// - otherwise one interaction, then: for an escape, the background along
///   `ray`; for an emitter, nothing more, the emission being the result; for
///   an absorber, black; for a scattering, the calls of the estimate along
///   the scattered ray at the next depth, then the weight applied to that
///   estimate, which gives the result.
pub open spec fn trace_events<R, C>(depth: int, ray: R, events: Seq<Event<R, C>>, result: C) -> bool
    decreases events.len(),
{
    if depth >= MAX_DEPTH {
        events == seq![Event::Background(ray, result)]
    } else if events.len() == 0 {
        false
    } else {
        match events[0] {
            Event::Interact(Interaction::Escape) => events == seq![events[0], Event::Background(ray, result)],
            Event::Interact(Interaction::Emit(e)) => events.len() == 1 && result == e,
            Event::Interact(Interaction::Absorb) => events == seq![events[0], Event::Black(result)],
            Event::Interact(Interaction::Scatter { next, weight }) => {
                &&& events.len() >= 2
                &&& match events.last() {
                    Event::Attenuate(w, incoming, out) => {
                        &&& w == weight
                        &&& out == result
                        &&& trace_events(depth + 1, next, events.subrange(1, events.len() - 1), incoming)
                    },
                    _ => false,
                }
            },
            _ => false,
        }
    }
}

/// How many of `events` are interactions.
pub open spec fn interactions<R, C>(events: Seq<Event<R, C>>) -> nat
    decreases events.len(),
{
    if events.len() == 0 {
        0
    } else {
        interactions(events.drop_last()) + if events.last() is Interact { 1nat } else { 0nat }
    }
}

/// How many of `events` consult the background.
pub open spec fn backgrounds<R, C>(events: Seq<Event<R, C>>) -> nat
    decreases events.len(),
{
    if events.len() == 0 {
        0
    } else {
        backgrounds(events.drop_last()) + if events.last() is Background { 1nat } else { 0nat }
    }
}

proof fn lemma_counts_concat<R, C>(a: Seq<Event<R, C>>, b: Seq<Event<R, C>>)
    ensures
        interactions(a + b) == interactions(a) + interactions(b),
        backgrounds(a + b) == backgrounds(a) + backgrounds(b),
    decreases b.len(),
{
    if b.len() == 0 {
        assert(a + b =~= a);
    } else {
        assert((a + b).drop_last() =~= a + b.drop_last());
        lemma_counts_concat(a, b.drop_last());
    }
}

proof fn lemma_counts_small<R, C>(events: Seq<Event<R, C>>)
    requires
        events.len() <= 2,
    ensures
        interactions(events) == (if events.len() >= 1 && events[0] is Interact { 1nat } else { 0nat })
            + (if events.len() == 2 && events[1] is Interact { 1nat } else { 0nat }),
        backgrounds(events) == (if events.len() >= 1 && events[0] is Background { 1nat } else { 0nat })
            + (if events.len() == 2 && events[1] is Background { 1nat } else { 0nat }),
{
    let e = Seq::<Event<R, C>>::empty();
    assert(interactions(e) == 0 && backgrounds(e) == 0);
    if events.len() == 1 {
        assert(events.drop_last() =~= e);
        assert(events.last() == events[0]);
        assert(interactions(events) == interactions(e) + if events[0] is Interact { 1nat } else { 0nat });
        assert(backgrounds(events) == backgrounds(e) + if events[0] is Background { 1nat } else { 0nat });
    } else if events.len() == 2 {
        let one = events.drop_last();
        assert(one =~= seq![events[0]]);
        assert(one.drop_last() =~= e);
        assert(one.last() == events[0]);
        assert(events.last() == events[1]);
        assert(interactions(one) == interactions(e) + if events[0] is Interact { 1nat } else { 0nat });
        assert(backgrounds(one) == backgrounds(e) + if events[0] is Background { 1nat } else { 0nat });
        assert(interactions(events) == interactions(one) + if events[1] is Interact { 1nat } else { 0nat });
        assert(backgrounds(events) == backgrounds(one) + if events[1] is Background { 1nat } else { 0nat });
    }
}

/// The calls of an estimate that started at interaction number `depth`
/// hold no interaction at or past `MAX_DEPTH`, at most `MAX_DEPTH - depth`
/// before it, and consult the background at most once.
pub proof fn lemma_trace_events_bounded<R, C>(depth: int, ray: R, events: Seq<Event<R, C>>, result: C)
    requires
        trace_events(depth, ray, events, result),
    ensures
        depth >= MAX_DEPTH ==> interactions(events) == 0,
        depth < MAX_DEPTH ==> 1 <= interactions(events) <= MAX_DEPTH - depth,
        backgrounds(events) <= 1,
    decreases events.len(),
{
    if depth >= MAX_DEPTH {
        lemma_counts_small(events);
    } else {
        match events[0] {
            Event::Interact(Interaction::Scatter { next, weight }) => {
                let inner = events.subrange(1, events.len() - 1);
                lemma_trace_events_bounded(depth + 1, next, inner, match events.last() {
                    Event::Attenuate(_, incoming, _) => incoming,
                    _ => result,
                });
                assert(events =~= seq![events[0]] + inner + seq![events.last()]);
                lemma_counts_concat(seq![events[0]] + inner, seq![events.last()]);
                lemma_counts_concat(seq![events[0]], inner);
                lemma_counts_small(seq![events[0]]);
                lemma_counts_small(seq![events.last()]);
            },
            _ => {
                lemma_counts_small(events);
            },
        }
    }
}

/// Estimates the colour arriving along `ray`, which is the path's
/// interaction number `depth`, by following it through the scene until it
/// escapes, meets an emitter or an absorber, or reaches `MAX_DEPTH`, past
/// which it sees the background without looking further. The calls it makes
/// on the scene are exactly those `trace_events` describes, and the estimate
/// is what they give. Returns the estimate and the number of interactions
/// it took; the recursion always ends.
pub fn trace<R, C, S: PathSpace<R, C>>(walker: &mut Walker<S, R, C>, ray: &R, depth: u32) -> (r: (C, u32))
    ensures
        old(walker).events().is_prefix_of(final(walker).events()),
        trace_events(
            depth as int,
            *ray,
            final(walker).events().skip(old(walker).events().len() as int),
            r.0,
        ),
        depth >= MAX_DEPTH ==> r.1 == 0,
        depth < MAX_DEPTH ==> 1 <= r.1 <= MAX_DEPTH - depth,
    decreases MAX_DEPTH - depth,
{
    let ghost e0 = walker.events();
    if depth >= MAX_DEPTH {
        let b = walker.background(ray);
        assert(walker.events().skip(e0.len() as int) =~= seq![Event::<R, C>::Background(*ray, b)]);
        return (b, 0);
    }
    let i = walker.interact(ray);
    let ghost e1 = walker.events();
    let ghost first = Event::Interact(i);
    assert(e1 == e0.push(first));
    match i {
        Interaction::Escape => {
            let b = walker.background(ray);
            assert(walker.events().skip(e0.len() as int) =~= seq![first, Event::Background(*ray, b)]);
            (b, 1)
        },
        Interaction::Emit(e) => {
            assert(walker.events().skip(e0.len() as int) =~= seq![first]);
            (e, 1)
        },
        Interaction::Absorb => {
            let b = walker.black();
            assert(walker.events().skip(e0.len() as int) =~= seq![first, Event::Black(b)]);
            (b, 1)
        },
        Interaction::Scatter { next, weight } => {
            let (incoming, n) = trace(walker, &next, depth + 1);
            let ghost e2 = walker.events();
            let out = walker.attenuate(&weight, &incoming);
            proof {
                let tail = walker.events().skip(e0.len() as int);
                let inner = e2.skip(e1.len() as int);
                assert(e1 =~= e2.subrange(0, e1.len() as int));
                assert(e2 =~= e1 + inner);
                assert(walker.events() == e2.push(Event::<R, C>::Attenuate(weight, incoming, out)));
                assert(walker.events() =~= e0 + (seq![first] + inner + seq![Event::<R, C>::Attenuate(weight, incoming, out)]));
                assert(tail =~= seq![first] + inner + seq![Event::<R, C>::Attenuate(weight, incoming, out)]);
                assert(tail.subrange(1, tail.len() - 1) =~= inner);
                assert(tail[0] == first);
                assert(tail.last() == Event::<R, C>::Attenuate(weight, incoming, out));
                assert(e0 =~= walker.events().subrange(0, e0.len() as int));
            }
            (out, n + 1)
        },
    }
}

} // verus!
