use raytracer::integrator::{trace, Interaction, PathSpace, MAX_DEPTH};
use raytracer::record::Walker;

/// A corridor of surfaces: the ray is a step number; each step either
/// scatters on with weight 2, or ends as the script says.
struct Corridor {
    end_at: Option<u32>,
    ending: fn() -> Interaction<u32, u64>,
    calls: u32,
}

impl PathSpace<u32, u64> for Corridor {
    fn interact(&mut self, ray: &u32) -> Interaction<u32, u64> {
        self.calls += 1;
        if Some(*ray) == self.end_at {
            (self.ending)()
        } else {
            Interaction::Scatter { next: ray + 1, weight: 2 }
        }
    }

    fn background(&self, _ray: &u32) -> u64 {
        7
    }

    fn black(&self) -> u64 {
        0
    }

    fn attenuate(&self, weight: &u64, incoming: &u64) -> u64 {
        weight.saturating_mul(*incoming)
    }
}

#[test]
fn endless_scattering_stops_at_max_depth() {
    let mut c = Walker::new(Corridor { end_at: None, ending: || Interaction::Escape, calls: 0 });
    let (colour, n) = trace(&mut c, &0, 0);
    assert_eq!(MAX_DEPTH, 50);
    assert_eq!(n, 50);
    assert_eq!(c.inner().calls, 50);
    assert_eq!(colour, 7u64.saturating_mul(1u64 << 50));
}

#[test]
fn emitter_ends_the_path() {
    let mut c = Walker::new(Corridor { end_at: Some(3), ending: || Interaction::Emit(5), calls: 0 });
    let (colour, n) = trace(&mut c, &0, 0);
    assert_eq!(n, 4);
    assert_eq!(colour, 5 * 8);
}

#[test]
fn escape_sees_background() {
    let mut c = Walker::new(Corridor { end_at: Some(0), ending: || Interaction::Escape, calls: 0 });
    assert_eq!(trace(&mut c, &0, 0), (7, 1));
}

#[test]
fn absorber_gives_black() {
    let mut c = Walker::new(Corridor { end_at: Some(2), ending: || Interaction::Absorb, calls: 0 });
    assert_eq!(trace(&mut c, &0, 0), (0, 3));
}

#[test]
fn at_max_depth_only_background() {
    let mut c = Walker::new(Corridor { end_at: None, ending: || Interaction::Escape, calls: 0 });
    assert_eq!(trace(&mut c, &0, MAX_DEPTH), (7, 0));
    assert_eq!(c.inner().calls, 0);
    let (_, n) = trace(&mut c, &0, 45);
    assert_eq!(n, 5);
    assert_eq!(trace(&mut c, &0, MAX_DEPTH + 7), (7, 0));
}
