use raytracer::axis::Axis;
use raytracer::noise::{gradient_choice, gradient_index, lattice_cell, noise_table, GradientChoice};

#[test]
fn table_is_the_permutation_twice() {
    let t = noise_table();
    assert_eq!(t.len(), 512);
    assert_eq!((t[0], t[255], t[63]), (63, 199, 203));
    assert_eq!(&t[0..256], &t[256..512]);
    let mut seen = [false; 256];
    for v in &t[0..256] {
        seen[*v as usize] = true;
    }
    assert!(seen.iter().all(|&s| s));
}

#[test]
fn corner_hashes() {
    let t = noise_table();
    assert_eq!(gradient_index(&t, 0, 0, 0), 11);
    assert_eq!(gradient_index(&t, 1, 2, 3), 4);
    assert_eq!(gradient_index(&t, 256, 256, 256), 11);
    assert_eq!(gradient_index(&t, 17, 200, 99), 13);
}

#[test]
fn lattice_cells_wrap() {
    assert_eq!(lattice_cell(0), 0);
    assert_eq!(lattice_cell(255), 255);
    assert_eq!(lattice_cell(256), 0);
    assert_eq!(lattice_cell(-1), 255);
    assert_eq!(lattice_cell(-256), 0);
}

#[test]
fn gradient_choices() {
    assert_eq!(
        gradient_choice(0),
        GradientChoice { u: Axis::X, v: Axis::Y, negate_u: false, negate_v: false }
    );
    assert_eq!(
        gradient_choice(7),
        GradientChoice { u: Axis::X, v: Axis::Z, negate_u: true, negate_v: true }
    );
    assert_eq!(
        gradient_choice(13),
        GradientChoice { u: Axis::X, v: Axis::Y, negate_u: true, negate_v: false }
    );
    assert_eq!(
        gradient_choice(10),
        GradientChoice { u: Axis::Y, v: Axis::Z, negate_u: false, negate_v: true }
    );
}
