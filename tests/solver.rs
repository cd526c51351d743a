use rapier::solver_vel::SolverVel;
use rapier::two_body_constraint::{
    contact_chunks, ContactData, ContactManifold, TwoBodyConstraintElement, TwoBodyConstraintNormalPart,
    TwoBodyConstraintSimd, TwoBodyConstraintTangentPart,
};

fn element(base: f32) -> TwoBodyConstraintElement<f32> {
    let lanes = |o: f32| [base + o, base + o + 0.1, base + o + 0.2, base + o + 0.3];
    TwoBodyConstraintElement {
        normal_part: TwoBodyConstraintNormalPart {
            gcross1: [lanes(0.0); 3],
            gcross2: [lanes(0.0); 3],
            rhs: lanes(1.0),
            rhs_wo_bias: lanes(2.0),
            impulse: lanes(3.0),
            total_impulse: lanes(4.0),
            r: lanes(5.0),
        },
        tangent_part: TwoBodyConstraintTangentPart {
            gcross1: [[lanes(0.0); 3]; 2],
            gcross2: [[lanes(0.0); 3]; 2],
            rhs: [lanes(6.0), lanes(7.0)],
            rhs_wo_bias: [lanes(8.0), lanes(9.0)],
            impulse: [
                [base + 10.0, base + 20.0],
                [base + 11.0, base + 21.0],
                [base + 12.0, base + 22.0],
                [base + 13.0, base + 23.0],
            ],
            total_impulse: [[0.0; 2]; 4],
            r: [lanes(0.0); 3],
        },
    }
}

fn constraint() -> TwoBodyConstraintSimd<f32> {
    TwoBodyConstraintSimd {
        dir1: [[0.0; 4], [1.0; 4], [0.0; 4]],
        tangent1: [[1.0; 4], [0.0; 4], [0.0; 4]],
        elements: [element(100.0), element(200.0)],
        num_contacts: 2,
        im1: [[1.0; 4]; 3],
        im2: [[1.0; 4]; 3],
        cfm_factor: [Some(0.5); 4],
        limit: [0.5; 4],
        solver_vel1: [0, 2, 4, 6],
        solver_vel2: [1, 3, 5, 7],
        manifold_id: [3, 2, 1, 0],
        manifold_contact_id: [[0, 0, 0, 0], [2, 1, 1, 1]],
    }
}

fn vel(x: f32) -> SolverVel<f32> {
    SolverVel { linear: [x, x + 1.0, x + 2.0], angular: [x + 3.0, x + 4.0, x + 5.0] }
}

#[test]
fn zero_velocity_has_zero_components() {
    let z: SolverVel<f32> = SolverVel::zero();
    assert_eq!(z.as_slice(), [0.0; 6]);
}

#[test]
fn velocity_slice_round_trip() {
    let v = vel(1.0);
    assert_eq!(v.as_slice(), [1.0, 2.0, 3.0, 4.0, 5.0, 6.0]);
    let w = SolverVel::from_slice([6.0, 5.0, 4.0, 3.0, 2.0, 1.0]);
    assert_eq!(w.linear, [6.0, 5.0, 4.0]);
    assert_eq!(w.angular, [3.0, 2.0, 1.0]);
}

#[test]
fn remove_cfm_and_bias_keeps_only_velocity_targets() {
    let mut c = constraint();
    c.remove_cfm_and_bias_from_rhs();
    assert_eq!(c.cfm_factor, [None; 4]);
    for k in 0..2 {
        let e = &c.elements[k];
        assert_eq!(e.normal_part.rhs, e.normal_part.rhs_wo_bias);
        assert_eq!(e.tangent_part.rhs, e.tangent_part.rhs_wo_bias);
        assert_eq!(e.normal_part.impulse, element(100.0 * (k as f32 + 1.0)).normal_part.impulse);
    }
    assert_eq!(c.elements[0].normal_part.rhs[2], 102.2);
    assert_eq!(c.limit, [0.5; 4]);
}

#[test]
fn writeback_copies_impulses_to_their_contacts() {
    let c = constraint();
    let blank = ContactData { impulse: -1.0f32, tangent_impulse: [-1.0, -1.0] };
    let mut manifolds: Vec<ContactManifold<f32>> =
        (0..4).map(|_| ContactManifold { points: vec![blank; 3] }).collect();
    c.writeback_impulses(&mut manifolds);
    // Lane 0: manifold 3, points 0 and 2.
    assert_eq!(manifolds[3].points[0].impulse, 103.0);
    assert_eq!(manifolds[3].points[0].tangent_impulse, [110.0, 120.0]);
    assert_eq!(manifolds[3].points[2].impulse, 203.0);
    assert_eq!(manifolds[3].points[1].impulse, -1.0);
    // Lane 2: manifold 1, points 0 and 1.
    assert_eq!(manifolds[1].points[0].impulse, 103.2);
    assert_eq!(manifolds[1].points[1].impulse, 203.2);
    assert_eq!(manifolds[1].points[1].tangent_impulse, [212.0, 222.0]);
    assert_eq!(manifolds[1].points[2].impulse, -1.0);
}

#[test]
fn writeback_only_uses_contacts_in_use() {
    let mut c = constraint();
    c.num_contacts = 1;
    let blank = ContactData { impulse: -1.0f32, tangent_impulse: [-1.0, -1.0] };
    let mut manifolds: Vec<ContactManifold<f32>> =
        (0..4).map(|_| ContactManifold { points: vec![blank; 3] }).collect();
    c.writeback_impulses(&mut manifolds);
    assert_eq!(manifolds[0].points[0].impulse, 103.3);
    assert_eq!(manifolds[0].points[1].impulse, -1.0);
    assert_eq!(manifolds[3].points[2].impulse, -1.0);
}

#[test]
fn gather_and_scatter_solver_velocities() {
    let c = constraint();
    let mut vels: Vec<SolverVel<f32>> = (0..8).map(|i| vel(i as f32 * 10.0)).collect();
    let (v1, v2) = c.gather_solver_vels(&vels);
    assert_eq!(v1[1].linear, [20.0, 21.0, 22.0]);
    assert_eq!(v2[3].angular, [73.0, 74.0, 75.0]);
    let new1 = [vel(-1.0), vel(-2.0), vel(-3.0), vel(-4.0)];
    let new2 = [vel(-5.0), vel(-6.0), vel(-7.0), vel(-8.0)];
    c.scatter_solver_vels(&mut vels, new1, new2);
    assert_eq!(vels[4].linear, [-3.0, -2.0, -1.0]);
    assert_eq!(vels[7].angular, [-5.0, -4.0, -3.0]);
    assert_eq!(vels[0].linear, [-1.0, 0.0, 1.0]);
}

#[test]
fn scatter_writes_second_bodies_last() {
    let mut c = constraint();
    c.solver_vel2 = [0, 3, 5, 7];
    let mut vels: Vec<SolverVel<f32>> = (0..8).map(|i| vel(i as f32)).collect();
    let new1 = [vel(-1.0), vel(-2.0), vel(-3.0), vel(-4.0)];
    let new2 = [vel(-5.0), vel(-6.0), vel(-7.0), vel(-8.0)];
    c.scatter_solver_vels(&mut vels, new1, new2);
    assert_eq!(vels[0].linear, [-5.0, -4.0, -3.0]);
}

#[test]
fn fast_contact_lanes_lose_softening() {
    let mut c = constraint();
    c.set_cfm_factor([false, true, false, true], 0.25);
    assert_eq!(c.cfm_factor, [Some(0.25), None, Some(0.25), None]);
    assert_eq!(c.limit, [0.5; 4]);
}

#[test]
fn storing_gathered_velocities_changes_nothing() {
    let mut c = constraint();
    c.solver_vel2 = [0, 3, 3, 7];
    let mut vels: Vec<SolverVel<f32>> = (0..8).map(|i| vel(i as f32)).collect();
    let before: Vec<[f32; 6]> = vels.iter().map(|v| v.as_slice()).collect();
    let (v1, v2) = c.gather_solver_vels(&vels);
    c.scatter_solver_vels(&mut vels, v1, v2);
    let after: Vec<[f32; 6]> = vels.iter().map(|v| v.as_slice()).collect();
    assert_eq!(before, after);
}

#[test]
fn contacts_are_cut_into_chunks_of_two() {
    assert_eq!(contact_chunks(0), vec![]);
    assert_eq!(contact_chunks(1), vec![(0, 1)]);
    assert_eq!(contact_chunks(2), vec![(0, 2)]);
    assert_eq!(contact_chunks(5), vec![(0, 2), (2, 2), (4, 1)]);
}
