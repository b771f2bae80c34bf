use std::collections::HashMap;

use khimoo_portfolio::graph::{NodeContent, NodeId, NodeRegistry};
use khimoo_portfolio::physics::{
    BodyHandle, BodyManager, BodyParts, ForceApplicator, ForceCalculator, JointManager,
    PhysicsWorld, SimulationFlags,
};
use rapier2d::dynamics::{
    CCDSolver, GenericJoint, IntegrationParameters, IslandManager, MultibodyJointSet,
    RigidBodyBuilder, RigidBodyHandle, RigidBodyType, SpringJointBuilder,
};
use rapier2d::geometry::{ColliderBuilder, ColliderHandle, DefaultBroadPhase, NarrowPhase};
use rapier2d::na::Vector2;
use rapier2d::pipeline::PhysicsPipeline;

type Registry = NodeRegistry<(f32, f32)>;

fn text(title: &str) -> NodeContent {
    NodeContent::Text(title.to_string())
}

fn author(name: &str) -> NodeContent {
    NodeContent::Author { name: name.to_string(), image_url: "me.png".to_string(), bio: None }
}

fn flags(clustering: bool) -> SimulationFlags {
    SimulationFlags {
        enable_category_clustering: clustering,
        debug_mode: false,
        show_connection_lines: false,
    }
}

fn spring(stiffness: f32, damping: f32) -> GenericJoint {
    SpringJointBuilder::new(0.0, stiffness, damping).build().into()
}

fn part(position: (f32, f32), radius: i32, anchor: bool) -> BodyParts {
    BodyParts {
        body: RigidBodyBuilder::dynamic()
            .linear_damping(3.0)
            .angular_damping(6.0)
            .translation(Vector2::new(position.0, position.1))
            .build(),
        collider: ColliderBuilder::ball(radius as f32)
            .restitution(if anchor { 0.3 } else { 0.7 })
            .build(),
    }
}

fn parts_of(registry: &Registry) -> Vec<BodyParts> {
    (0..registry.node_count())
        .map(|i| {
            let record = registry.node_at(i);
            part(record.position, record.radius, registry.is_author_node(record.id))
        })
        .collect()
}

fn raw(handle: BodyHandle) -> RigidBodyHandle {
    RigidBodyHandle::from_raw_parts(handle.index, handle.generation)
}

fn kind_of(world: &PhysicsWorld<(f32, f32)>, id: NodeId) -> RigidBodyType {
    let handle = world.body_manager.get_body_handle(id).unwrap();
    world.body_manager.bodies.get(raw(handle)).unwrap().body_type()
}

fn colliders_of(world: &PhysicsWorld<(f32, f32)>, id: NodeId) -> Vec<ColliderHandle> {
    let handle = world.body_manager.get_body_handle(id).unwrap();
    world.body_manager.bodies.get(raw(handle)).unwrap().colliders().to_vec()
}

fn ball_radius(world: &PhysicsWorld<(f32, f32)>, collider: ColliderHandle) -> f32 {
    world.body_manager.colliders.get(collider).unwrap().shape().as_ball().unwrap().radius
}

/// Three article nodes and an anchor, linked in a chain through the anchor.
fn sample_registry() -> Registry {
    let mut registry = Registry::new();
    assert!(registry.add_node(NodeId(1), (400.0, 300.0), 60, author("Me")));
    assert!(registry.add_node(NodeId(2), (100.0, 300.0), 30, text("Rust")));
    assert!(registry.add_node(NodeId(3), (700.0, 300.0), 30, text("Nix")));
    assert!(registry.add_node(NodeId(4), (400.0, 50.0), 30, text("Vim")));
    assert!(registry.add_edge(NodeId(1), NodeId(2)));
    assert!(registry.add_edge(NodeId(1), NodeId(3)));
    assert!(registry.add_edge(NodeId(4), NodeId(1)));
    registry
}

fn sample_world() -> PhysicsWorld<(f32, f32)> {
    let registry = sample_registry();
    let parts = parts_of(&registry);
    PhysicsWorld::new(registry, parts, flags(true), &spring(5000.0, 100.0))
}

#[test]
fn new_world_has_one_dynamic_body_and_collider_per_node_and_one_joint_per_edge() {
    let world = sample_world();
    assert_eq!(world.body_manager.body_map.len(), 4);
    assert_eq!(world.body_manager.bodies.len(), 4);
    assert_eq!(world.body_manager.colliders.len(), 4);
    assert_eq!(world.joint_count(), 3);
    assert_eq!(world.joint_manager.impulse_joints.len(), 3);
    for id in [1u32, 2, 3, 4] {
        assert_eq!(kind_of(&world, NodeId(id)), RigidBodyType::Dynamic);
        assert_eq!(colliders_of(&world, NodeId(id)).len(), 1);
    }
    // The body of each node is the one made from the part at the node's index.
    let anchor = world.body_manager.get_body_handle(NodeId(1)).unwrap();
    let placed = world.body_manager.bodies.get(raw(anchor)).unwrap().translation();
    assert_eq!((placed.x, placed.y), (400.0, 300.0));
    let vim = world.body_manager.get_body_handle(NodeId(4)).unwrap();
    let placed = world.body_manager.bodies.get(raw(vim)).unwrap().translation();
    assert_eq!((placed.x, placed.y), (400.0, 50.0));
    assert_eq!(ball_radius(&world, colliders_of(&world, NodeId(1))[0]), 60.0);
    assert_eq!(ball_radius(&world, colliders_of(&world, NodeId(4))[0]), 30.0);
}

#[test]
fn joints_connect_the_bodies_of_their_edges_in_edge_order() {
    let world = sample_world();
    let edges = world.registry.iter_edges();
    assert_eq!(edges, vec![(NodeId(1), NodeId(2)), (NodeId(1), NodeId(3)), (NodeId(4), NodeId(1))]);
    for (k, (from, to)) in edges.iter().enumerate() {
        let handle = world.joint_manager.edge_joint_handles[k];
        let joint = world
            .joint_manager
            .impulse_joints
            .get(rapier2d::dynamics::ImpulseJointHandle::from_raw_parts(
                handle.index,
                handle.generation,
            ))
            .unwrap();
        assert_eq!(joint.body1, raw(world.body_manager.get_body_handle(*from).unwrap()));
        assert_eq!(joint.body2, raw(world.body_manager.get_body_handle(*to).unwrap()));
    }
}

#[test]
fn drag_makes_the_body_kinematic_and_release_makes_it_dynamic_under_the_same_handle() {
    let mut world = sample_world();
    let before = world.body_manager.get_body_handle(NodeId(2)).unwrap();
    world.set_node_kinematic(NodeId(2));
    assert_eq!(kind_of(&world, NodeId(2)), RigidBodyType::KinematicPositionBased);
    assert_eq!(kind_of(&world, NodeId(3)), RigidBodyType::Dynamic);
    assert_eq!(world.body_manager.get_body_handle(NodeId(2)), Some(before));
    world.set_node_dynamic(NodeId(2));
    assert_eq!(kind_of(&world, NodeId(2)), RigidBodyType::Dynamic);
    assert_eq!(world.body_manager.get_body_handle(NodeId(2)), Some(before));
    assert_eq!(world.body_manager.bodies.len(), 4);
}

#[test]
fn operations_on_an_unknown_node_change_nothing() {
    let mut world = sample_world();
    world.set_node_kinematic(NodeId(99));
    world.set_node_dynamic(NodeId(99));
    world.update_node_size(NodeId(99), 50, ColliderBuilder::ball(50.0).build());
    assert_eq!(world.body_manager.get_body_handle(NodeId(99)), None);
    assert_eq!(world.body_manager.bodies.len(), 4);
    assert_eq!(world.body_manager.colliders.len(), 4);
    assert_eq!(world.registry.node_count(), 4);
    assert_eq!(world.registry.get_radius(NodeId(99)), None);
    for id in [1u32, 2, 3, 4] {
        assert_eq!(kind_of(&world, NodeId(id)), RigidBodyType::Dynamic);
    }
}

#[test]
fn update_node_size_leaves_exactly_one_collider_of_the_new_size() {
    let mut world = sample_world();
    let old = colliders_of(&world, NodeId(3))[0];
    let untouched = colliders_of(&world, NodeId(2))[0];
    world.update_node_size(NodeId(3), 45, ColliderBuilder::ball(45.0).restitution(0.7).build());
    let now = colliders_of(&world, NodeId(3));
    assert_eq!(now.len(), 1);
    assert_eq!(ball_radius(&world, now[0]), 45.0);
    // The old collider has left the set, and the new one has another handle,
    // whose generation is the number of colliders removed before it came.
    assert!(world.body_manager.colliders.get(old).is_none());
    assert_ne!(old, now[0]);
    assert_eq!(old.into_raw_parts().1, 0);
    assert_eq!(now[0].into_raw_parts().1, 1);
    assert_eq!(world.body_manager.removals, 1);
    assert_eq!(world.body_manager.colliders.len(), 4);
    assert_eq!(colliders_of(&world, NodeId(2)), vec![untouched]);
    assert_eq!(world.registry.get_radius(NodeId(3)), Some(45));
    assert_eq!(
        world.body_manager.colliders.get(now[0]).unwrap().parent(),
        Some(raw(world.body_manager.get_body_handle(NodeId(3)).unwrap()))
    );
    // A second resize still leaves one collider.
    world.update_node_size(NodeId(3), 500, ColliderBuilder::ball(80.0).build());
    let now = colliders_of(&world, NodeId(3));
    assert_eq!(now.len(), 1);
    assert_eq!(ball_radius(&world, now[0]), 80.0);
    assert_eq!(now[0].into_raw_parts().1, 2);
    assert_eq!(world.body_manager.removals, 2);
    assert_eq!(world.registry.get_radius(NodeId(3)), Some(80));
    assert_eq!(world.body_manager.colliders.len(), 4);
}

#[test]
fn update_force_settings_rebuilds_exactly_one_joint_per_edge() {
    let mut world = sample_world();
    let old_handles = world.joint_manager.edge_joint_handles.clone();
    world.update_force_settings(flags(false), &spring(1234.0, 56.0));
    assert_eq!(world.joint_count(), 3);
    assert_eq!(world.joint_manager.impulse_joints.len(), 3);
    assert_eq!(world.flags, flags(false));
    assert_eq!(world.body_manager.bodies.len(), 4);
    assert_eq!(world.body_manager.colliders.len(), 4);
    for handle in &world.joint_manager.edge_joint_handles {
        let joint = world
            .joint_manager
            .impulse_joints
            .get(rapier2d::dynamics::ImpulseJointHandle::from_raw_parts(
                handle.index,
                handle.generation,
            ))
            .unwrap();
        let motor = joint.data.motor(rapier2d::dynamics::JointAxis::LinX).unwrap();
        assert_eq!(motor.stiffness, 1234.0);
        assert_eq!(motor.damping, 56.0);
    }
    // Rebuilding twice neither piles joints up nor loses any.
    world.update_force_settings(flags(true), &spring(10.0, 1.0));
    assert_eq!(world.joint_count(), 3);
    assert_eq!(world.joint_manager.impulse_joints.len(), 3);
    assert_eq!(old_handles.len(), 3);
}

#[test]
fn joints_are_made_only_for_edges_whose_nodes_both_have_bodies() {
    let registry = sample_registry();
    let mut bodies = BodyManager::new();
    let mut joints = JointManager::new();
    // Only nodes 1 and 2 get bodies.
    bodies.create_body_for_node(
        NodeId(1),
        part((0.0, 0.0), 60, true).body,
        part((0.0, 0.0), 60, true).collider,
    );
    bodies.create_body_for_node(
        NodeId(2),
        part((100.0, 0.0), 30, false).body,
        part((100.0, 0.0), 30, false).collider,
    );
    joints.create_joints_from_registry(&registry, &bodies, &spring(5.0, 1.0));
    assert_eq!(joints.joint_count(), 1);
    assert_eq!(joints.impulse_joints.len(), 1);
    joints.update_joint_strengths(&registry, &bodies, &spring(7.0, 1.0));
    assert_eq!(joints.joint_count(), 1);
    assert_eq!(joints.impulse_joints.len(), 1);
    joints.clear_joints();
    assert_eq!(joints.joint_count(), 0);
    assert_eq!(joints.impulse_joints.len(), 0);
}

#[test]
fn body_manager_maps_a_node_to_its_newest_body() {
    let mut bodies = BodyManager::new();
    assert_eq!(bodies.get_body_handle(NodeId(7)), None);
    let first = bodies.create_body_for_node(
        NodeId(7),
        RigidBodyBuilder::fixed().build(),
        ColliderBuilder::ball(10.0).build(),
    );
    // Whatever kind the body was built with, the node's body is dynamic.
    assert_eq!(bodies.bodies.get(raw(first)).unwrap().body_type(), RigidBodyType::Dynamic);
    assert_eq!(bodies.get_body_handle(NodeId(7)), Some(first));
    let second = bodies.create_body_for_node(
        NodeId(7),
        RigidBodyBuilder::dynamic().build(),
        ColliderBuilder::ball(10.0).build(),
    );
    assert_ne!(first, second);
    assert_eq!(bodies.get_body_handle(NodeId(7)), Some(second));
    assert_eq!(bodies.bodies.len(), 2);
    assert_eq!(bodies.colliders.len(), 2);
    let mut islands = IslandManager::new();
    assert_eq!(bodies.removals, 0);
    let replaced = bodies.bodies.get(raw(second)).unwrap().colliders()[0];
    bodies.update_node_size(NodeId(7), ColliderBuilder::ball(20.0).build(), &mut islands);
    assert_eq!(bodies.removals, 1);
    assert!(bodies.colliders.get(replaced).is_none());
    // A node without a body changes nothing.
    bodies.update_node_size(NodeId(8), ColliderBuilder::ball(20.0).build(), &mut islands);
    assert_eq!(bodies.removals, 1);
    assert_eq!(bodies.bodies.get(raw(second)).unwrap().colliders().len(), 1);
    assert_eq!(bodies.bodies.get(raw(first)).unwrap().colliders().len(), 1);
    assert_eq!(bodies.colliders.len(), 2);
}

#[test]
fn flags_follow_the_setters_and_lines_show_only_in_debug_mode() {
    let mut world = sample_world();
    assert!(!world.registry.connection_lines_visible());
    world.set_connection_lines_visible(true);
    assert!(world.flags.show_connection_lines);
    assert!(!world.registry.connection_lines_visible());
    world.set_debug_mode(true);
    assert!(world.flags.debug_mode);
    assert!(world.registry.connection_lines_visible());
    world.set_connection_lines_visible(false);
    assert!(!world.registry.connection_lines_visible());
    world.set_connection_lines_visible(true);
    assert!(world.registry.connection_lines_visible());
    world.set_debug_mode(false);
    assert!(!world.registry.connection_lines_visible());
    world.set_category_clustering_enabled(false);
    assert!(!world.flags.enable_category_clustering);
    assert!(world.flags.show_connection_lines);
    world.set_category_clustering_enabled(true);
    assert!(world.flags.enable_category_clustering);
}

#[test]
fn category_pairs_are_empty_while_clustering_is_disabled() {
    let mut registry = sample_registry();
    for id in [1u32, 2, 3, 4] {
        registry.set_node_category(NodeId(id), Some("programming".to_string()));
    }
    assert!(ForceCalculator::category_pairs(&registry, false).is_empty());
    let parts = parts_of(&registry);
    let mut world = PhysicsWorld::new(registry, parts, flags(false), &spring(1.0, 1.0));
    assert!(world.category_pairs().is_empty());
    world.set_category_clustering_enabled(true);
    assert_eq!(world.category_pairs().len(), 3);
}

#[test]
fn category_pairs_join_non_anchor_nodes_of_one_category_earlier_node_first() {
    let mut registry = sample_registry();
    assert!(registry.add_node(NodeId(5), (0.0, 0.0), 30, text("Hott")));
    registry.set_node_category(NodeId(1), Some("tools".to_string()));
    registry.set_node_category(NodeId(2), Some("programming".to_string()));
    registry.set_node_category(NodeId(3), Some("tools".to_string()));
    registry.set_node_category(NodeId(4), Some("tools".to_string()));
    registry.set_node_category(NodeId(5), Some("programming".to_string()));
    // Node 1 is the anchor and takes no part; nodes without a shared category do not pair.
    assert_eq!(
        ForceCalculator::category_pairs(&registry, true),
        vec![(NodeId(2), NodeId(5)), (NodeId(3), NodeId(4))]
    );
    registry.set_node_category(NodeId(5), None);
    assert_eq!(ForceCalculator::category_pairs(&registry, true), vec![(NodeId(3), NodeId(4))]);
}

#[test]
fn repulsion_pairs_list_every_pair_once_with_radii_and_anchor_flag() {
    let mut registry = Registry::new();
    registry.add_node(NodeId(10), (0.0, 0.0), 60, author("Me"));
    registry.add_node(NodeId(20), (0.0, 0.0), 30, text("A"));
    registry.add_node(NodeId(30), (0.0, 0.0), 25, text("B"));
    let pairs = ForceCalculator::repulsion_pairs(&registry);
    let seen: Vec<(u32, u32, i32, i32, bool)> = pairs
        .iter()
        .map(|p| (p.first.0, p.second.0, p.radius_first, p.radius_second, p.near_anchor))
        .collect();
    assert_eq!(
        seen,
        vec![(10, 20, 60, 30, true), (10, 30, 60, 25, true), (20, 30, 30, 25, false)]
    );
    // No pair is listed the other way round as well.
    for p in &pairs {
        assert!(!pairs.iter().any(|q| q.first == p.second && q.second == p.first));
    }
    assert!(ForceCalculator::repulsion_pairs(&Registry::new()).is_empty());
    let mut single = Registry::new();
    single.add_node(NodeId(1), (0.0, 0.0), 30, text("alone"));
    assert!(ForceCalculator::repulsion_pairs(&single).is_empty());
}

#[test]
fn node_size_updates_follow_the_sizing_policy_in_node_order() {
    let world = sample_world();
    let mut data: HashMap<u32, (Option<u8>, usize)> = HashMap::new();
    data.insert(4, (Some(5), 0)); // 30 + 5 * 8 = 70
    data.insert(2, (None, 1)); // 30 + 3 * 8 + 1 * 4 = 58
    data.insert(3, (Some(1), 100)); // 30 + 8 + 400, limited to 80
    data.insert(42, (Some(1), 1)); // not a node
    assert_eq!(
        world.node_size_updates(&data),
        vec![(NodeId(2), 58), (NodeId(3), 80), (NodeId(4), 70)]
    );
    assert_eq!(world.node_size_updates(&HashMap::new()), vec![]);
}

// ---------------------------------------------------------------------------
// A numeric step around the library's world, for the two layout scenarios.
// ---------------------------------------------------------------------------

struct Settings {
    repulsion_strength: f32,
    repulsion_min_distance: f32,
    author_repulsion_min_distance: f32,
    center_strength: f32,
    center_damping: f32,
}

struct Simulation {
    world: PhysicsWorld<(f32, f32)>,
    settings: Settings,
    center: (f32, f32),
    parameters: IntegrationParameters,
    broad_phase: DefaultBroadPhase,
    narrow_phase: NarrowPhase,
    multibody_joints: MultibodyJointSet,
    ccd_solver: CCDSolver,
}

impl Simulation {
    fn new(registry: Registry, settings: Settings, center: (f32, f32)) -> Simulation {
        let parts = parts_of(&registry);
        Simulation {
            world: PhysicsWorld::new(registry, parts, flags(false), &spring(0.0, 0.0)),
            settings,
            center,
            parameters: IntegrationParameters::default(),
            broad_phase: DefaultBroadPhase::new(),
            narrow_phase: NarrowPhase::new(),
            multibody_joints: MultibodyJointSet::new(),
            ccd_solver: CCDSolver::new(),
        }
    }

    fn position(&self, id: NodeId) -> (f32, f32) {
        self.world.registry.get(id).unwrap().position
    }

    fn impulse(&mut self, id: NodeId, x: f32, y: f32) {
        if let Some(handle) = self.world.body_manager.get_body_handle(id) {
            if let Some(body) = self.world.body_manager.bodies.get_mut(raw(handle)) {
                body.apply_impulse(Vector2::new(x, y), true);
            }
        }
    }

    fn step(&mut self) {
        self.parameters.dt = 1.0 / 12.0;
        let dt = self.parameters.dt;

        if let Some(anchor) = self.world.registry.get_author_node_id() {
            let at = self.position(anchor);
            let handle = self.world.body_manager.get_body_handle(anchor).unwrap();
            let velocity = *self.world.body_manager.bodies.get(raw(handle)).unwrap().linvel();
            let fx = self.settings.center_strength * (self.center.0 - at.0)
                - self.settings.center_damping * velocity.x;
            let fy = self.settings.center_strength * (self.center.1 - at.1)
                - self.settings.center_damping * velocity.y;
            self.impulse(anchor, fx * dt, fy * dt);
        }

        let mut forces: HashMap<u32, (f32, f32)> = HashMap::new();
        for pair in self.world.repulsion_pairs() {
            let from = self.position(pair.first);
            let to = self.position(pair.second);
            let dx = to.0 - from.0;
            let dy = to.1 - from.1;
            let distance = (dx * dx + dy * dy).sqrt();
            if distance < 1.0 {
                continue;
            }
            let base = if pair.near_anchor {
                self.settings.author_repulsion_min_distance
            } else {
                self.settings.repulsion_min_distance
            };
            let min_distance = pair.radius_first as f32 + pair.radius_second as f32 + base;
            if distance < min_distance {
                let magnitude =
                    self.settings.repulsion_strength * (min_distance - distance) / min_distance;
                let force_x = (dx / distance) * magnitude;
                let force_y = (dy / distance) * magnitude;
                let first = forces.entry(pair.first.0).or_insert((0.0, 0.0));
                first.0 -= force_x;
                first.1 -= force_y;
                let second = forces.entry(pair.second.0).or_insert((0.0, 0.0));
                second.0 += force_x;
                second.1 += force_y;
            }
        }
        for (id, force) in forces {
            self.impulse(NodeId(id), force.0, force.1);
        }

        let mut pipeline = PhysicsPipeline::new();
        pipeline.step(
            &Vector2::new(0.0, 0.0),
            &self.parameters,
            &mut self.world.island_manager,
            &mut self.broad_phase,
            &mut self.narrow_phase,
            &mut self.world.body_manager.bodies,
            &mut self.world.body_manager.colliders,
            &mut self.world.joint_manager.impulse_joints,
            &mut self.multibody_joints,
            &mut self.ccd_solver,
            None,
            &(),
            &(),
        );

        let positions: Vec<(NodeId, (f32, f32))> = self
            .world
            .simulated_bodies()
            .into_iter()
            .map(|(id, handle)| {
                let at = self.world.body_manager.bodies.get(raw(handle)).unwrap().translation();
                (id, (at.x, at.y))
            })
            .collect();
        self.world.update_node_positions(positions);
    }
}

#[test]
fn two_close_nodes_are_pushed_apart_to_their_threshold() {
    let mut registry = Registry::new();
    registry.add_node(NodeId(1), (100.0, 100.0), 30, text("A"));
    registry.add_node(NodeId(2), (150.0, 100.0), 30, text("B"));
    let settings = Settings {
        repulsion_strength: 68000.0,
        repulsion_min_distance: 50.0,
        author_repulsion_min_distance: 200.0,
        center_strength: 0.0,
        center_damping: 0.0,
    };
    let mut simulation = Simulation::new(registry, settings, (0.0, 0.0));
    let distance = |s: &Simulation| {
        let a = s.position(NodeId(1));
        let b = s.position(NodeId(2));
        ((a.0 - b.0).powi(2) + (a.1 - b.1).powi(2)).sqrt()
    };
    let mut last = distance(&simulation);
    assert_eq!(last, 50.0);
    for _ in 0..600 {
        simulation.step();
        let now = distance(&simulation);
        assert!(now >= last - 1e-3, "separation shrank from {} to {}", last, now);
        last = now;
    }
    assert!(last >= 110.0 - 0.5, "separation ended at {}", last);
    assert_eq!(simulation.world.body_manager.bodies.len(), 2);
    assert_eq!(simulation.world.joint_count(), 0);
}

#[test]
fn a_lone_anchor_settles_at_the_centre_of_the_container() {
    let mut registry = Registry::new();
    registry.add_node(NodeId(1), (120.0, 80.0), 60, author("Me"));
    assert_eq!(registry.get_author_node_id(), Some(NodeId(1)));
    let settings = Settings {
        repulsion_strength: 68000.0,
        repulsion_min_distance: 50.0,
        author_repulsion_min_distance: 200.0,
        center_strength: 6000.0,
        center_damping: 5.0,
    };
    // A container at (0, 0) of 800 by 600 has its centre at (400, 300).
    let mut simulation = Simulation::new(registry, settings, (400.0, 300.0));
    for _ in 0..3000 {
        simulation.step();
    }
    let at = simulation.position(NodeId(1));
    assert!((at.0 - 400.0).abs() < 1.0, "x ended at {}", at.0);
    assert!((at.1 - 300.0).abs() < 1.0, "y ended at {}", at.1);
    assert_eq!(simulation.world.joint_count(), 0);
}

#[test]
fn forces_for_nodes_without_a_live_body_are_dropped() {
    let world = sample_world();
    let two = world.body_manager.get_body_handle(NodeId(2)).unwrap();
    let four = world.body_manager.get_body_handle(NodeId(4)).unwrap();
    let forces = vec![(NodeId(4), "d"), (NodeId(77), "x"), (NodeId(2), "b"), (NodeId(4), "e")];
    assert_eq!(
        ForceApplicator::resolve_targets(&world.body_manager, forces),
        vec![(four, "d"), (two, "b"), (four, "e")]
    );
    let none: Vec<(NodeId, u8)> = vec![];
    assert_eq!(ForceApplicator::resolve_targets(&world.body_manager, none), vec![]);
    assert_eq!(
        ForceApplicator::resolve_targets(&BodyManager::new(), vec![(NodeId(1), 1u8)]),
        vec![]
    );
}

#[test]
fn the_centre_force_targets_the_anchor_only() {
    let world = sample_world();
    let anchor = world.body_manager.get_body_handle(NodeId(1)).unwrap();
    assert_eq!(world.center_force_target(), Some((NodeId(1), anchor)));
    let mut registry = Registry::new();
    registry.add_node(NodeId(1), (0.0, 0.0), 30, text("no author here"));
    let parts = parts_of(&registry);
    let world = PhysicsWorld::new(registry, parts, flags(true), &spring(1.0, 1.0));
    assert_eq!(world.center_force_target(), None);
}

#[test]
fn all_node_sizes_are_updated_in_order() {
    let mut world = sample_world();
    let updates = vec![(NodeId(2), 44), (NodeId(9), 50), (NodeId(3), 5), (NodeId(2), 70)];
    let colliders = vec![
        ColliderBuilder::ball(44.0).build(),
        ColliderBuilder::ball(50.0).build(),
        ColliderBuilder::ball(20.0).build(),
        ColliderBuilder::ball(70.0).build(),
    ];
    world.update_all_node_sizes(&updates, colliders);
    assert_eq!(world.registry.get_radius(NodeId(2)), Some(70));
    assert_eq!(world.registry.get_radius(NodeId(3)), Some(20));
    assert_eq!(world.registry.get_radius(NodeId(1)), Some(60));
    assert_eq!(world.body_manager.colliders.len(), 4);
    for id in [1u32, 2, 3, 4] {
        assert_eq!(colliders_of(&world, NodeId(id)).len(), 1);
    }
    assert_eq!(ball_radius(&world, colliders_of(&world, NodeId(2))[0]), 70.0);
    assert_eq!(ball_radius(&world, colliders_of(&world, NodeId(3))[0]), 20.0);
    assert_eq!(ball_radius(&world, colliders_of(&world, NodeId(4))[0]), 30.0);
    assert_eq!(world.joint_count(), 3);
}

#[test]
fn repulsion_impulses_of_a_pair_are_equal_and_opposite() {
    // Two nodes of radius 30, 50 apart, with a base distance of 50: threshold 110.
    let mut registry = Registry::new();
    registry.add_node(NodeId(1), (100.0, 100.0), 30, text("A"));
    registry.add_node(NodeId(2), (130.0, 140.0), 30, text("B"));
    let mut impulses: HashMap<u32, (f32, f32)> = HashMap::new();
    for pair in ForceCalculator::repulsion_pairs(&registry) {
        let from = registry.get(pair.first).unwrap().position;
        let to = registry.get(pair.second).unwrap().position;
        let (dx, dy) = (to.0 - from.0, to.1 - from.1);
        let distance = (dx * dx + dy * dy).sqrt();
        let threshold = pair.radius_first as f32 + pair.radius_second as f32 + 50.0;
        assert_eq!(distance, 50.0);
        assert_eq!(threshold, 110.0);
        let magnitude = 1100.0 * (threshold - distance) / threshold;
        let first = impulses.entry(pair.first.0).or_insert((0.0, 0.0));
        first.0 -= dx / distance * magnitude;
        first.1 -= dy / distance * magnitude;
        let second = impulses.entry(pair.second.0).or_insert((0.0, 0.0));
        second.0 += dx / distance * magnitude;
        second.1 += dy / distance * magnitude;
    }
    let (a, b) = (impulses[&1], impulses[&2]);
    assert_eq!(a.0, -b.0);
    assert_eq!(a.1, -b.1);
    // 1100 * 60 / 110 = 600 along (0.6, 0.8), and the pair is listed once.
    assert!((a.0 + 360.0).abs() < 1e-3 && (a.1 + 480.0).abs() < 1e-3, "{:?}", a);
    assert!((a.0 * a.0 + a.1 * a.1).sqrt() - 600.0 < 1e-3);
}

#[test]
fn positions_are_written_back_in_order_for_known_nodes() {
    let mut world = sample_world();
    let listed = world.simulated_bodies();
    let ids: Vec<NodeId> = listed.iter().map(|(id, _)| *id).collect();
    assert_eq!(ids, vec![NodeId(1), NodeId(2), NodeId(3), NodeId(4)]);
    for (id, handle) in &listed {
        assert_eq!(world.body_manager.get_body_handle(*id), Some(*handle));
    }
    world.update_node_positions(vec![
        (NodeId(2), (1.0, 2.0)),
        (NodeId(8), (9.0, 9.0)),
        (NodeId(3), (3.0, 4.0)),
        (NodeId(2), (5.0, 6.0)),
    ]);
    assert_eq!(world.registry.get(NodeId(2)).unwrap().position, (5.0, 6.0));
    assert_eq!(world.registry.get(NodeId(3)).unwrap().position, (3.0, 4.0));
    assert_eq!(world.registry.get(NodeId(1)).unwrap().position, (400.0, 300.0));
    assert_eq!(world.registry.node_count(), 4);
    assert_eq!(world.joint_count(), 3);
}

#[test]
fn bodies_are_reached_by_node() {
    let mut world = sample_world();
    let at = world.body_manager.get_body(NodeId(3)).unwrap().translation();
    assert_eq!((at.x, at.y), (700.0, 300.0));
    assert!(world.body_manager.get_body(NodeId(9)).is_none());
    assert!(world.body_manager.get_body_mut(NodeId(9)).is_none());
    world
        .body_manager
        .get_body_mut(NodeId(3))
        .unwrap()
        .set_translation(Vector2::new(1.0, 2.0), true);
    let at = world.body_manager.get_body(NodeId(3)).unwrap().translation();
    assert_eq!((at.x, at.y), (1.0, 2.0));
    assert_eq!(world.body_manager.bodies.len(), 4);
    assert_eq!(kind_of(&world, NodeId(3)), RigidBodyType::Dynamic);
}

#[test]
fn rebuilt_joints_are_new_joints() {
    let mut world = sample_world();
    let before = world.joint_manager.edge_joint_handles.clone();
    assert_eq!(world.joint_manager.removals, 0);
    for handle in &before {
        assert_eq!(handle.generation, 0);
    }
    world.update_force_settings(flags(true), &spring(9.0, 1.0));
    assert_eq!(world.joint_manager.removals, 3);
    let after = world.joint_manager.edge_joint_handles.clone();
    assert_eq!(after.len(), 3);
    for handle in &after {
        assert!(!before.contains(handle));
        assert_eq!(handle.generation, 3);
    }
    for handle in &before {
        assert!(world
            .joint_manager
            .impulse_joints
            .get(rapier2d::dynamics::ImpulseJointHandle::from_raw_parts(
                handle.index,
                handle.generation
            ))
            .is_none());
    }
    world.joint_manager.clear_joints();
    assert_eq!(world.joint_manager.removals, 6);
    assert_eq!(world.joint_manager.joint_count(), 0);
}

#[test]
fn a_batch_resize_replaces_the_colliders_of_the_named_nodes_only() {
    let mut world = sample_world();
    let one = colliders_of(&world, NodeId(1))[0];
    let two = colliders_of(&world, NodeId(2))[0];
    let three = colliders_of(&world, NodeId(3))[0];
    let four = colliders_of(&world, NodeId(4))[0];
    let updates = vec![(NodeId(2), 44), (NodeId(9), 50), (NodeId(3), 25), (NodeId(2), 70)];
    let colliders = vec![
        ColliderBuilder::ball(44.0).build(),
        ColliderBuilder::ball(50.0).build(),
        ColliderBuilder::ball(25.0).build(),
        ColliderBuilder::ball(70.0).build(),
    ];
    world.update_all_node_sizes(&updates, colliders);
    // Three resizes name a node with a body.
    assert_eq!(world.body_manager.removals, 3);
    assert_eq!(colliders_of(&world, NodeId(1)), vec![one]);
    assert_eq!(colliders_of(&world, NodeId(4)), vec![four]);
    assert!(world.body_manager.colliders.get(two).is_none());
    assert!(world.body_manager.colliders.get(three).is_none());
    assert_ne!(colliders_of(&world, NodeId(2))[0], two);
    assert_ne!(colliders_of(&world, NodeId(3))[0], three);
    // Each node carries the collider handed in for its last resize.
    assert_eq!(ball_radius(&world, colliders_of(&world, NodeId(2))[0]), 70.0);
    assert_eq!(ball_radius(&world, colliders_of(&world, NodeId(3))[0]), 25.0);
    assert_eq!(ball_radius(&world, one), 60.0);
}
