use anatomy::body_part::{BodyPart, BodyPartConnection, BodyPartLayer};
use anatomy::body_part_builder::BodyPartBuilder;
use anatomy::mob::{Mob, PartVisit};

fn part(name: &str) -> BodyPart {
    BodyPartBuilder::new(name)
        .layer(BodyPartLayer::default())
        .layer(BodyPartLayer::default())
        .build()
        .unwrap()
}

fn edges(m: &Mob) -> Vec<(usize, usize, BodyPartConnection)> {
    m.body_part_graph
        .raw_edges()
        .iter()
        .map(|e| (e.source().index(), e.target().index(), e.weight))
        .collect()
}

#[test]
fn add_body_part_adds_one_edge_per_connection() {
    let mut m = Mob::new("gob".to_string(), part("chest"));
    let n = m.add_body_part(
        part("neck"),
        m.root,
        vec![BodyPartConnection::Structure, BodyPartConnection::BloodSupply],
    );
    assert_eq!(n, 1);
    assert_eq!(m.body_part_graph.node_count(), 2);
    assert_eq!(
        edges(&m),
        vec![(0, 1, BodyPartConnection::Structure), (0, 1, BodyPartConnection::BloodSupply)]
    );
    assert_eq!(m.part(1).unwrap().name, "neck");
}

#[test]
fn add_body_part_sym_makes_left_and_right_copies() {
    let mut m = Mob::new("gob".to_string(), part("chest"));
    let (l, r) = m.add_body_part_sym(
        part("arm"),
        m.root,
        vec![BodyPartConnection::Structure, BodyPartConnection::BloodSupply],
    );
    assert_eq!((l, r), (1, 2));
    assert_eq!(m.part(l).unwrap().name, "arm_l");
    assert_eq!(m.part(r).unwrap().name, "arm_r");
    assert_eq!(m.part(l).unwrap().layers.len(), 2);
    assert_eq!(m.part(r).unwrap().layers.len(), 2);
    assert_eq!(
        edges(&m),
        vec![
            (0, 1, BodyPartConnection::Structure),
            (0, 1, BodyPartConnection::BloodSupply),
            (0, 2, BodyPartConnection::Structure),
            (0, 2, BodyPartConnection::BloodSupply),
        ]
    );
}

#[test]
fn add_body_part_sym_both_keeps_chains_apart() {
    let mut m = Mob::new("gob".to_string(), part("chest"));
    let arms = m.add_body_part_sym(part("arm"), m.root, vec![BodyPartConnection::Structure]);
    let hands = m.add_body_part_sym_both(part("hand"), arms, vec![BodyPartConnection::Structure]);
    assert_eq!(hands, (3, 4));
    assert_eq!(m.part(3).unwrap().name, "hand_l");
    assert_eq!(
        edges(&m)[2..].to_vec(),
        vec![(1, 3, BodyPartConnection::Structure), (2, 4, BodyPartConnection::Structure)]
    );
}

#[test]
fn traversal_skips_blood_supply_and_keeps_edge_order() {
    let mut m = Mob::new("gob".to_string(), part("chest"));
    let neck = m.add_body_part(part("neck"), m.root, vec![BodyPartConnection::Structure]);
    let heart = m.add_body_part(part("heart"), m.root, vec![BodyPartConnection::Container]);
    let vein = m.add_body_part(part("vein"), m.root, vec![BodyPartConnection::BloodSupply]);
    let head = m.add_body_part(
        part("head"),
        neck,
        vec![BodyPartConnection::BloodSupply, BodyPartConnection::Structure],
    );
    let visits = m.traverse();
    assert_eq!(
        visits,
        vec![
            PartVisit { depth: 0, connection: None, node: m.root },
            PartVisit { depth: 1, connection: Some(BodyPartConnection::Structure), node: neck },
            PartVisit { depth: 2, connection: Some(BodyPartConnection::Structure), node: head },
            PartVisit { depth: 1, connection: Some(BodyPartConnection::Container), node: heart },
        ]
    );
    assert!(visits.iter().all(|v| v.node != vein));
}
