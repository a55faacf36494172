use anatomy::body_part::{
    BodyPart, BodyPartLayer, BodyPartLayerType, BodyPartType, DamageMultipliers,
};
use anatomy::body_part_builder::BodyPartBuilder;
use anatomy::damage::{DamageInstance, DamageResult, DamageType};

fn layer(layer_type: BodyPartLayerType, hp: u32, m: DamageMultipliers) -> BodyPartLayer {
    BodyPartLayer {
        layer_type,
        max_hp: hp,
        hp,
        damage_multipliers: m,
    }
}

fn three_layer_part(severable: bool) -> BodyPart {
    BodyPartBuilder::new("arm")
        .severable(severable)
        .layer(BodyPartLayer::new(BodyPartLayerType::Bone, 100, DamageMultipliers::uniform(100)))
        .layer(BodyPartLayer::new(BodyPartLayerType::Muscle, 100, DamageMultipliers::uniform(100)))
        .layer(BodyPartLayer::new(BodyPartLayerType::Skin, 100, DamageMultipliers::uniform(100)))
        .build()
        .unwrap()
}

#[test]
fn take_damage() {
    let mut part = BodyPartBuilder::new("Leg")
        .layer(layer(
            BodyPartLayerType::Bone,
            100,
            DamageMultipliers { piercing: 50, slashing: 60, blunt: 200 },
        ))
        .layer(layer(
            BodyPartLayerType::Muscle,
            100,
            DamageMultipliers { piercing: 100, slashing: 100, blunt: 100 },
        ))
        .layer(layer(
            BodyPartLayerType::Skin,
            100,
            DamageMultipliers { piercing: 100, slashing: 200, blunt: 100 },
        ))
        .build()
        .unwrap();
    let res = part.take_damage(DamageInstance {
        amount: -50,
        damage_type: DamageType::Slashing,
    });

    println!("{:?}", res);
    assert_eq!(
        res,
        DamageResult::TookDamage(DamageInstance { amount: -50, damage_type: DamageType::Slashing })
    );
}

#[test]
fn piercing_changes_every_layer_by_its_multiplier() {
    let mut part = BodyPartBuilder::new("leg")
        .layer(layer(BodyPartLayerType::Bone, 100, DamageMultipliers { piercing: 50, slashing: 100, blunt: 100 }))
        .layer(layer(BodyPartLayerType::Muscle, 100, DamageMultipliers { piercing: 100, slashing: 100, blunt: 100 }))
        .layer(layer(BodyPartLayerType::Skin, 100, DamageMultipliers { piercing: 250, slashing: 100, blunt: 100 }))
        .build()
        .unwrap();
    let r = part.take_damage(DamageInstance { amount: 7, damage_type: DamageType::Piercing });
    assert_eq!(part.layers[0].hp, 103);
    assert_eq!(part.layers[1].hp, 107);
    assert_eq!(part.layers[2].hp, 117);
    assert_eq!(r, DamageResult::TookDamage(DamageInstance { amount: 7, damage_type: DamageType::Piercing }));
}

#[test]
fn negative_piercing_lowers_hit_points_rounding_toward_zero() {
    let mut part = BodyPartBuilder::new("leg")
        .layer(layer(BodyPartLayerType::Bone, 100, DamageMultipliers { piercing: 50, slashing: 100, blunt: 100 }))
        .build()
        .unwrap();
    part.take_damage(DamageInstance { amount: -7, damage_type: DamageType::Piercing });
    assert_eq!(part.layers[0].hp, 97);
}

#[test]
fn hp_and_max_hp_are_sums_over_layers() {
    let mut part = BodyPartBuilder::new("leg")
        .layer(layer(BodyPartLayerType::Bone, 100, DamageMultipliers::uniform(100)))
        .layer(layer(BodyPartLayerType::Skin, 40, DamageMultipliers::uniform(100)))
        .build()
        .unwrap();
    part.layers[1].hp = 15;
    assert_eq!(part.hp(), 115);
    assert_eq!(part.max_hp(), 140);
    assert_eq!(part.hp_avg(), 57);
    assert_eq!(part.max_hp_avg(), 70);
}

#[test]
fn build_fails_without_layers() {
    let b = BodyPartBuilder::new("empty");
    let r = b.build();
    assert!(r.is_err());
    assert_eq!(r.unwrap_err().message(), "BodyPart must have at least 1 layer");
    let b = b.layer(BodyPartLayer::default());
    let p = b.build().unwrap();
    assert_eq!(p.layers.len(), 1);
    assert_eq!(b.part().layers.len(), 1);
}

#[test]
fn builder_keeps_settings_and_layer_order() {
    let p = BodyPartBuilder::new("hand")
        .can_grab(true)
        .severable(false)
        .layer(layer(BodyPartLayerType::Bone, 10, DamageMultipliers::uniform(100)))
        .layer(layer(BodyPartLayerType::Skin, 20, DamageMultipliers::uniform(100)))
        .build()
        .unwrap();
    assert_eq!(p.name, "hand");
    assert!(p.can_grab);
    assert!(!p.severable);
    assert_eq!(p.part_type, BodyPartType::Limb);
    assert_eq!(p.layers[0].layer_type, BodyPartLayerType::Bone);
    assert_eq!(p.layers[1].layer_type, BodyPartLayerType::Skin);
}

#[test]
fn slashing_spares_full_layers() {
    let mut part = three_layer_part(true);
    let d = DamageInstance { amount: 40, damage_type: DamageType::Slashing };
    let r = part.take_damage(d);
    assert_eq!(r, DamageResult::TookDamage(d));
    for l in &part.layers {
        assert_eq!(l.hp, 100);
    }
}

#[test]
fn slashing_lands_only_after_the_last_living_layer() {
    let mut part = three_layer_part(true);
    part.layers[1].hp = 0;
    part.layers[2].hp = 0;
    let r = part.take_damage(DamageInstance { amount: 30, damage_type: DamageType::Slashing });
    assert_eq!(part.layers[0].hp, 100);
    assert_eq!(part.layers[1].hp, 30);
    assert_eq!(part.layers[2].hp, 30);
    assert_eq!(r, DamageResult::TookDamage(DamageInstance { amount: 30, damage_type: DamageType::Slashing }));
}

#[test]
fn piercing_beyond_total_hp_destroys_even_a_severable_part() {
    let mut part = three_layer_part(true);
    let r = part.take_damage(DamageInstance { amount: 1000, damage_type: DamageType::Piercing });
    assert_eq!(r, DamageResult::Destroyed);
}

#[test]
fn blunt_beyond_total_hp_severs_a_severable_part() {
    let mut part = three_layer_part(true);
    let r = part.take_damage(DamageInstance { amount: 1000, damage_type: DamageType::Blunt });
    assert_eq!(r, DamageResult::Severed);
    for l in &part.layers {
        assert_eq!(l.hp, 433);
    }
}

#[test]
fn blunt_beyond_total_hp_destroys_a_fixed_part() {
    let mut part = three_layer_part(false);
    let r = part.take_damage(DamageInstance { amount: 1000, damage_type: DamageType::Blunt });
    assert_eq!(r, DamageResult::Destroyed);
}

#[test]
fn damage_up_to_total_hp_is_taken() {
    let mut part = three_layer_part(true);
    let d = DamageInstance { amount: 100, damage_type: DamageType::Piercing };
    assert_eq!(part.take_damage(d), DamageResult::TookDamage(d));
    assert_eq!(part.hp(), 600);
}

#[test]
fn describe_sums_up_a_part() {
    let mut part = three_layer_part(true);
    part.layers[0].hp = 50;
    assert_eq!(part.describe(), "arm: 250/300 -- 3 layers");
}

#[test]
fn defaults() {
    let l = BodyPartLayer::default();
    assert_eq!(l.max_hp, 100);
    assert_eq!(l.hp, 100);
    assert_eq!(l.layer_type, BodyPartLayerType::Skin);
    assert_eq!(l.damage_multipliers.get(DamageType::Blunt), 100);
    let p = BodyPart::default();
    assert_eq!(p.name, "unnamed_bodypart");
    assert!(p.severable);
    assert!(!p.can_grab);
    assert!(p.layers.is_empty());
}
