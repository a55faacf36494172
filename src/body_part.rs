use crate::damage::{DamageInstance, DamageResult, DamageType};
use vstd::prelude::*;
use vstd::string::StringExecFns;
use crate::decimal::{decimal_digits, unsigned_decimal};

verus! {

/// The kind of tissue a layer is made of.
#[derive(Clone, Copy, Debug, PartialEq, Eq, Structural)]
pub enum BodyPartLayerType {
    Skin,
    Muscle,
    Bone,
    Flesh,
    Artery,
}

impl Default for BodyPartLayerType {
    fn default() -> (r: Self)
        ensures
            r == BodyPartLayerType::Skin,
    {
        BodyPartLayerType::Skin
    }
}

/// How strongly a layer reacts to each damage type, in hundredths: `100` lets
/// the amount through unchanged, `50` halves it, `200` doubles it. There is a
/// field for every damage type, so no lookup can miss.
#[derive(Clone, Copy, Debug, PartialEq, Eq, Structural)]
pub struct DamageMultipliers {
    pub piercing: u32,
    pub slashing: u32,
    pub blunt: u32,
}

impl DamageMultipliers {
    /// The multiplier for `t`, in hundredths.
    pub open spec fn spec_get(self, t: DamageType) -> nat {
        match t {
            DamageType::Piercing => self.piercing as nat,
            DamageType::Slashing => self.slashing as nat,
            DamageType::Blunt => self.blunt as nat,
        }
    }

    /// The same multiplier for every damage type.
    pub fn uniform(percent: u32) -> (r: Self)
        ensures
            r.piercing == percent,
            r.slashing == percent,
            r.blunt == percent,
    {
        DamageMultipliers { piercing: percent, slashing: percent, blunt: percent }
    }

    /// The multiplier for `t`, in hundredths.
    pub fn get(&self, t: DamageType) -> (r: u32)
        ensures
            r as nat == self.spec_get(t),
    {
        match t {
            DamageType::Piercing => self.piercing,
            DamageType::Slashing => self.slashing,
            DamageType::Blunt => self.blunt,
        }
    }
}

/// One stratum of tissue with its own hit points.
#[derive(Clone, Copy, Debug, PartialEq, Eq, Structural)]
pub struct BodyPartLayer {
    pub layer_type: BodyPartLayerType,
    pub max_hp: u32,
    pub hp: u32,
    pub damage_multipliers: DamageMultipliers,
}

impl Default for BodyPartLayer {
    fn default() -> (r: Self)
        ensures
            r.layer_type == BodyPartLayerType::Skin,
            r.max_hp == 100,
            r.hp == 100,
            r.damage_multipliers == DamageMultipliers::uniform_spec(100),
    {
        BodyPartLayer {
            layer_type: BodyPartLayerType::Skin,
            max_hp: 100,
            hp: 100,
            damage_multipliers: DamageMultipliers::uniform(100),
        }
    }
}

impl DamageMultipliers {
    /// The value that `uniform(percent)` returns.
    pub open spec fn uniform_spec(percent: u32) -> Self {
        DamageMultipliers { piercing: percent, slashing: percent, blunt: percent }
    }
}

impl BodyPartLayer {
    /// A layer at full health.
    pub fn new(
        layer_type: BodyPartLayerType,
        max_hp: u32,
        damage_multipliers: DamageMultipliers,
    ) -> (r: Self)
        ensures
            r.layer_type == layer_type,
            r.max_hp == max_hp,
            r.hp == max_hp,
            r.damage_multipliers == damage_multipliers,
    {
        BodyPartLayer { layer_type, max_hp, hp: max_hp, damage_multipliers }
    }
}

#[derive(Clone, Copy, Debug, PartialEq, Eq, Structural)]
pub enum BodyPartType {
    Limb,
    Organ,
}

/// The relation an edge of the anatomy graph stands for.
#[derive(Clone, Copy, Debug, PartialEq, Eq, Structural)]
pub enum BodyPartConnection {
    Structure,
    BloodSupply,
    Container,
}

impl Default for BodyPartConnection {
    fn default() -> (r: Self)
        ensures
            r == BodyPartConnection::Structure,
    {
        BodyPartConnection::Structure
    }
}

/// A named part of a body: an ordered stack of tissue layers. The order of the
/// layers matters to the slashing rule.
#[derive(Clone, Debug)]
pub struct BodyPart {
    pub name: String,
    pub part_type: BodyPartType,
    pub layers: Vec<BodyPartLayer>,
    pub severable: bool,
    pub can_grab: bool,
}

/// Sum of the hit points of the first `k` layers.
pub open spec fn sum_hp(layers: Seq<BodyPartLayer>, k: int) -> int
    decreases k,
{
    if k <= 0 { 0 } else { sum_hp(layers, k - 1) + layers[k - 1].hp }
}

/// Sum of the maximum hit points of the first `k` layers.
pub open spec fn sum_max_hp(layers: Seq<BodyPartLayer>, k: int) -> int
    decreases k,
{
    if k <= 0 { 0 } else { sum_max_hp(layers, k - 1) + layers[k - 1].max_hp }
}

/// Hit points of all the layers together.
pub open spec fn total_hp(layers: Seq<BodyPartLayer>) -> int {
    sum_hp(layers, layers.len() as int)
}

/// Maximum hit points of all the layers together.
pub open spec fn total_max_hp(layers: Seq<BodyPartLayer>) -> int {
    sum_max_hp(layers, layers.len() as int)
}

/// `a / d` rounded toward zero, as a cast of the exact quotient to an integer
/// rounds it.
pub open spec fn div_toward_zero(a: int, d: int) -> int {
    if a >= 0 { a / d } else { -((-a) / d) }
}

/// Whether a layer `i` of `layers` is reached by a blow of type `t`: every
/// layer is, except under slashing, which reaches a layer only when neither it
/// nor any later layer has hit points left.
pub open spec fn layer_reached(layers: Seq<BodyPartLayer>, i: int, t: DamageType) -> bool {
    match t {
        DamageType::Slashing => forall|j: int| i <= j < layers.len() ==> #[trigger] layers[j].hp == 0,
        _ => true,
    }
}

/// The change that `d` makes to a layer of a part of `n` layers, if it reaches
/// that layer: the amount times the layer's multiplier, shared out evenly over
/// the `n` layers for blunt damage, rounded toward zero.
pub open spec fn layer_delta(layer: BodyPartLayer, d: DamageInstance, n: nat) -> int {
    let scaled = d.amount * layer.damage_multipliers.spec_get(d.damage_type);
    match d.damage_type {
        DamageType::Blunt => div_toward_zero(scaled, 100 * (n as int)),
        _ => div_toward_zero(scaled, 100),
    }
}

/// The change that `d` makes to layer `i` of `layers`.
pub open spec fn applied_delta(layers: Seq<BodyPartLayer>, i: int, d: DamageInstance) -> int {
    if layer_reached(layers, i, d.damage_type) {
        layer_delta(layers[i], d, layers.len())
    } else {
        0
    }
}

/// Sum of the changes that `d` makes to the first `k` layers.
pub open spec fn sum_delta(layers: Seq<BodyPartLayer>, d: DamageInstance, k: int) -> int
    decreases k,
{
    if k <= 0 { 0 } else { sum_delta(layers, d, k - 1) + applied_delta(layers, k - 1, d) }
}

/// Whether every layer can take its change without its hit points leaving
/// the range of a `u32`.
pub open spec fn damage_fits(layers: Seq<BodyPartLayer>, d: DamageInstance) -> bool {
    forall|i: int| 0 <= i < layers.len() ==>
        0 <= #[trigger] layers[i].hp + applied_delta(layers, i, d) <= u32::MAX
}

/// The layers after `d` has been applied to them.
pub open spec fn damaged_layers(layers: Seq<BodyPartLayer>, d: DamageInstance) -> Seq<BodyPartLayer> {
    Seq::new(layers.len(), |i: int| BodyPartLayer {
        hp: (layers[i].hp + applied_delta(layers, i, d)) as u32,
        ..layers[i]
    })
}

/// The outcome of a blow whose changes add up to `total_damage` on a part that
/// had `total_hp` hit points before it.
pub open spec fn outcome(severable: bool, total_hp: int, total_damage: int, d: DamageInstance) -> DamageResult {
    let magnitude = if total_damage < 0 { -total_damage } else { total_damage };
    if magnitude > total_hp {
        if severable && d.damage_type != DamageType::Piercing {
            DamageResult::Severed
        } else {
            DamageResult::Destroyed
        }
    } else {
        DamageResult::TookDamage(d)
    }
}

/// Piercing damage reaches every layer: each layer's hit points move by the
/// amount times that layer's piercing multiplier, rounded toward zero, and
/// nothing else about the layers changes.
pub proof fn lemma_piercing_reaches_every_layer(layers: Seq<BodyPartLayer>, d: DamageInstance)
    requires
        d.damage_type == DamageType::Piercing,
        damage_fits(layers, d),
    ensures
        damaged_layers(layers, d).len() == layers.len(),
        forall|i: int| 0 <= i < layers.len() ==> {
            &&& (#[trigger] damaged_layers(layers, d)[i]).hp
                == layers[i].hp + div_toward_zero(d.amount * layers[i].damage_multipliers.piercing, 100)
            &&& damaged_layers(layers, d)[i].max_hp == layers[i].max_hp
            &&& damaged_layers(layers, d)[i].layer_type == layers[i].layer_type
            &&& damaged_layers(layers, d)[i].damage_multipliers == layers[i].damage_multipliers
        },
{
    assert forall|i: int| 0 <= i < layers.len() implies
        (#[trigger] damaged_layers(layers, d)[i]).hp
            == layers[i].hp + div_toward_zero(d.amount * layers[i].damage_multipliers.piercing, 100) by {
        assert(0 <= layers[i].hp + applied_delta(layers, i, d) <= u32::MAX);
    }
}

/// A slashing blow on a part whose last layer still has hit points changes no
/// layer, and its changes add up to zero.
pub proof fn lemma_slashing_spares_healthy_part(layers: Seq<BodyPartLayer>, d: DamageInstance)
    requires
        d.damage_type == DamageType::Slashing,
        layers.len() > 0,
        layers.last().hp > 0,
    ensures
        damaged_layers(layers, d) == layers,
        sum_delta(layers, d, layers.len() as int) == 0,
{
    assert forall|i: int| 0 <= i < layers.len() implies !layer_reached(layers, i, d.damage_type) by {
        assert(layers[layers.len() - 1].hp != 0);
    }
    assert(damaged_layers(layers, d) =~= layers);
    lemma_sum_delta_zero(layers, d, layers.len() as int);
}

proof fn lemma_sum_delta_zero(layers: Seq<BodyPartLayer>, d: DamageInstance, k: int)
    requires
        k <= layers.len(),
        forall|i: int| 0 <= i < layers.len() ==> !layer_reached(layers, i, d.damage_type),
    ensures
        sum_delta(layers, d, k) == 0,
    decreases k,
{
    if k > 0 {
        lemma_sum_delta_zero(layers, d, k - 1);
    }
}

impl Default for BodyPart {
    fn default() -> (r: Self)
        ensures
            r.name@ == "unnamed_bodypart"@,
            r.part_type == BodyPartType::Limb,
            r.layers@.len() == 0,
            r.severable,
            !r.can_grab,
    {
        BodyPart {
            name: String::from_str("unnamed_bodypart"),
            part_type: BodyPartType::Limb,
            layers: Vec::new(),
            severable: true,
            can_grab: false,
        }
    }
}


proof fn lemma_sum_hp_bounds(layers: Seq<BodyPartLayer>, j: int, k: int)
    requires
        0 <= j <= k <= layers.len(),
    ensures
        0 <= sum_hp(layers, j) <= sum_hp(layers, k),
        sum_hp(layers, k) <= k * (u32::MAX as int),
    decreases k,
{
    if k > 0 {
        if j < k {
            lemma_sum_hp_bounds(layers, j, k - 1);
        } else {
            lemma_sum_hp_bounds(layers, j - 1, j - 1);
        }
    }
}

proof fn lemma_sum_max_hp_bounds(layers: Seq<BodyPartLayer>, j: int, k: int)
    requires
        0 <= j <= k <= layers.len(),
    ensures
        0 <= sum_max_hp(layers, j) <= sum_max_hp(layers, k),
        sum_max_hp(layers, k) <= k * (u32::MAX as int),
    decreases k,
{
    if k > 0 {
        if j < k {
            lemma_sum_max_hp_bounds(layers, j, k - 1);
        } else {
            lemma_sum_max_hp_bounds(layers, j - 1, j - 1);
        }
    }
}

/// `div_toward_zero(amount * percent, 100 * parts)`, computed without overflow.
fn scaled_delta(amount: i32, percent: u32, parts: usize) -> (r: i128)
    requires
        parts > 0,
    ensures
        r == div_toward_zero(amount * percent, 100 * parts),
{
    let a: i128 = amount as i128;
    let p: i128 = percent as i128;
    assert(-0x8000_0000_0000_0000 < a * p < 0x8000_0000_0000_0000) by (nonlinear_arith)
        requires
            -0x8000_0000 <= a < 0x8000_0000,
            0 <= p < 0x1_0000_0000,
    ;
    let scaled: i128 = a * p;
    let divisor: u128 = 100 * (parts as u128);
    if scaled >= 0 {
        let q: u128 = (scaled as u128) / divisor;
        assert(q <= scaled as u128) by (nonlinear_arith)
            requires
                divisor >= 1,
                q == (scaled as u128) / divisor,
        ;
        q as i128
    } else {
        let m: u128 = (-scaled) as u128;
        let q: u128 = m / divisor;
        assert(q <= m) by (nonlinear_arith)
            requires
                divisor >= 1,
                q == m / divisor,
        ;
        -(q as i128)
    }
}

impl BodyPart {
    /// A copy of this part, field for field.
    pub fn duplicate(&self) -> (r: BodyPart)
        ensures
            r.name@ == self.name@,
            r.part_type == self.part_type,
            r.layers@ == self.layers@,
            r.severable == self.severable,
            r.can_grab == self.can_grab,
    {
        let mut layers: Vec<BodyPartLayer> = Vec::new();
        let mut i: usize = 0;
        while i < self.layers.len()
            invariant
                i <= self.layers@.len(),
                layers@ == self.layers@.subrange(0, i as int),
            decreases self.layers@.len() - i,
        {
            layers.push(self.layers[i]);
            i = i + 1;
            assert(layers@ =~= self.layers@.subrange(0, i as int));
        }
        assert(layers@ =~= self.layers@);
        BodyPart {
            name: self.name.clone(),
            part_type: self.part_type,
            layers,
            severable: self.severable,
            can_grab: self.can_grab,
        }
    }

    /// Hit points of the whole part: the sum over its layers.
    pub fn hp(&self) -> (r: u32)
        requires
            total_hp(self.layers@) <= u32::MAX,
        ensures
            r == total_hp(self.layers@),
    {
        let mut total: u32 = 0;
        let mut i: usize = 0;
        while i < self.layers.len()
            invariant
                i <= self.layers@.len(),
                total == sum_hp(self.layers@, i as int),
                total_hp(self.layers@) <= u32::MAX,
            decreases self.layers@.len() - i,
        {
            proof {
                lemma_sum_hp_bounds(self.layers@, i + 1, self.layers@.len() as int);
            }
            total = total + self.layers[i].hp;
            i = i + 1;
        }
        total
    }

    /// Maximum hit points of the whole part: the sum over its layers.
    pub fn max_hp(&self) -> (r: u32)
        requires
            total_max_hp(self.layers@) <= u32::MAX,
        ensures
            r == total_max_hp(self.layers@),
    {
        let mut total: u32 = 0;
        let mut i: usize = 0;
        while i < self.layers.len()
            invariant
                i <= self.layers@.len(),
                total == sum_max_hp(self.layers@, i as int),
                total_max_hp(self.layers@) <= u32::MAX,
            decreases self.layers@.len() - i,
        {
            proof {
                lemma_sum_max_hp_bounds(self.layers@, i + 1, self.layers@.len() as int);
            }
            total = total + self.layers[i].max_hp;
            i = i + 1;
        }
        total
    }

    /// Mean hit points per layer, rounded down.
    pub fn hp_avg(&self) -> (r: u32)
        requires
            self.layers@.len() > 0,
            self.layers@.len() <= u32::MAX,
            total_hp(self.layers@) <= u32::MAX,
        ensures
            r == total_hp(self.layers@) / (self.layers@.len() as int),
    {
        self.hp() / (self.layers.len() as u32)
    }

    /// Mean maximum hit points per layer, rounded down.
    pub fn max_hp_avg(&self) -> (r: u32)
        requires
            self.layers@.len() > 0,
            self.layers@.len() <= u32::MAX,
            total_max_hp(self.layers@) <= u32::MAX,
        ensures
            r == total_max_hp(self.layers@) / (self.layers@.len() as int),
    {
        self.max_hp() / (self.layers.len() as u32)
    }

    /// Sum of the layers' hit points, in a width that cannot overflow.
    fn wide_hp(&self) -> (r: u128)
        ensures
            r == total_hp(self.layers@),
    {
        let mut total: u128 = 0;
        let mut i: usize = 0;
        while i < self.layers.len()
            invariant
                i <= self.layers@.len(),
                total == sum_hp(self.layers@, i as int),
            decreases self.layers@.len() - i,
        {
            proof {
                lemma_sum_hp_bounds(self.layers@, i as int, i + 1);
                assert((i + 1) * (u32::MAX as int) <= 0x1_0000_0000_0000_0000 * 0x1_0000_0000)
                    by (nonlinear_arith)
                    requires
                        i + 1 <= 0x1_0000_0000_0000_0000,
                ;
            }
            total = total + self.layers[i].hp as u128;
            i = i + 1;
        }
        total
    }

    /// Sum of the layers' maximum hit points, in a width that cannot overflow.
    fn wide_max_hp(&self) -> (r: u128)
        ensures
            r == total_max_hp(self.layers@),
    {
        let mut total: u128 = 0;
        let mut i: usize = 0;
        while i < self.layers.len()
            invariant
                i <= self.layers@.len(),
                total == sum_max_hp(self.layers@, i as int),
            decreases self.layers@.len() - i,
        {
            proof {
                lemma_sum_max_hp_bounds(self.layers@, i as int, i + 1);
                assert((i + 1) * (u32::MAX as int) <= 0x1_0000_0000_0000_0000 * 0x1_0000_0000)
                    by (nonlinear_arith)
                    requires
                        i + 1 <= 0x1_0000_0000_0000_0000,
                ;
            }
            total = total + self.layers[i].max_hp as u128;
            i = i + 1;
        }
        total
    }

    /// A line that sums the part up, as in `leg: 150/200 -- 2 layers`.
    pub fn describe(&self) -> (r: String)
        ensures
            r@ == self.name@ + ": "@ + decimal_digits(total_hp(self.layers@) as nat) + "/"@
                + decimal_digits(total_max_hp(self.layers@) as nat) + " -- "@
                + decimal_digits(self.layers@.len()) + " layers"@,
    {
        proof {
            lemma_sum_hp_bounds(self.layers@, 0, self.layers@.len() as int);
            lemma_sum_max_hp_bounds(self.layers@, 0, self.layers@.len() as int);
        }
        let hp = unsigned_decimal(self.wide_hp());
        let max_hp = unsigned_decimal(self.wide_max_hp());
        let count = unsigned_decimal(self.layers.len() as u128);
        let mut out = self.name.clone();
        out.append(": ");
        out.append(hp.as_str());
        out.append("/");
        out.append(max_hp.as_str());
        out.append(" -- ");
        out.append(count.as_str());
        out.append(" layers");
        out
    }

    /// Resolves one damage event against this part. Each layer that the blow
    /// reaches (see `layer_reached`) has its hit points moved by its change
    /// (see `layer_delta`); the changes are summed, and the outcome compares
    /// the size of that sum with the part's hit points before the blow.
    pub fn take_damage(&mut self, damage: DamageInstance) -> (r: DamageResult)
        requires
            old(self).layers@.len() > 0,
            damage_fits(old(self).layers@, damage),
        ensures
            final(self).layers@ == damaged_layers(old(self).layers@, damage),
            final(self).name@ == old(self).name@,
            final(self).part_type == old(self).part_type,
            final(self).severable == old(self).severable,
            final(self).can_grab == old(self).can_grab,
            r == outcome(
                old(self).severable,
                total_hp(old(self).layers@),
                sum_delta(old(self).layers@, damage, old(self).layers@.len() as int),
                damage,
            ),
    {
        let ghost before = self.layers@;
        let n: usize = self.layers.len();
        let total_hp: u128 = self.wide_hp();

        // Slashing reaches the layers from `start` on: those after the last one
        // with hit points left.
        let mut start: usize = 0;
        let mut i: usize = 0;
        while i < n
            invariant
                n == before.len(),
                self.layers@ == before,
                start <= i <= n,
                forall|j: int| start <= j < i ==> #[trigger] before[j].hp == 0,
                start > 0 ==> before[start - 1].hp > 0,
            decreases n - i,
        {
            if self.layers[i].hp > 0 {
                start = i + 1;
            }
            i = i + 1;
        }
        assert forall|j: int| 0 <= j < n implies
            layer_reached(before, j, DamageType::Slashing) == (j >= start) by {
            if j < start {
                assert(before[start - 1].hp > 0);
            }
        }

        let mut total_damage: i128 = 0;
        let mut i: usize = 0;
        while i < n
            invariant
                n == before.len(),
                n > 0,
                damage_fits(before, damage),
                self.layers@.len() == n,
                forall|j: int| 0 <= j < n ==>
                    layer_reached(before, j, DamageType::Slashing) == (j >= start),
                forall|j: int| 0 <= j < i ==> self.layers@[j] == #[trigger] damaged_layers(before, damage)[j],
                forall|j: int| i <= j < n ==> self.layers@[j] == before[j],
                i <= n,
                total_damage == sum_delta(before, damage, i as int),
                -(i * 0x1_0000_0000) <= total_damage <= i * 0x1_0000_0000,
                self.name@ == old(self).name@,
                self.part_type == old(self).part_type,
                self.severable == old(self).severable,
                self.can_grab == old(self).can_grab,
            decreases n - i,
        {
            let layer = self.layers[i];
            let reached = match damage.damage_type {
                DamageType::Slashing => i >= start,
                _ => true,
            };
            proof {
                assert(layer_reached(before, i as int, damage.damage_type) == reached);
                assert(0 <= before[i as int].hp + applied_delta(before, i as int, damage) <= u32::MAX);
                assert((i + 1) * 0x1_0000_0000 <= 0x1_0000_0000_0000_0000 * 0x1_0000_0000)
                    by (nonlinear_arith)
                    requires
                        i + 1 <= 0x1_0000_0000_0000_0000,
                ;
            }
            if reached {
                let parts: usize = match damage.damage_type {
                    DamageType::Blunt => n,
                    _ => 1,
                };
                let delta: i128 = scaled_delta(
                    damage.amount,
                    layer.damage_multipliers.get(damage.damage_type),
                    parts,
                );
                let mut changed = layer;
                changed.hp = (layer.hp as i128 + delta) as u32;
                self.layers[i] = changed;
                total_damage = total_damage + delta;
            }
            i = i + 1;
        }
        assert(self.layers@ =~= damaged_layers(before, damage));

        let magnitude: u128 = if total_damage < 0 {
            (-total_damage) as u128
        } else {
            total_damage as u128
        };
        if magnitude > total_hp {
            if self.severable && damage.damage_type != DamageType::Piercing {
                DamageResult::Severed
            } else {
                DamageResult::Destroyed
            }
        } else {
            DamageResult::TookDamage(damage)
        }
    }
}

} // verus!
