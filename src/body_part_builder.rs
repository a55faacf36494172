use crate::body_part::{BodyPart, BodyPartLayer, BodyPartType};
use vstd::prelude::*;
use vstd::string::StringExecFns;

verus! {

/// `build` was called before any layer was added.
#[derive(Clone, Copy, Debug, PartialEq, Eq, Structural)]
pub struct BuilderError;

impl BuilderError {
    /// The text that explains the error.
    pub fn message(&self) -> (r: String)
        ensures
            r@ == "BodyPart must have at least 1 layer"@,
    {
        String::from_str("BodyPart must have at least 1 layer")
    }
}

/// Builds a `BodyPart` step by step; a part needs at least one layer.
pub struct BodyPartBuilder {
    body_part: BodyPart,
}

impl BodyPartBuilder {
    /// The part built so far.
    pub closed spec fn template(self) -> BodyPart {
        self.body_part
    }

    /// A builder for a part named `name`: no layers yet, severable, unable to
    /// grab, a limb.
    pub fn new(name: &str) -> (r: Self)
        ensures
            r.template().name@ == name@,
            r.template().part_type == BodyPartType::Limb,
            r.template().layers@.len() == 0,
            r.template().severable,
            !r.template().can_grab,
    {
        BodyPartBuilder {
            body_part: BodyPart {
                name: String::from_str(name),
                part_type: BodyPartType::Limb,
                layers: Vec::new(),
                severable: true,
                can_grab: false,
            },
        }
    }

    /// Adds `layer` below the layers added before it.
    pub fn layer(self, layer: BodyPartLayer) -> (r: Self)
        ensures
            r.template().layers@ == self.template().layers@.push(layer),
            r.template().name@ == self.template().name@,
            r.template().part_type == self.template().part_type,
            r.template().severable == self.template().severable,
            r.template().can_grab == self.template().can_grab,
    {
        let mut b = self;
        b.body_part.layers.push(layer);
        b
    }

    /// Sets whether the part can be severed.
    pub fn severable(self, severable: bool) -> (r: Self)
        ensures
            r.template().severable == severable,
            r.template().layers@ == self.template().layers@,
            r.template().name@ == self.template().name@,
            r.template().part_type == self.template().part_type,
            r.template().can_grab == self.template().can_grab,
    {
        let mut b = self;
        b.body_part.severable = severable;
        b
    }

    /// Sets whether the part can grab.
    pub fn can_grab(self, can_grab: bool) -> (r: Self)
        ensures
            r.template().can_grab == can_grab,
            r.template().layers@ == self.template().layers@,
            r.template().name@ == self.template().name@,
            r.template().part_type == self.template().part_type,
            r.template().severable == self.template().severable,
    {
        let mut b = self;
        b.body_part.can_grab = can_grab;
        b
    }

    /// The part built so far.
    pub fn part(&self) -> (r: &BodyPart)
        ensures
            *r == self.template(),
    {
        &self.body_part
    }

    /// A copy of the part built so far; an error if it has no layer. The
    /// builder stays as it was.
    pub fn build(&self) -> (r: Result<BodyPart, BuilderError>)
        ensures
            r is Err <==> self.template().layers@.len() == 0,
            r matches Ok(p) ==> {
                &&& p.name@ == self.template().name@
                &&& p.part_type == self.template().part_type
                &&& p.layers@ == self.template().layers@
                &&& p.severable == self.template().severable
                &&& p.can_grab == self.template().can_grab
            },
    {
        if self.body_part.layers.len() == 0 {
            return Err(BuilderError);
        }
        Ok(self.body_part.duplicate())
    }
}

} // verus!
