//! The host engine's values that pass through the tilemap, and the calls
//! made into the engine. Nothing in this module is proved: each type is
//! declared so that it can be named, and each function states what the
//! engine's own code is taken to do.

use bevy::asset::HandleId;
use bevy::math::{Vec2, Vec3A};
use bevy::prelude::{Color, GlobalTransform, Image};
use bevy::sprite::{Anchor, ExtractedSprite};
use copyless::VecHelper;
use vstd::prelude::*;

verus! {

/// `bevy::math::Vec2`, a pair of single-precision coordinates. Opaque.
#[verifier::external_type_specification]
#[verifier::external_body]
pub struct ExVec2(bevy::math::Vec2);

/// `bevy::math::Vec3A`, an aligned triple of single-precision coordinates.
/// Opaque.
#[verifier::external_type_specification]
#[verifier::external_body]
pub struct ExVec3A(bevy::math::Vec3A);

/// `bevy::math::Rect`, an axis-aligned rectangle. Opaque.
#[verifier::external_type_specification]
#[verifier::external_body]
pub struct ExRect(bevy::math::Rect);

/// `bevy::prelude::GlobalTransform`, an affine transform from an entity's
/// local space to world space. Opaque.
#[verifier::external_type_specification]
#[verifier::external_body]
pub struct ExGlobalTransform(bevy::prelude::GlobalTransform);

/// `bevy::prelude::Color`. Opaque.
#[verifier::external_type_specification]
#[verifier::external_body]
pub struct ExColor(bevy::prelude::Color);

/// `bevy::prelude::Entity`, the identifier of an entity. Opaque.
#[verifier::external_type_specification]
#[verifier::external_body]
pub struct ExEntity(bevy::prelude::Entity);

/// `bevy::asset::HandleId`, the identity of an asset. Opaque.
#[verifier::external_type_specification]
#[verifier::external_body]
pub struct ExHandleId(bevy::asset::HandleId);

/// `bevy::sprite::Anchor`, declared with its variants.
#[verifier::external_type_specification]
pub struct ExAnchor(bevy::sprite::Anchor);

/// `bevy::sprite::ExtractedSprite`, the engine's record of one quad to
/// draw. Every field of it is public, so it is declared with its fields:
/// verified code builds the record and contracts speak of what it holds.
#[verifier::external_type_specification]
pub struct ExExtractedSprite(bevy::sprite::ExtractedSprite);

/// The transform that `GlobalTransform::translation_mut` followed by `+=`
/// leaves: `transform` after `step` has been added to its translation in
/// single-precision arithmetic.
pub uninterp spec fn translated(transform: GlobalTransform, step: Vec3A) -> GlobalTransform;

/// The offset that `Anchor::as_vec` gives for an anchor.
pub uninterp spec fn anchor_vector(anchor: Anchor) -> Vec2;

/// Adds `step` to the translation of `transform`, through
/// `GlobalTransform::translation_mut` and `Vec3A`'s `+=`. The result is a
/// function of the two values alone.
#[verifier::external_body]
pub(crate) fn translate(transform: &mut GlobalTransform, step: Vec3A)
    ensures
        *final(transform) == translated(*old(transform), step),
{
    *transform.translation_mut() += step;
}

/// Calls `Anchor::as_vec`, which maps each anchor to a fixed offset and a
/// custom anchor to the offset it holds.
#[verifier::external_body]
pub(crate) fn anchor_as_vec(anchor: &Anchor) -> (offset: Vec2)
    ensures
        offset == anchor_vector(*anchor),
        *anchor matches Anchor::Custom(point) ==> offset == point,
{
    anchor.as_vec()
}

/// Calls `Anchor::clone`, which the engine derives: the clone is the same
/// variant with the same offset.
#[verifier::external_body]
pub(crate) fn clone_anchor(anchor: &Anchor) -> (copy: Anchor)
    ensures
        copy == *anchor,
{
    anchor.clone()
}

/// Calls `Color::default`. Nothing is stated of the colour (the engine
/// gives white).
#[verifier::external_body]
pub(crate) fn default_color() -> Color {
    Color::default()
}

/// Calls `Anchor::default`, which the engine declares to be
/// `Anchor::Center`.
#[verifier::external_body]
pub(crate) fn default_anchor() -> (anchor: Anchor)
    ensures
        anchor == Anchor::Center,
{
    Anchor::default()
}

/// Calls `HandleId::default::<Image>`, the identity that the engine's
/// default handle of an image carries. Nothing is stated of it.
#[verifier::external_body]
pub(crate) fn default_texture() -> HandleId {
    HandleId::default::<Image>()
}

/// Appends one sprite through `copyless::VecHelper::alloc` and
/// `VecAllocation::init`: the first grows the vector's capacity by one
/// where it is full, the second writes the value behind the last element
/// and raises the length by one.
#[verifier::external_body]
pub(crate) fn append_sprite(sprites: &mut Vec<ExtractedSprite>, sprite: ExtractedSprite)
    ensures
        final(sprites)@ == old(sprites)@.push(sprite),
{
    sprites.alloc().init(sprite);
}

} // verus!
