//! A point entity: an entity together with the optional point-specific
//! attributes some tools attach. Real-valued attributes are kept as their
//! numeric-literal text.
use vstd::prelude::*;
use crate::types::entity::Entity;

verus! {

/// An entity with point-specific attributes.
#[derive(Debug, PartialEq, Eq)]
pub struct PointEntity {
    pub base: Entity,
    pub scale: Option<Vec<u8>>,
    pub fademindist: Option<Vec<u8>>,
    pub fademaxdist: Option<Vec<u8>>,
}

} // verus!
