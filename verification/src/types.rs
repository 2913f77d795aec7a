//! The typed records of the document format, one module per block kind,
//! each with the decoder that folds the generic block tree into it.
pub mod camera;
pub mod color;
pub mod cordon;
pub mod displacement;
pub mod editor;
pub mod entity;
pub mod error;
pub mod group;
pub mod output;
pub mod point;
pub mod pointentity;
pub mod side;
pub mod solid;
pub mod textureaxis;
pub mod versioninfo;
pub mod visgroup;
pub mod world;
pub mod viewsettings;
