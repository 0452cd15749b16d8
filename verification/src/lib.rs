//! A deterministic locomotion core for character controllers.
//!
//! The crate turns input intents into velocity changes of physics bodies. It
//! owns no world and no clock: a host engine reads its own state, hands the
//! plain values to a stage of this crate, and writes back what the stage
//! returns. All numbers are fixed-point, so a tick gives the same result on
//! every machine.
//!
//! A tick runs the stages in this order, each after the one before it has
//! finished:
//!
//! 1. [`look::player_look`] turns pointer motion into yaw and pitch, and the
//!    host derives the [`input::GroundFacingVector`] of the new viewpoint;
//! 2. [`input::keyboard_input`] maps the held keys, relative to that
//!    vector, to [`action::MovementAction`] intents;
//! 3. [`ground::update_grounded`] decides from the hits of the downward
//!    probes which bodies wear the [`ground::Grounded`] tag;
//! 4. [`movement::movement`] applies the intents to the controlled bodies;
//! 5. [`movement::apply_movement_damping`] slows every body down in the
//!    horizontal plane.
//!
//! A host without a scheduler of its own runs stages two to five in one
//! call of [`pipeline::tick`].
//!
//! The bodies themselves are described by the bundles of [`bundle`], built
//! in one step from a collision shape. What the stages add up to under
//! constant input is proved in [`steady`].

pub mod action;
pub mod bundle;
pub mod ground;
pub mod input;
pub mod look;
pub mod movement;
pub mod physics;
pub mod pipeline;
pub mod profile;
pub mod scalar;
pub mod sqrt;
pub mod steady;
pub mod vector;
