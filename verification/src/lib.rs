//! Command front end and operation bookkeeping of a motion-time estimator
//! for extrusion machines.
pub mod text;
pub mod kind_tracker;
pub mod gcode;
pub mod operations;
pub mod planner;
pub mod lookahead;
pub mod arcs;
pub mod firmware_retraction;
pub mod directive;
pub mod slicer;
pub mod sync;
pub mod post_process;
