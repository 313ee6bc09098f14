//! C166 peripherals: the general-purpose timer block and the T6 core
//! timer's control-register decoder.

pub mod general_purpose_timer;
pub mod timer6;
