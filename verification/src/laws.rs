//! What holds of the library as a whole: statements that relate several
//! operations, over the models that the contracts of these speak of.

pub mod dimming;
pub mod direct;
pub mod easing;
pub mod fading;
pub mod outputs;
pub mod painting;
pub mod pixels;
pub mod running;
pub mod showing;
pub mod stages;
pub mod tracking;
pub mod windows;
