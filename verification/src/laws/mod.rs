//! What holds of the library as a whole.

pub mod counting;
pub mod drawing;
pub mod events;
pub mod gliding;
pub mod life;
pub mod naming;
pub mod symmetry;
pub mod window;
