//! Functions as systems. A function's parameters say which resources it
//! needs: a shared reference reads a resource, a mutable one writes it, and
//! the shared references come first. Rust cannot abstract over the number of
//! parameters, so every shape of up to twelve parameters is written out.

mod params_0;
mod params_1;
mod params_2;
mod params_3;
mod params_4;
mod params_5;
mod params_6;
mod params_7;
mod params_8;
mod params_9;
mod params_10;
mod params_11;
mod params_12;
