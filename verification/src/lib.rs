//! Decoder for the compressed, positional data file that holds a strategy
//! game's static ruleset: civilizations, units, technologies, effects,
//! terrain, sounds, sprites, the random-map descriptor and the technology
//! tree.
pub mod dat;
