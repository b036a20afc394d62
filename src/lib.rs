//! Programmatic layouts for a reprogrammable keyboard with a keypad layer: key
//! remappings and macros, compiled to the keyboard's plain-text configuration format.
pub mod keys;
pub mod macros;
pub mod table;
pub mod layout;
pub mod configure;
