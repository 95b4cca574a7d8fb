//! A CHIP-8 interpreter core: decoder, executor and step driver over an owned
//! machine state, with every state transition stated against a mathematical
//! model of the machine.
//!
//! [`state`] holds the model, [`MachineState`], and what each instruction
//! does to it. [`machine`] holds the machine that runs, [`Chip8`], whose view
//! is a `MachineState`: each of its methods says which function of the model
//! it computes. [`decoder`] turns instruction words into [`Instruction`]s,
//! [`display`] packs the pixels, and [`laws`] proves what holds of the
//! operations together.
//!
//! The caller owns the loop: it calls [`Chip8::step`] at its own pace, tells
//! the machine which key is down, and renders the pixels when the frame was
//! written.

pub mod decoder;
pub mod display;
pub mod error;
pub mod font;
pub mod instruction;
pub mod keypad;
pub mod laws;
pub mod machine;
pub mod random;
pub mod ring;
pub mod state;

pub use decoder::decode;
pub use error::Chip8Error;
pub use instruction::Instruction;
pub use keypad::key_from_ascii;
pub use machine::Chip8;
pub use state::MachineState;
