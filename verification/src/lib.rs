//! Decompiler for Microsoft Flight Simulator 2024 compiled SPB property files.

pub mod cli;
pub mod error;
pub mod guid;
pub mod locate;
pub mod propdefs;
pub mod reader;
pub mod scan;
pub mod spb;
pub mod text;
pub mod textdecode;
pub mod values;
pub mod xml;

pub use error::Error;
pub use propdefs::{Bank, Def, Kind};
pub use spb::{Element, Scalar};
pub use textdecode::TextTable;
pub use xml::{Encoding, Node};
