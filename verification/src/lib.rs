//! A verified translation core for electronic component libraries: it
//! decodes a vendor's tilde-delimited shape streams and restricted SVG
//! paths into an intermediate geometric model, and serializes that model
//! into KiCad symbol and footprint libraries, Altium schematic and PCB
//! libraries, and a VRML scene for the 3D mesh.  Geometry is exact
//! fixed-point arithmetic; every emitter's output is pinned down by a
//! specification-level rendering of its input.

pub mod altium_converter;
pub mod api;
pub mod altium_footprint;
pub mod altium_symbol;
pub mod convert;
pub mod errors;
pub mod importer;
pub mod kicad_footprint;
pub mod kicad_footprint_export;
pub mod kicad_symbol;
pub mod kicad_symbol_export;
pub mod layers;
pub mod lexer;
pub mod library;
pub mod models;
pub mod num;
pub mod pipeline;
pub mod svg;
pub mod vrml;
