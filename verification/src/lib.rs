//! Parsers for Visual Studio 2008 solution (`.sln`) and project (`.vcproj`) files.
pub mod text;
pub mod xml;
pub mod vcproj_raw;
pub mod vcproj;
pub mod sln_raw;
pub mod cli;
