//! Structural checks that the public validation consumers depend on and
//! import only the public validation SDKs.
pub mod text;
pub mod comments;
pub mod forbidden;
pub mod table;
pub mod manifest;
pub mod imports;
pub mod consumers;
pub mod report;
pub mod files;
pub mod cli;
