//! Data types of Minecraft JSON documents.

pub mod catalog;
pub mod common;
pub mod data;
pub mod plain;
pub mod text;
