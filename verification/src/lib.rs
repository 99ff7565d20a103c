//! An equipment inventory: a catalog of device, subsystem and component
//! templates, the attachments between them, and the device trees that are
//! built from them, with every operation specified and proved.

pub mod dao;
pub mod datetime;
pub mod entity;
pub mod error;
pub mod fidelity;
pub mod model;
pub mod result;
pub mod service;
pub mod storer;
pub mod table;
pub mod text;
pub mod tree;
