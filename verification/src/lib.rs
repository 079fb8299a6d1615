//! Wireless network management: the decisions behind adding, connecting to and deleting
//! networks, the reading of the network manager's reports, and the summaries shown to users.

pub mod model;
pub mod table;
pub mod outside;
pub mod text;
pub mod wpa;
pub mod report;
pub mod display;
pub mod procedure;
pub mod commands;
pub mod laws;
