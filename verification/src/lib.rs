//! Reticula: the verified core of an embedded Reticulum end client.

pub mod bytes;
pub mod text;
pub mod page;
pub mod command;
pub mod context;
pub mod hex;
pub mod input;
pub mod screens;
pub mod tdeck;
pub mod host;
pub mod lxmf;
pub mod app;
pub mod widgets;
pub mod destination;
pub mod nomad;
pub mod config;
pub mod args;
pub mod view_model;
pub mod theme;
pub mod scene;
pub mod framebuffer;
pub mod display;
pub mod identity;
pub mod panel;
