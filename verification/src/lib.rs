//! Verified core of the Bero admin dashboard.
pub mod text;
pub mod ui;
pub mod status_colors;
pub mod rbac;
pub mod rbac_toggle;
pub mod time;
pub mod login;
pub mod pagination;
pub mod csrf;
pub mod ids;
pub mod auth;
pub mod sidebar;
pub mod security;
pub mod dto;
pub mod views;
pub mod services;
pub mod notify;
pub mod config;
pub mod pages;
