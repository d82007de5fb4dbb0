//! Verified core of a terminal workspace manager for AI coding agents.
pub mod text;
pub mod agent_status;
pub mod clock;
pub mod shell_integration;
pub mod runtime;
pub mod terminal;
pub mod input;
pub mod input_handler;
pub mod keyboard_shortcuts;
pub mod help_panel;
pub mod pattern;
pub mod status_detector;
pub mod notification;
pub mod notification_manager;
pub mod mute_settings;
pub mod layout;
pub mod resizable_sidebar;
pub mod empty_state;
pub mod loading_state;
pub mod new_branch_dialog;
pub mod config;
pub mod git_utils;
pub mod app_state;
pub mod app;
pub mod pane_status_tracker;
pub mod remotes;
pub mod status_poller;
pub mod new_branch_orchestrator;
