//! Verified state decisions of the rexafs Assistant shell: host and panel
//! state, control availability and keyboard handling, the transcript
//! reducer, decisions on app-server messages, receipts, the permission
//! rules for tools, commands, fetches and connected-app confirmations,
//! assistant file intake, the settings the assistant may change, and the
//! group menu.
pub mod text;
pub mod json;
pub mod json_text;
pub mod shell;
pub mod transcript;
pub mod protocol;
pub mod turns;
pub mod receipts;
pub mod settings;
pub mod access;
pub mod apps;
pub mod plots;
pub mod jobs;
pub mod requests;
pub mod import_request;
pub mod intake;
pub mod group_menu;
pub mod locks;
pub mod analysis;
pub mod fluorescence;
