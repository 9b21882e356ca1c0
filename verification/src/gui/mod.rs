pub mod command_log;
pub mod debug_form;
pub mod labels;
pub mod log_laws;
pub mod settings_panel;
