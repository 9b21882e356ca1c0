pub mod escpos;
pub mod gui;
