pub mod input_method;
pub mod virtual_keyboard;
