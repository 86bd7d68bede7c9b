pub mod input_method;
