pub mod calculator;
pub mod processor;
pub mod renderer;
pub mod validator;
