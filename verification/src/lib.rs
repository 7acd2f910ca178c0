pub mod code_order;
pub mod ids;
pub mod plans;
pub mod rounding;
pub mod session;
