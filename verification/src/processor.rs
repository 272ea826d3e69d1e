pub mod deposit;
pub mod withdraw;
