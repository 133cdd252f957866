pub mod add;
pub mod minus;
pub mod mul;
