pub mod dice;
pub mod dispatch;
pub mod photo;
pub mod random;
pub mod registry;
pub mod text;
