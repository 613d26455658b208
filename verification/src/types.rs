pub mod address;
pub mod error;
pub mod position;
pub mod position_data;
pub mod price_data;
pub mod stage;
pub mod token;
pub mod transfer;
pub mod user;
pub mod user_liq_data;
