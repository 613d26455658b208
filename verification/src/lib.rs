pub mod audit;
pub mod clock;
pub mod constants;
pub mod deposit;
pub mod exchange;
pub mod laws;
pub mod margin;
pub mod matching;
pub mod model;
pub mod position;
pub mod position_data;
pub mod rates;
pub mod repay;
pub mod roster;
pub mod serial;
pub mod setup;
pub mod storage;
pub mod token_data;
pub mod types;
pub mod user;
pub mod withdraw;
