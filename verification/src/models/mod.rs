pub mod orderbook;
pub mod price;
pub mod sorting;
pub mod timestamp;

pub use orderbook::Orderbook;
