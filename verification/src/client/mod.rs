pub mod rest_client;
pub mod websocket_client;

pub use rest_client::OKXRestClient;
pub use websocket_client::OKXWebSocketClient;
