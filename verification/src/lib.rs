//! KVM-RS core: wire protocol, pairing, address parsing, key tables and the
//! decision logic of the server and client, with their contracts.

pub mod addr;
pub mod assoc;
pub mod capture;
pub mod client_config;
pub mod client_session;
pub mod clipboard;
pub mod clock;
pub mod crypto;
pub mod discovery;
pub mod display;
pub mod file_receive;
pub mod file_send;
pub mod hotkey;
pub mod inject;
pub mod keys;
pub mod protocol;
pub mod rate_limit;
pub mod server_config;
pub mod server_session;
pub mod socks5;
pub mod text;
pub mod tls;
pub mod ui_state;
