pub mod client;
pub mod connection;
pub mod connection_state;
pub mod event;
pub mod heartbeat;
pub mod packet_writer;
pub mod tick_manager;
