pub mod byte_io;
pub mod diff_mask;
pub mod key_generator;
pub mod manager_type;
pub mod manifest;
pub mod message_channel;
pub mod message_packet_writer;
pub mod messages;
pub mod packet_type;
pub mod replicate;
pub mod standard_header;
pub mod timer;
pub mod timestamp;
pub mod types;
pub mod wrapping;
