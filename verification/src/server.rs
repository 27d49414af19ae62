pub mod action_writer;
pub mod entity_record;
pub mod keys;
pub mod locality_status;
pub mod manager_laws;
pub mod manager_view;
pub mod packet_fill;
pub mod packet_writer;
pub mod record_map;
pub mod replicate_action;
pub mod replicate_manager;
pub mod replicate_record;
