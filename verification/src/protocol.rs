pub mod entity_handle;
pub mod entity_property;
pub mod net_entity;
pub mod property;
pub mod property_mutate;
