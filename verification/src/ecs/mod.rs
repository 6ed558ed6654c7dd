pub mod entity;
pub mod component;
pub mod query;
pub mod world;
pub mod counter;
pub mod byte_counter;
