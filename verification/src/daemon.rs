pub mod control_protocol_impl;
pub mod link_connection;
pub mod link_protocol;
pub mod reply_block_store;
