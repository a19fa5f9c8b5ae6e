pub mod net_packet;
pub mod node_id;
pub mod protocol_type;
pub mod broadcast;
pub mod id_route;
pub mod handle;
