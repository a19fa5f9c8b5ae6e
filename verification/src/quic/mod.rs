pub mod demux;
pub mod packet;
pub mod peer_id;
pub mod identity;
pub mod wire;
pub mod pb;
pub mod frame;
pub mod nat_info;
pub mod transport;
pub mod dispatch;
pub mod routes;
pub mod maintenance;
