pub mod remote_peer;
