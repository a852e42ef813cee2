pub mod activity;
pub mod addr;
pub mod call_laws;
pub mod daemon;
pub mod event;
pub mod event_call_laws;
pub mod event_laws;
pub mod events;
pub mod fd;
pub mod firing;
pub mod journal;
pub mod pipe;
pub mod proxy;
pub mod search;
pub mod signal;
pub mod tcp;
pub mod text;
pub mod udp;
pub mod udp_laws;
pub mod userdata;
