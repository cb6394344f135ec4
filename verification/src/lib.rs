//! The decisions of `link-p2p`, a peer-to-peer TCP forwarder and virtual LAN,
//! each stated as a contract and proved.

pub mod backoff;
pub mod bytes;
pub mod call;
pub mod call_cmd;
pub mod cli_help;
pub mod config;
pub mod contacts;
pub mod crockford;
pub mod daemon;
pub mod dispatch;
pub mod endpoint;
pub mod exit;
pub mod helptext;
pub mod i18n;
pub mod identity;
pub mod mesh;
pub mod net;
pub mod order;
pub mod packet;
pub mod path_kind;
pub mod path_monitor;
pub mod path_stats;
pub mod paths;
pub mod phone;
pub mod phone_ring;
pub mod pipe;
pub mod relay_probe;
pub mod relay_rtt;
pub mod runtime;
pub mod selftest;
pub mod socks5;
pub mod ssrf;
pub mod stream_cmd;
pub mod stream_ctl;
pub mod style;
pub mod text;
pub mod time;
pub mod tun;
pub mod tun_cmd;
pub mod tun_net;
pub mod tun_roster;
