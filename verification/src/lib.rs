//! Cross-family network transport primitives: big-endian integer decoding,
//! the Internet one's-complement checksum, IPv4 header stripping, socket
//! bind planning, and the dual-stack dial combination policy.
mod ext;
mod net;

pub use ext::BytesExt;
pub use ext::type_of;
pub use ext::type_of2;
pub use ext::be_val;
pub use ext::be_prefix_val;
pub use ext::word_sum;
pub use ext::fold16;
pub use ext::checksum_spec;
pub use ext::lemma_zero_bytes_decode_zero;
pub use ext::lemma_decode_prefix_based;
pub use ext::lemma_checksum_self_verifying;
pub use ext::lemma_checksum_zero_buffer;
pub use net::BindType;
pub use net::Family;
pub use net::Transport;
pub use net::IcmpProto;
pub use net::BindPlan;
pub use net::bind_plan;
pub use net::strip_ipv4_header;
pub use net::any_success;
pub use net::AddrV4;
pub use net::AddrV6;
pub use net::DualAddr;
pub use net::STREAM_BUF_SIZE;
pub use net::DATAGRAM_BUF_SIZE;
pub use net::FRAME_LENGTH_SIZE;
pub use net::LISTEN_BACKLOG;
