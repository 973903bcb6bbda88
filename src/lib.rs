//! Core of an RDP client: the clipboard (CLIPRDR) and device redirection
//! (RDPDR) virtual channels, their framing, and the bridge from drive IRPs to
//! a host-side file service.

pub mod error;
pub mod wire;
pub mod vchan;
pub mod cliprdr;
pub mod tdp;
pub mod rdpdr;
pub mod fsinfo;
pub mod dir;
pub mod channel;
