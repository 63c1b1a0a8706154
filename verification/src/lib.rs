//! Vendor-neutral MediaTek Filogic MIMO CSI framing, its deterministic
//! simulator, frame summaries, and the `secrets.yaml` importer.
pub mod wire;
pub mod mediatek_csi;
pub mod codec;
pub mod laws;
pub mod simulator;
pub mod summary;
pub mod secrets;
pub mod cli;
pub mod frame_eq;
