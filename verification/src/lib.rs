//! Control logic for a hardware JPEG encoding pipeline: register windows,
//! DMA buffers with CPU/device ownership, a stream-to-memory DMA engine, a
//! frame-buffer reader and the sequencing of one encode operation.
//!
//! The crate performs no I/O. Every operation of a part of the pipeline is
//! a script, a list of commands. A session carries a script out: it names
//! one access to the hardware, takes the reply to it, and decides from the
//! reply what follows, until the script is done or has failed. Whoever owns
//! the mapped registers and buffers makes the accesses:
//!
//! 1. begin with `JpegEncoder::config` or `JpegEncoder::encode`, or hand a
//!    script to `Session::submit`;
//! 2. as long as the step is `Step::Perform`, make the access and hand its
//!    reply to `resume`;
//! 3. on `Step::Done` the operation is complete, and what it read or copied
//!    out is in the session; on `Step::Failed` it was abandoned.
//!
//! The session keeps the books that make the protocol checkable: who owns
//! each buffer, and which windows and buffers have been closed. Bytes are
//! copied only into or out of a buffer that the CPU owns, an engine is
//! started only after its buffer went to the device, and nothing is touched
//! after it was closed.

pub mod axidma;
pub mod command;
pub mod dat;
pub mod error;
pub mod jpeg_encoder;
pub mod model;
pub mod session;
pub mod text;
pub mod udma;
pub mod uio;
pub mod vfrmbuf;
