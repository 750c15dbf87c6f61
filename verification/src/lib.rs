//! Verified core of the PFS3 tools: on-disk byte layout helpers, the
//! Rigid Disk Block writer, in-memory block devices, and the decision
//! logic of the command-line tools, the consistency checker and the
//! FUSE driver.

pub mod bytes;
pub mod rdb;
pub mod memdev;
pub mod text;
pub mod fuzz_ops;
pub mod namecache;
pub mod fuse;
pub mod check;
pub mod cli;
