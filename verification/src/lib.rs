//! The core of a sampling profiler: which library lies where in the address
//! space of each process, and which library and relative address a sampled
//! address belongs to.
//!
//! * [`lib_mappings`] holds the address space of one owner, over the rules of
//!   [`ranges`].
//! * [`global_lib_table`] holds each library once and numbers those that are
//!   used; [`string_table`] holds their names.
//! * [`process`] and [`directory`] hold the processes and resolve addresses;
//!   [`profile`] holds all of these together.
//! * [`perf_map`] and [`perf_map_line`] make up a library for code that was made
//!   at run time.
//! * [`xperf`], [`recording`], [`tdh`] and [`etw_providers`] decide what is to be
//!   done when a recording is made on Windows.

pub mod directory;
pub mod etw_providers;
pub mod frame_table;
pub mod global_lib_table;
pub mod lib_mappings;
pub mod library_info;
pub mod perf_map;
pub mod perf_map_line;
pub mod process;
pub mod profile;
pub mod ranges;
pub mod recording;
pub mod string_table;
pub mod tdh;
pub mod text;
pub mod text_order;
pub mod timestamp;
pub mod xperf;
