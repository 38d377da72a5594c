//! The logic of the xodus launcher and of its service: framing, request
//! handling, executable selection and the bookkeeping around a launch.

pub mod daemon;
pub mod exe;
pub mod gameconfig;
pub mod ipc;
pub mod launch;
pub mod launch_laws;
pub mod message;
pub mod outside;
pub mod package;
pub mod path;
pub mod proto;
pub mod ramdisk;
pub mod run;
pub mod run_laws;
pub mod service;
pub mod text;
pub mod token;
pub mod wine;
pub mod xbox;
pub mod xml;
pub mod xuser;
