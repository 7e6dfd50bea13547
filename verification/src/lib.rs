//! Verified core of an inference gateway: command dispatch, model lifecycle,
//! tensor alignment, archive handling and integrity checking for a remote
//! model-serving backend.

pub mod align;
pub mod archive;
pub mod backend;
pub mod command;
pub mod descriptor;
pub mod dispatch;
pub mod fsmodel;
pub mod integrity;
pub mod jsonio;
pub mod lifecycle;
pub mod render;
pub mod summary;
pub mod tensor;
pub mod toktext;
