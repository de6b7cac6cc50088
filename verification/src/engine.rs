//! The description of an engine instance.
use vstd::prelude::*;

use crate::window::InitialWindowInfo;

verus! {

/// What an engine is created with: its window and the application name.
#[derive(Debug, Copy, Clone, PartialEq)]
pub struct EngineInfo {
    pub window_info: InitialWindowInfo,
    pub app_name: &'static str,
}

} // verus!
