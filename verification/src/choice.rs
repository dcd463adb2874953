use vstd::prelude::*;
use crate::common::ExecutionMode;

verus! {

/// A menu entry of a box, with the script it runs and its interaction flags.
#[derive(Debug, Clone, PartialEq, Eq, Hash, Default)]
pub struct Choice {
    pub id: String,
    pub content: Option<String>,
    pub script: Option<Vec<String>>,
    pub redirect_output: Option<String>,
    pub append_output: Option<bool>,
    pub execution_mode: ExecutionMode,
    pub selected: bool,
    pub waiting: bool,
    pub hovered: bool,
}

} // verus!
