use vstd::prelude::*;

verus! {

/// The phases the application goes through: assets load first, then the
/// simulation runs.
#[derive(Debug, Clone, Copy, PartialEq, Eq, Structural, Hash)]
pub enum AppStates {
    AssetLoading,
    Running,
}

impl Default for AppStates {
    fn default() -> (r: Self)
        ensures
            r == AppStates::AssetLoading,
    {
        AppStates::AssetLoading
    }
}

} // verus!
