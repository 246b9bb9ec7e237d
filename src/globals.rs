//! The process-wide module base: set once at start-up, read by every pass
//! that locates data relative to it.
use vstd::prelude::*;

verus! {

/// A write-once holder for the module base address.
pub struct ModuleBaseCell {
    value: Option<u64>,
}

impl ModuleBaseCell {
    /// The value held, if one was set.
    pub closed spec fn held(&self) -> Option<u64> {
        self.value
    }

    /// An empty cell.
    pub fn new() -> (r: ModuleBaseCell)
        ensures
            r.held() is None,
    {
        ModuleBaseCell { value: None }
    }
}

/// Stores `module_base` in an empty cell; a cell that already holds a value
/// is left unchanged and the call fails.
pub fn set_module_base(cell: &mut ModuleBaseCell, module_base: u64) -> (r: Result<(), &'static str>)
    ensures
        old(cell).held() is None <==> r is Ok,
        old(cell).held() is None ==> final(cell).held() == Some(module_base),
        old(cell).held() is Some ==> final(cell).held() == old(cell).held(),
{
    match cell.value {
        Some(_) => Err("Module base already set"),
        None => {
            cell.value = Some(module_base);
            Ok(())
        },
    }
}

/// The stored module base, or an error when none was set.
pub fn get_module_base(cell: &ModuleBaseCell) -> (r: Result<u64, &'static str>)
    ensures
        match cell.held() {
            Some(v) => r == Ok::<u64, &'static str>(v),
            None => r is Err,
        },
{
    match cell.value {
        Some(v) => Ok(v),
        None => Err("Module base not initialized"),
    }
}

} // verus!
