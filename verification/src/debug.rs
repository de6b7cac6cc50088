//! Whether the Vulkan validation layer is installed.
use vstd::prelude::*;

verus! {

/// Whether the Khronos validation layer is among the layers the system
/// offers (given by name).
pub fn has_validation_layers_support(available_layers: &Vec<String>) -> (r: bool)
    ensures
        r == exists|i: int|
            0 <= i < available_layers@.len() && #[trigger] available_layers@[i]@
                == "VK_LAYER_KHRONOS_validation"@,
{
    let required = "VK_LAYER_KHRONOS_validation".to_owned();
    let mut i: usize = 0;
    while i < available_layers.len()
        invariant
            i <= available_layers@.len(),
            required@ == "VK_LAYER_KHRONOS_validation"@,
            forall|j: int|
                0 <= j < i ==> #[trigger] available_layers@[j]@ != "VK_LAYER_KHRONOS_validation"@,
        decreases available_layers.len() - i,
    {
        if available_layers[i] == required {
            return true;
        }
        i += 1;
    }
    false
}

} // verus!
