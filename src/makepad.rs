use vstd::prelude::*;
use crate::text::str_eq;
use crate::format::{format_of, overlay_for, overlay_spec, parse_format};

verus! {

/// The value of `MAKEPAD_PACKAGE_DIR` for a format given by its identifier.
pub fn makepad_package_dir_value(package_format: &str, main_binary_name: &str) -> (r: String)
    requires
        format_of(package_format@) is Some,
    ensures
        r@ == overlay_spec(format_of(package_format@)->0, main_binary_name@),
{
    let format = parse_format(package_format);
    match format {
        Some(f) => overlay_for(f, main_binary_name),
        None => String::new(),
    }
}


/// The name of the toolkit package whose resources are staged.
pub open spec fn toolkit_package() -> Seq<char> {
    "makepad-widgets"@
}

/// The position of the first package named `makepad-widgets` among the
/// names of the workspace's packages, if there is one.
pub fn toolkit_package_index(package_names: &Vec<String>) -> (r: Option<usize>)
    ensures
        r matches Some(i) ==> i < package_names.len() && package_names[i as int]@
            == toolkit_package(),
        forall|j: int|
            0 <= j < package_names.len() && (r matches Some(i) ==> j < i) ==> (
            #[trigger] package_names[j])@ != toolkit_package(),
{
    let mut i: usize = 0;
    while i < package_names.len()
        invariant
            i <= package_names.len(),
            forall|j: int| 0 <= j < i ==> (#[trigger] package_names[j])@ != toolkit_package(),
        decreases package_names.len() - i,
    {
        if str_eq(package_names[i].as_str(), "makepad-widgets") {
            return Some(i);
        }
        i = i + 1;
    }
    None
}

} // verus!
