use vstd::prelude::*;

verus! {

/// The target profile names the language binding offers as choices.
pub fn compile_target_choices() -> (r: Vec<String>)
    ensures
        r@.len() == 2,
        r@[0]@ == "QuantinuumHardware"@,
        r@[1]@ == "Native"@,
{
    let mut r: Vec<String> = Vec::new();
    r.push("QuantinuumHardware".to_owned());
    r.push("Native".to_owned());
    r
}

/// The code-generation effort levels the language binding offers as
/// choices.
pub fn opt_level_choices() -> (r: Vec<String>)
    ensures
        r@.len() == 4,
        r@[0]@ == "O0"@,
        r@[1]@ == "O1"@,
        r@[2]@ == "O2"@,
        r@[3]@ == "O3"@,
{
    let mut r: Vec<String> = Vec::new();
    r.push("O0".to_owned());
    r.push("O1".to_owned());
    r.push("O2".to_owned());
    r.push("O3".to_owned());
    r
}

/// The output format names the language binding offers as choices.
pub fn output_format_choices() -> (r: Vec<String>)
    ensures
        r@.len() == 2,
        r@[0]@ == "Bitcode"@,
        r@[1]@ == "LlvmIr"@,
{
    let mut r: Vec<String> = Vec::new();
    r.push("Bitcode".to_owned());
    r.push("LlvmIr".to_owned());
    r
}

} // verus!
