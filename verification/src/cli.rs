use vstd::prelude::*;

verus! {

/// How the output artifact is encoded: the compact binary encoding or the
/// human-readable text form.
#[derive(Debug, Clone, Copy, PartialEq, Eq, Structural)]
pub enum OutputFormat {
    Bitcode,
    LlvmIr,
}

/// Resolves the output format: an explicit choice wins; otherwise an
/// interactive destination or a text-like file extension ("ll" or "asm")
/// selects the readable form, and anything else defaults to the binary
/// encoding.
pub fn output_format(
    explicit: Option<OutputFormat>,
    is_tty: bool,
    extension: Option<&str>,
) -> (r: OutputFormat)
    ensures
        match explicit {
            Some(f) => r == f,
            None => {
                if is_tty {
                    r == OutputFormat::LlvmIr
                } else {
                    match extension {
                        Some(e) => (r == OutputFormat::LlvmIr <==> e@ == "ll"@ || e@ == "asm"@),
                        None => r == OutputFormat::Bitcode,
                    }
                }
            },
        },
{
    match explicit {
        Some(f) => f,
        None => {
            if is_tty {
                return OutputFormat::LlvmIr;
            }
            if let Some(e) = extension {
                let es: String = e.to_owned();
                let ll: String = "ll".to_owned();
                let asm_ext: String = "asm".to_owned();
                if es == ll || es == asm_ext {
                    return OutputFormat::LlvmIr;
                }
            }
            OutputFormat::Bitcode
        },
    }
}

} // verus!
