//! Build targets of the project's maintenance tooling.

use vstd::prelude::*;

verus! {

/// A compilation target of the library.
#[derive(Clone, Copy, Debug, PartialEq, Eq, Structural)]
pub enum Target {
    Default,
    Wasm,
}

/// The compiler flags that select a target, as text.
pub open spec fn target_flags(t: Target) -> Seq<Seq<char>> {
    match t {
        Target::Default => seq![],
        Target::Wasm => seq!["--target"@, "wasm32-unknown-unknown"@],
    }
}

impl Target {
    /// The extra compiler flags that select this target.
    pub fn flags(&self) -> (r: Vec<String>)
        ensures
            r@.map_values(|s: String| s@) == target_flags(*self),
    {
        match self {
            Target::Default => Vec::new(),
            Target::Wasm => {
                let v = vec!["--target".to_owned(), "wasm32-unknown-unknown".to_owned()];
                proof {
                    reveal_strlit("--target");
                    reveal_strlit("wasm32-unknown-unknown");
                }
                assert(v@.map_values(|s: String| s@) =~= target_flags(*self));
                v
            }
        }
    }
}

} // verus!
