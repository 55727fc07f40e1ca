//! The capability every command exposes, stated once so that adding a builtin
//! never touches a call site.

use crate::effect::{Effect, EffectView, EnvView, ShellEnv};
use vstd::prelude::*;

verus! {

/// The behaviour of a command: from the argument vector (the command's own
/// name first) and the session data, decide the one action the shell must
/// perform, as data.
pub trait CommandExt {
    /// What executing the command yields.
    spec fn effect_spec(&self, args: Seq<Seq<char>>, env: EnvView) -> EffectView;

    /// Compute the command's effect; the result is exactly `effect_spec`.
    fn execute(&self, args: &Vec<String>, env: &ShellEnv) -> (r: Effect)
        ensures
            r@ == self.effect_spec(args.deep_view(), env@),
    ;
}

} // verus!
