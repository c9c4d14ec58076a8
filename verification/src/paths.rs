//! Where fleetops reads from: a state directory is its override when one is set, else the
//! home directory (`/` without one) joined with the directory's own name.
use vstd::prelude::*;

use crate::discovery::opt_view;
use crate::telemetry::{path_join, path_join_spec};
use crate::text::string_from;

verus! {

/// The state directory: the override, else `<home or />/<leaf>`.
pub open spec fn state_dir_spec(override_dir: Option<Seq<char>>, home: Option<Seq<char>>, leaf: Seq<char>) -> Seq<char> {
    match override_dir {
        Some(d) => d,
        None => path_join_spec(
            match home {
                Some(h) => h,
                None => seq!['/'],
            },
            leaf,
        ),
    }
}

/// Resolve a state directory (the agent's, or Codex's `~/.codex`) from its override variable
/// and `$HOME` as read.
pub fn state_dir(override_dir: Option<String>, home: Option<String>, leaf: &str) -> (r: String)
    ensures
        r@ == state_dir_spec(opt_view(override_dir), opt_view(home), leaf@),
{
    match override_dir {
        Some(d) => d,
        None => {
            let h = match home {
                Some(h) => h,
                None => {
                    let s = string_from("/");
                    proof {
                        reveal_strlit("/");
                    }
                    assert(s@ =~= seq!['/']);
                    s
                },
            };
            path_join(h.as_str(), leaf)
        },
    }
}

} // verus!
