//! Setting up and showing the configured credentials.

use crate::models::Workspace;
use crate::text::{push_char, push_str, str_is};
use vstd::prelude::*;
use vstd::string::StringSliceAdditionalSpecFns;
use vstd::utf8::{decode_utf8, encode_utf8, is_char_boundary};

verus! {

/// The shown form of an API key: its first and last four bytes around an
/// ellipsis, or `****` for keys of eight bytes or fewer.
pub open spec fn masked(key: Seq<char>) -> Seq<char> {
    let b = encode_utf8(key);
    if b.len() <= 8 {
        seq!['*', '*', '*', '*']
    } else {
        decode_utf8(b.subrange(0, 4)) + seq!['…'] + decode_utf8(b.subrange(b.len() - 4, b.len() as int))
    }
}

/// Cutting the key after its fourth byte and before its last four falls
/// between characters (otherwise masking it panics).
pub open spec fn mask_cuts_cleanly(key: Seq<char>) -> bool {
    let b = encode_utf8(key);
    b.len() <= usize::MAX && (b.len() > 8 ==> is_char_boundary(b, 4) && is_char_boundary(b, b.len() - 4))
}

/// Masks an API key for display.
pub fn mask(key: &str) -> (r: String)
    requires
        mask_cuts_cleanly(key@),
    ensures
        r@ == masked(key@),
{
    let n = key.len();
    if n <= 8 {
        let mut out = String::new();
        push_char(&mut out, '*');
        push_char(&mut out, '*');
        push_char(&mut out, '*');
        push_char(&mut out, '*');
        return out;
    }
    let (head, _) = key.split_at(4);
    let (_, tail) = key.split_at(n - 4);
    proof {
        vstd::utf8::encode_utf8_decode_utf8(head@);
        vstd::utf8::encode_utf8_decode_utf8(tail@);
    }
    let mut out = String::new();
    push_str(&mut out, head);
    push_char(&mut out, '…');
    push_str(&mut out, tail);
    out
}

/// How the setup picks the default workspace.
#[derive(Debug, Clone, Copy, PartialEq, Eq, Structural)]
pub enum WorkspaceChoice {
    /// The account has no workspace: setup cannot go on.
    NoWorkspace,
    /// The account's only workspace is taken.
    Only,
    /// The user picks one; the list starts on `default`.
    Ask { default: usize },
}

/// The default workspace offered: the user's active one where it is listed,
/// else the first.
pub fn workspace_choice(workspaces: &[Workspace], active: Option<&str>) -> (r: WorkspaceChoice)
    ensures
        workspaces@.len() == 0 ==> r == WorkspaceChoice::NoWorkspace,
        workspaces@.len() == 1 ==> r == WorkspaceChoice::Only,
        workspaces@.len() > 1 ==> (r matches WorkspaceChoice::Ask { default } && default
            < workspaces@.len() && match active {
            Some(a) => if exists|i: int| 0 <= i < workspaces@.len() && (#[trigger] workspaces@[i]).id@
                == a@ {
                workspaces@[default as int].id@ == a@ && forall|j: int|
                    0 <= j < default ==> (#[trigger] workspaces@[j]).id@ != a@
            } else {
                default == 0
            },
            None => default == 0,
        }),
{
    if workspaces.len() == 0 {
        return WorkspaceChoice::NoWorkspace;
    }
    if workspaces.len() == 1 {
        return WorkspaceChoice::Only;
    }
    let a = match active {
        Some(a) => a,
        None => return WorkspaceChoice::Ask { default: 0 },
    };
    let mut i: usize = 0;
    while i < workspaces.len()
        invariant
            i <= workspaces@.len(),
            workspaces@.len() > 1,
            active == Some(a),
            forall|j: int| 0 <= j < i ==> (#[trigger] workspaces@[j]).id@ != a@,
        decreases workspaces@.len() - i,
    {
        if str_is(workspaces[i].id.as_str(), a) {
            return WorkspaceChoice::Ask { default: i };
        }
        i = i + 1;
    }
    WorkspaceChoice::Ask { default: 0 }
}

} // verus!
