//! Decisions taken when the browser starts: rendering flags and the tabs a session restores.
use vstd::prelude::*;
use crate::input::{is_internal, is_newtab_url};
use crate::text::{owned, same_text};

verus! {

/// Which WebKit rendering variables get a default value at startup.
#[derive(Debug, Clone, Copy, PartialEq, Eq)]
pub struct EnvDefaults {
    /// Set `WEBKIT_FORCE_SANDBOX` to `0`.
    pub sandbox_off: bool,
    /// Set `WEBKIT_DISABLE_DMABUF_RENDERER` to `1`.
    pub dmabuf_off: bool,
    /// Set `WEBKIT_DISABLE_COMPOSITING_MODE` to `1`.
    pub compositing_off: bool,
}

/// Some command-line argument is exactly `flag`.
pub open spec fn has_arg(args: Seq<String>, flag: Seq<char>) -> bool {
    exists|i: int| 0 <= i < args.len() && args[i]@ == flag
}

fn any_arg(args: &Vec<String>, flag: &str) -> (r: bool)
    ensures
        r == has_arg(args@, flag@),
{
    let mut i: usize = 0;
    while i < args.len()
        invariant
            i <= args.len(),
            forall|j: int| 0 <= j < i ==> args@[j]@ != flag@,
        decreases args.len() - i,
    {
        if same_text(args[i].as_str(), flag) {
            return true;
        }
        i += 1;
    }
    false
}

/// Decides which rendering variables to default, given which are already set and the
/// command-line arguments: the sandbox is turned off unless set; DMA-BUF rendering and
/// compositing are turned off unless set or enabled by `--enable-dmabuf` or
/// `--enable-compositing`.
pub fn env_defaults(sandbox_set: bool, dmabuf_set: bool, compositing_set: bool, args: &Vec<String>) -> (r:
    EnvDefaults)
    ensures
        r.sandbox_off == !sandbox_set,
        r.dmabuf_off == (!dmabuf_set && !has_arg(args@, "--enable-dmabuf"@)),
        r.compositing_off == (!compositing_set && !has_arg(args@, "--enable-compositing"@)),
{
    EnvDefaults {
        sandbox_off: !sandbox_set,
        dmabuf_off: !dmabuf_set && !any_arg(args, "--enable-dmabuf"),
        compositing_off: !compositing_set && !any_arg(args, "--enable-compositing"),
    }
}

/// What restoring a saved tab asks for: a plain new tab for an internal page, else its
/// address.
pub fn restore_request(url: &str) -> (r: Option<String>)
    ensures
        is_internal(url@) ==> r is None,
        !is_internal(url@) ==> (r matches Some(u) && u@ == url@),
{
    if is_newtab_url(url) {
        None
    } else {
        Some(owned(url))
    }
}

} // verus!
