//! The window that a game asks for, and the words for a fatal failure.

use vstd::prelude::*;
use vstd::string::{StrSliceExecFns, StringExecFns};

verus! {

/// Size and frame rate of the window.
#[derive(Clone, Copy, PartialEq, Eq, Debug, Structural)]
pub struct WindowConfig {
    pub width: u32,
    pub height: u32,
    pub fullscreen: bool,
    pub fps: u32,
}

impl Default for WindowConfig {
    /// A window of 800 by 600 pixels at 60 frames in a second.
    fn default() -> (config: WindowConfig)
        ensures
            config == (WindowConfig { width: 800, height: 600, fullscreen: false, fps: 60 }),
    {
        WindowConfig { width: 800, height: 600, fullscreen: false, fps: 60 }
    }
}

/// What a failed `unwrap` puts before the error that it failed on.
pub open spec fn unwrap_prefix() -> Seq<char> {
    "called `Result::unwrap()` on an `Err` value: "@
}

/// The message of a fatal failure without the words of `unwrap` before it.
pub open spec fn fatal_text(payload: Seq<char>) -> Seq<char> {
    if unwrap_prefix().is_prefix_of(payload) {
        payload.subrange(unwrap_prefix().len() as int, payload.len() as int)
    } else {
        payload
    }
}

/// Takes the words of `unwrap` off the message of a fatal failure, so that
/// the error itself is what is shown.
pub fn fatal_message(payload: &str) -> (message: String)
    ensures
        message@ == fatal_text(payload@),
{
    let prefix = "called `Result::unwrap()` on an `Err` value: ";
    let prefix_len = prefix.unicode_len();
    let len = payload.unicode_len();
    if len < prefix_len {
        return String::from_str(payload);
    }
    let mut i: usize = 0;
    while i < prefix_len
        invariant
            i <= prefix_len,
            prefix_len == prefix@.len(),
            prefix@ == unwrap_prefix(),
            len == payload@.len(),
            prefix_len <= len,
            forall|j: int| 0 <= j < i ==> payload@[j] == prefix@[j],
        decreases prefix_len - i,
    {
        if payload.get_char(i) != prefix.get_char(i) {
            proof {
                assert(!unwrap_prefix().is_prefix_of(payload@)) by {
                    if unwrap_prefix().is_prefix_of(payload@) {
                        assert(payload@.subrange(0, prefix_len as int)[i as int] == prefix@[i as int]);
                    }
                }
            }
            return String::from_str(payload);
        }
        i = i + 1;
    }
    proof {
        assert(payload@.subrange(0, prefix_len as int) =~= prefix@);
    }
    String::from_str(payload.substring_char(prefix_len, len))
}

} // verus!
