//! Session orchestration core for an automated quiz/code-lab session:
//! page classification for login flows, answer resolution and application
//! planning, grade parsing, and the retry / submission decision logic.

use vstd::prelude::*;

verus! {

/// True when a URL points at a Virtual Programming Lab activity.
pub fn is_vpl_url(url: &str) -> (r: bool)
    ensures
        r == crate::text::has_substring(url@, "/mod/vpl/"@),
{
    crate::text::contains_str(url, "/mod/vpl/")
}

} // verus!

pub mod answer;
pub mod apply;
pub mod config;
pub mod coordinator;
pub mod grade;
pub mod login;
pub mod oracle;
pub mod question;
pub mod text;
pub mod vpl;
