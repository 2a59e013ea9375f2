//! Process-lifetime session settings. All fields are fixed after load except
//! `auto_submit`, which the submission coordinator may switch on when the
//! user opts into submitting everything from now on. That toggle happens on
//! the single control-flow thread that owns the configuration; the type
//! assumes single-writer access and no concurrent readers.

use vstd::prelude::*;

verus! {

/// Default number of retries for transient oracle/API errors.
pub fn default_api_retries() -> (r: u32)
    ensures
        r == 3,
{
    3
}

/// Default base delay in milliseconds between API retries; the delay grows
/// linearly with the attempt number.
pub fn default_api_retry_delay_ms() -> (r: u64)
    ensures
        r == 1000,
{
    1000
}

/// Default number of consecutive oracle failures that aborts the run.
pub fn default_max_consecutive_failures() -> (r: u32)
    ensures
        r == 5,
{
    5
}

/// Default number of retries for browser button clicks.
pub fn default_button_click_retries() -> (r: u32)
    ensures
        r == 5,
{
    5
}

/// Session configuration, threaded by reference through the whole session.
#[derive(Debug, Clone, PartialEq)]
pub struct AppConfig {
    /// Login username.
    pub username: String,
    /// Login password.
    pub password: String,
    /// Submit all oracle answers without asking for confirmation.
    pub auto_submit: bool,
    /// Auto-click continuation prompts when found.
    pub continuation_prompts: bool,
    /// Command to run on completion or error; receives the message as its
    /// one argument.
    pub stop_hook: Option<String>,
    /// Number of retries for transient API errors.
    pub api_retries: u32,
    /// Base delay in ms between API retries, multiplied by the attempt
    /// number.
    pub api_retry_delay_ms: u64,
    /// Max consecutive oracle failures before stopping.
    pub max_consecutive_failures: u32,
    /// Number of retries for browser button clicks.
    pub button_click_retries: u32,
    /// Run with a visible browser window.
    pub visible: bool,
    /// Allow skipping pages without submitted answers.
    pub allow_skip: bool,
}

impl Default for AppConfig {
    /// An empty-credential configuration with the documented default retry
    /// counts and thresholds.
    fn default() -> (r: Self)
        ensures
            r.username@.len() == 0,
            r.password@.len() == 0,
            !r.auto_submit,
            !r.continuation_prompts,
            r.stop_hook is None,
            r.api_retries == 3,
            r.api_retry_delay_ms == 1000,
            r.max_consecutive_failures == 5,
            r.button_click_retries == 5,
            !r.visible,
            !r.allow_skip,
    {
        AppConfig {
            username: String::new(),
            password: String::new(),
            auto_submit: false,
            continuation_prompts: false,
            stop_hook: None,
            api_retries: default_api_retries(),
            api_retry_delay_ms: default_api_retry_delay_ms(),
            max_consecutive_failures: default_max_consecutive_failures(),
            button_click_retries: default_button_click_retries(),
            visible: false,
            allow_skip: false,
        }
    }
}

impl AppConfig {
    /// Set `auto_submit` at runtime. Called only from the single
    /// control-flow thread that owns the configuration.
    pub fn set_auto_submit(&mut self, value: bool)
        ensures
            *final(self) == (AppConfig { auto_submit: value, ..*old(self) }),
    {
        self.auto_submit = value;
    }
}

} // verus!
