use vstd::prelude::*;
use vstd::string::StringExecFns;

verus! {

/// Identity of the destination log stream (group and stream name), together
/// with the debug-verbosity toggle.
#[derive(Clone, Debug)]
pub struct Configuration {
    pub log_group_name: String,
    pub log_stream_name: String,
    pub is_debug_mode_enabled: bool,
}

impl Configuration {
    /// Builds a configuration; a missing group name falls back to the default.
    pub fn new(
        log_stream_name: String,
        log_group_name: Option<String>,
        is_debug_mode_enabled: bool,
    ) -> (c: Configuration)
        ensures
            c.log_stream_name == log_stream_name,
            c.is_debug_mode_enabled == is_debug_mode_enabled,
            (match log_group_name {
                Some(g) => c.log_group_name == g,
                None => c.log_group_name@ == "journald-to-cloudwatch"@,
            }),
    {
        let log_group_name = match log_group_name {
            Some(g) => g,
            None => "journald-to-cloudwatch".to_owned(),
        };
        Configuration { log_group_name, log_stream_name, is_debug_mode_enabled }
    }

    /// The `group/stream` label that names the destination in diagnostics.
    pub fn path(&self) -> (r: String)
        ensures
            r@ == self.log_group_name@ + "/"@ + self.log_stream_name@,
    {
        let mut r = self.log_group_name.clone();
        r.append("/");
        r.append(self.log_stream_name.as_str());
        r
    }
}

} // verus!
