use vstd::prelude::*;

verus! {

/// The name of the plugin.
pub const PLUGIN_NAME: &'static str = "中心ずらし_A";

/// The author of the plugin.
pub const PLUGIN_AUTHOR: &'static str = "azurite";

/// The information line of the plugin: its name, `v` and its version, and its author.
pub fn plugin_information(version: &str) -> (s: String)
    ensures
        s@ == PLUGIN_NAME@ + " v"@ + version@ + " "@ + PLUGIN_AUTHOR@,
{
    let mut s = String::from_str(PLUGIN_NAME);
    s.append(" v");
    s.append(version);
    s.append(" ");
    s.append(PLUGIN_AUTHOR);
    s
}

} // verus!
