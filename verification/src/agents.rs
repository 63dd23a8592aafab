//! The project instructions file, AGENTS.md: its name and the text that
//! `/init` writes into a new one.
use vstd::prelude::*;

verus! {

/// The name of the instructions file in the workspace root.
pub const AGENTS_FILE: &'static str = "AGENTS.md";

/// The text of a new AGENTS.md.
pub const AGENTS_TEMPLATE: &'static str = "# AGENTS.md\n\n## Project\n\nDescribe what this project does, the main entry points, and any important constraints.\n\n## Build And Test\n\n- Add the normal build command here.\n- Add the normal test command here.\n\n## Coding Guidelines\n\n- Keep changes focused.\n- Prefer existing project patterns.\n- Run relevant checks before considering work complete.\n\n## Agent Notes\n\n- Mention files or directories that require extra care.\n- Mention generated files, vendored code, or paths agents should avoid editing.\n";

/// The text that `/init` writes into a new AGENTS.md.
pub fn default_agents_md() -> (r: &'static str)
    ensures
        r@ == AGENTS_TEMPLATE@,
{
    AGENTS_TEMPLATE
}

/// What `/init` writes, or why it refuses: an existing AGENTS.md is never
/// overwritten.
pub fn init_contents(already_exists: bool) -> (r: Result<&'static str, String>)
    ensures
        already_exists ==> (r matches Err(e) && e@ == "AGENTS.md already exists"@),
        !already_exists ==> (r matches Ok(t) && t@ == AGENTS_TEMPLATE@),
{
    if already_exists {
        Err("AGENTS.md already exists".to_string())
    } else {
        Ok(default_agents_md())
    }
}

} // verus!
