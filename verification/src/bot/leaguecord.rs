//! The main handler: startup checks and the `!modules` reply.
use vstd::prelude::*;
use vstd::string::*;

verus! {

/// Decides the startup of the bot.
pub struct LeagueCord;

impl LeagueCord {
    /// The bot runs only when it lives in exactly one server.
    pub fn serves_guild_count(guild_count: usize) -> (r: bool)
        ensures
            r == (guild_count == 1),
    {
        guild_count == 1
    }
}

/// The reply of a handler to `!modules`: `<module_name> module is loaded !`.
pub fn module_loaded_message(module_name: &str) -> (r: String)
    ensures
        r@ == module_name@ + " module is loaded !"@,
{
    let mut text = String::from_str(module_name);
    text.append(" module is loaded !");
    text
}

} // verus!
