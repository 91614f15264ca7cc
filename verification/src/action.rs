//! What a user can ask of the bot, one function each.

pub mod dump_setting;
pub mod list_compilers;
pub mod list_languages;
pub mod remap_language;
pub mod run;
pub mod run_implicit;
pub mod set_auto;
pub mod set_auto_save;

pub use dump_setting::dump_setting;
pub use list_compilers::list_compilers;
pub use list_languages::list_languages;
pub use remap_language::remap_language;
pub use run::run;
pub use run_implicit::run_implicit;
pub use set_auto::set_auto;
pub use set_auto_save::set_auto_save;

use crate::context::Context;
use crate::setting::Scope;
use vstd::prelude::*;

verus! {

/// The context that the actions work in.
pub type ActionContext = Context;

/// How far a write reaches: the whole community where `is_global` is set,
/// else the room that is being served.
pub open spec fn scope_of(ctx: Context, is_global: bool) -> Scope {
    if is_global {
        Scope::Guild
    } else {
        Scope::Channel(ctx.spec_channel_id())
    }
}

pub(crate) fn scope(ctx: &Context, is_global: bool) -> (r: Scope)
    ensures
        r == scope_of(*ctx, is_global),
{
    if is_global {
        Scope::Guild
    } else {
        Scope::Channel(ctx.channel_id())
    }
}

} // verus!
