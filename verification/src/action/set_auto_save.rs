use crate::action::{scope, scope_of};
use crate::context::{action_step_view, lift, Action, Context, Outcome, Plan};
use crate::error::Error;
use crate::setting::{start_write, Datum, Setting};
use crate::store::Step;
use vstd::prelude::*;

verus! {

/// Sets whether runs of code posted without a command are saved: in the
/// room that is being served, or, where `is_global` is set, in the whole
/// community. The action ends in `Outcome::Answer`.
pub fn set_auto_save<'a>(ctx: &'a Context, is_global: bool, set: bool) -> (r: Step<
    Action<'a>,
    Result<Outcome<'a>, Error>,
>)
    ensures
        action_step_view(r) == lift(
            start_write(ctx.spec_guild_id(), scope_of(*ctx, is_global), Datum::AutoSave(set)),
            *ctx,
            Plan::Answer,
        ),
{
    ctx.start(Setting::set_auto_save(ctx.guild_id(), scope(ctx, is_global), set), Plan::Answer)
}

} // verus!
