use crate::context::{action_step_view, lift, Action, Context, Outcome, Plan};
use crate::error::Error;
use crate::model::compiler::CompilerName;
use crate::model::language::LanguageName;
use crate::setting::{start_read, Query, Setting};
use crate::store::Step;
use vstd::prelude::*;

verus! {

/// The settings in effect for a room, ready to be shown.
#[derive(Debug)]
pub struct Output {
    pub auto: bool,
    pub auto_save: bool,
    /// Each remapped language with the compiler that stands for it, both by
    /// name.
    pub remap: Vec<(LanguageName, CompilerName)>,
}

/// What `Output` holds, as plain values.
pub struct OutputView {
    pub auto: bool,
    pub auto_save: bool,
    pub remap: Seq<(Seq<char>, Seq<char>)>,
}

impl View for Output {
    type V = OutputView;

    open spec fn view(&self) -> OutputView {
        OutputView {
            auto: self.auto,
            auto_save: self.auto_save,
            remap: self.remap@.map_values(|p: (LanguageName, CompilerName)| (p.0@, p.1@)),
        }
    }
}

/// Reads all three settings of the room, one after the other, and names the
/// languages and compilers of the mappings. The action ends in
/// `Outcome::Setting`.
pub fn dump_setting<'a>(ctx: &'a Context) -> (r: Step<Action<'a>, Result<Outcome<'a>, Error>>)
    ensures
        action_step_view(r) == lift(
            start_read(ctx.spec_guild_id(), ctx.spec_channel_id(), Query::Auto),
            *ctx,
            Plan::DumpAuto,
        ),
{
    ctx.start(Setting::get_auto(ctx.guild_id(), ctx.channel_id()), Plan::DumpAuto)
}

} // verus!
