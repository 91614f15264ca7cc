use crate::action::{scope, scope_of};
use crate::context::{action_step_view, lift, Action, ActionView, Context, Ended, Outcome, Plan};
use crate::error::{Error, ErrorView};
use crate::model::compiler::CompilerName;
use crate::model::language::LanguageName;
use crate::setting::{start_write, Datum, Setting};
use crate::store::{Step, StepView};
use vstd::prelude::*;

verus! {

/// The first step of letting a compiler stand for a language. Both names
/// must be known to the catalog, and the compiler must belong to the
/// language. Where one of these fails the action ends at once with the
/// error, and the backend is not asked for anything.
pub open spec fn begin_remap(
    ctx: Context,
    is_global: bool,
    language_name: Seq<char>,
    compiler_name: Seq<char>,
) -> StepView<ActionView, Ended> {
    match ctx.spec_table().spec_find_language(language_name) {
        None => StepView::Finish(Err(ErrorView::UnknownLanguageName(language_name))),
        Some(language) => match ctx.spec_table().spec_find_compiler(compiler_name) {
            None => StepView::Finish(Err(ErrorView::UnknownCompilerName(compiler_name))),
            Some(compiler) => if compiler@.language_id != language.spec_id() {
                StepView::Finish(
                    Err(ErrorView::RemapMismatch(compiler@.name, language.spec_name())),
                )
            } else {
                lift(
                    start_write(
                        ctx.spec_guild_id(),
                        scope_of(ctx, is_global),
                        Datum::Remap(language.spec_id(), compiler@.id),
                    ),
                    ctx,
                    Plan::Answer,
                )
            },
        },
    }
}

/// Lets a compiler stand for a language: in the room that is being served,
/// or, where `is_global` is set, in the whole community. The action ends in
/// `Outcome::Answer`.
pub fn remap_language<'a>(
    ctx: &'a Context,
    is_global: bool,
    language_name: LanguageName,
    compiler_name: CompilerName,
) -> (r: Step<Action<'a>, Result<Outcome<'a>, Error>>)
    ensures
        action_step_view(r) == begin_remap(*ctx, is_global, language_name@, compiler_name@),
{
    let language = match ctx.table().find_language(&language_name) {
        Some(l) => l,
        None => {
            return Step::Finish(Err(Error::UnknownLanguageName(language_name)));
        },
    };
    let compiler = match ctx.table().find_compiler(&compiler_name) {
        Some(c) => c,
        None => {
            return Step::Finish(Err(Error::UnknownCompilerName(compiler_name)));
        },
    };
    if compiler.language_id() != language.id() {
        return Step::Finish(
            Err(Error::RemapMismatch(compiler.name().clone(), language.name().clone())),
        );
    }
    ctx.start(
        Setting::set_remap(ctx.guild_id(), scope(ctx, is_global), language.id(), compiler.id()),
        Plan::Answer,
    )
}

/// A compiler that does not belong to the language is turned down before
/// anything is written: the action ends at once, and names no command.
pub proof fn lemma_mismatch_writes_nothing(
    ctx: Context,
    is_global: bool,
    language_name: Seq<char>,
    compiler_name: Seq<char>,
)
    requires
        ctx.spec_table().spec_find_language(language_name) matches Some(language)
            && ctx.spec_table().spec_find_compiler(compiler_name) matches Some(compiler)
            && compiler@.language_id != language.spec_id(),
    ensures
        begin_remap(ctx, is_global, language_name, compiler_name) matches StepView::Finish(
            Err(ErrorView::RemapMismatch(c, l)),
        ) && c == compiler_name && l == ctx.spec_table().spec_find_language(
            language_name,
        )->Some_0.spec_name(),
{
    ctx.spec_table().lemma_found_compiler(compiler_name);
}

} // verus!
