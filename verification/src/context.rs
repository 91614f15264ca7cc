//! Which compiler applies: the catalog read together with the settings.
//!
//! Every operation here is a chain of reads or writes of settings with
//! decisions in between. `Action` carries one through: it names the next
//! command for the backend, takes the reply, and ends with an `Outcome`.

use crate::action::dump_setting::{Output, OutputView};
use crate::error::{Error, ErrorView};
use crate::model::channel_id::ChannelID;
use crate::model::code::Code;
use crate::model::compiler::{Compiler, CompilerID, CompilerName};
use crate::model::compiler_options::{string_views, CompilerOptions};
use crate::model::compiler_spec::CompilerSpec;
use crate::model::guild_id::GuildID;
use crate::model::language::{same_ignoring_case, Language, LanguageID, LanguageName};
use crate::semantics::{lemma_room_write_then_read, run};
use crate::setting::{
    remap_pairs, start_read, start_write, step_view, Answer, AnswerView, Datum, Finished, Query,
    Scope, Setting, SettingView,
};
use crate::store::{works, CommandView, Entry, Reply, ReplyView, Step, StepView};
use crate::table::{
    catalog_consistent, default_in_catalog, first_compiler_named, first_language_named,
    has_compiler, has_language, Table,
};
use crate::wandbox::compile::{text_view, Request, RequestView};
use vstd::prelude::*;

verus! {

/// The catalog together with the room that is being served.
#[derive(Debug)]
pub struct Context {
    table: Table,
    guild_id: GuildID,
    channel_id: ChannelID,
}

/// What becomes of the compiler that a language resolves to.
#[derive(Debug)]
pub enum Purpose {
    /// It is the outcome.
    Lookup,
    /// A request to compile and run `code` with it is the outcome.
    Compile { code: Code, stdin: Option<String>, options: Option<CompilerOptions>, save: bool },
}

/// What an action does with the answer of the read or write that is on its
/// way.
#[derive(Debug)]
pub enum Plan {
    /// Hand it out.
    Answer,
    /// It is the remap of the language `language_id`: settle on a compiler.
    Resolve { language_id: LanguageID, purpose: Purpose },
    /// It is the list of remaps: name the languages and compilers, and hand
    /// the names out, together with the two flags where they are given.
    Names { flags: Option<(bool, bool)> },
    /// It is `Auto`: go on to read `AutoSave`, then the remaps.
    DumpAuto,
    /// It is `AutoSave`: go on to read the remaps.
    DumpAutoSave { auto: bool },
    /// It is `Auto`: where it is off, stop; else go on to read `AutoSave`.
    ImplicitAuto { code: Code, stdin: Option<String> },
    /// It is `AutoSave`: go on to resolve the language of the code.
    ImplicitAutoSave { code: Code, stdin: Option<String> },
}

/// A chain of operations on the settings, between two round-trips to the
/// backend.
#[derive(Debug)]
pub struct Action<'a> {
    ctx: &'a Context,
    inner: Setting,
    plan: Plan,
}

/// An action as plain values.
pub struct ActionView {
    pub ctx: Context,
    pub inner: SettingView,
    pub plan: Plan,
}

/// What an action ends with.
#[derive(Debug)]
pub enum Outcome<'a> {
    /// The answer of a plain read or write of settings.
    Answer(Answer),
    /// The compiler that was resolved.
    Compiler(&'a Compiler),
    /// Each remapped language with its compiler, by name.
    Remaps(Vec<(&'a LanguageName, &'a CompilerName)>),
    /// The settings in effect.
    Setting(Output),
    /// What to send to the compile service.
    Compile(Request),
    /// Nothing is to be run.
    NoRun,
}

/// An outcome as plain values.
pub enum OutcomeView {
    Answer(AnswerView),
    Compiler(Compiler),
    Remaps(Seq<(Seq<char>, Seq<char>)>),
    Setting(OutputView),
    Compile(RequestView),
    NoRun,
}

impl<'a> View for Outcome<'a> {
    type V = OutcomeView;

    open spec fn view(&self) -> OutcomeView {
        match self {
            Outcome::Answer(answer) => OutcomeView::Answer(answer@),
            Outcome::Compiler(compiler) => OutcomeView::Compiler(**compiler),
            Outcome::Remaps(pairs) => OutcomeView::Remaps(
                pairs@.map_values(|p: (&LanguageName, &CompilerName)| (p.0@, p.1@)),
            ),
            Outcome::Setting(output) => OutcomeView::Setting(output@),
            Outcome::Compile(request) => OutcomeView::Compile(request@),
            Outcome::NoRun => OutcomeView::NoRun,
        }
    }
}

/// How an action ends.
pub type Ended = Result<OutcomeView, ErrorView>;

/// A step of an action, as plain values.
pub open spec fn action_step_view<'a>(
    step: Step<Action<'a>, Result<Outcome<'a>, Error>>,
) -> StepView<ActionView, Ended> {
    match step {
        Step::Perform(action, command) => StepView::Perform(action@, command@),
        Step::Finish(Ok(outcome)) => StepView::Finish(Ok(outcome@)),
        Step::Finish(Err(error)) => StepView::Finish(Err(error@)),
    }
}

/// The first step of an action: the first step of its first operation on
/// the settings, with the plan for the answer.
pub open spec fn lift(first: StepView<SettingView, Finished>, ctx: Context, plan: Plan) -> StepView<
    ActionView,
    Ended,
> {
    match first {
        StepView::Perform(inner, command) => StepView::Perform(
            ActionView { ctx, inner, plan },
            command,
        ),
        StepView::Finish(Ok(_)) => StepView::Finish(
            Err(ErrorView::Database("unexpected reply"@)),
        ),
        StepView::Finish(Err(e)) => StepView::Finish(Err(e)),
    }
}

/// Options joined into one text, a line each.
pub open spec fn joined(parts: Seq<Seq<char>>, separator: Seq<char>) -> Seq<char>
    decreases parts.len(),
{
    if parts.len() == 0 {
        Seq::empty()
    } else if parts.len() == 1 {
        parts[0]
    } else {
        joined(parts.drop_last(), separator) + separator + parts.last()
    }
}

/// The request to compile and run `code` with `compiler`: the compiler by
/// the name the service knows it by, the options one per line, nothing else
/// set.
pub open spec fn compile_request(
    compiler: Compiler,
    code: Code,
    stdin: Option<String>,
    options: Option<CompilerOptions>,
    save: bool,
) -> RequestView {
    RequestView {
        compiler: compiler@.wandbox_name,
        code: code.spec_text(),
        codes: Seq::empty(),
        options: None,
        stdin: text_view(stdin),
        compiler_option_raw: match options {
            Some(o) => Some(joined(o@, "\n"@)),
            None => None,
        },
        runtime_option_raw: None,
        save,
    }
}

/// What the compiler that was settled on becomes.
pub open spec fn deliver(compiler: Compiler, purpose: Purpose) -> OutcomeView {
    match purpose {
        Purpose::Lookup => OutcomeView::Compiler(compiler),
        Purpose::Compile { code, stdin, options, save } => OutcomeView::Compile(
            compile_request(compiler, code, stdin, options, save),
        ),
    }
}

/// The first step of settling on the compiler for a language of the
/// catalog: read what the settings map the language to.
pub open spec fn begin_language(ctx: Context, language: Language, purpose: Purpose) -> StepView<
    ActionView,
    Ended,
> {
    lift(
        start_read(
            ctx.spec_guild_id(),
            ctx.spec_channel_id(),
            Query::Remap(language.spec_id()),
        ),
        ctx,
        Plan::Resolve { language_id: language.spec_id(), purpose },
    )
}

/// The first step of resolving a text that names a language or a compiler.
/// A language that answers to the text has the first word, and the settings
/// are read for it. Else a compiler with exactly that name is taken as it
/// is, and the settings are not asked. Else the text is unknown.
pub open spec fn begin_spec(ctx: Context, spec: Seq<char>, purpose: Purpose) -> StepView<
    ActionView,
    Ended,
> {
    match ctx.spec_table().spec_find_language(spec) {
        Some(language) => begin_language(ctx, language, purpose),
        None => match ctx.spec_table().spec_find_compiler(spec) {
            Some(compiler) => StepView::Finish(Ok(deliver(compiler, purpose))),
            None => StepView::Finish(Err(ErrorView::UnknownCompilerSpec(spec))),
        },
    }
}

/// The first step of resolving the name of a language.
pub open spec fn begin_name(ctx: Context, name: Seq<char>, purpose: Purpose) -> StepView<
    ActionView,
    Ended,
> {
    match ctx.spec_table().spec_find_language(name) {
        Some(language) => begin_language(ctx, language, purpose),
        None => StepView::Finish(Err(ErrorView::UnknownLanguageName(name))),
    }
}

/// The first step of a run. The compiler is the one that `compiler_spec`
/// resolves to where it is given, else the one for the language that the
/// code says it is written in; where neither is given, nothing says which
/// compiler to use.
pub open spec fn begin_run(
    ctx: Context,
    compiler_spec: Option<CompilerSpec>,
    code: Code,
    options: Option<CompilerOptions>,
    stdin: Option<String>,
    save: bool,
) -> StepView<ActionView, Ended> {
    let purpose = Purpose::Compile { code, stdin, options, save };
    match compiler_spec {
        Some(spec) => begin_spec(ctx, spec@, purpose),
        None => match code.spec_language() {
            Some(name) => begin_name(ctx, name, purpose),
            None => StepView::Finish(Err(ErrorView::NoCompilerSpecified)),
        },
    }
}

/// The step that follows the answer of the operation on the settings that
/// was on its way, under the plan that the action has for it.
pub open spec fn proceed(ctx: Context, plan: Plan, answer: AnswerView) -> StepView<ActionView, Ended> {
    let guild_id = ctx.spec_guild_id();
    let channel_id = ctx.spec_channel_id();
    match (plan, answer) {
        (Plan::Answer, _) => StepView::Finish(Ok(OutcomeView::Answer(answer))),
        (Plan::Resolve { language_id, purpose }, AnswerView::Remap(remap)) => match ctx.spec_resolve_language(
            ctx.spec_table().spec_language(language_id),
            remap,
        ) {
            Ok(compiler) => StepView::Finish(Ok(deliver(compiler, purpose))),
            Err(e) => StepView::Finish(Err(e)),
        },
        (Plan::Names { flags }, AnswerView::Remaps(pairs)) => StepView::Finish(
            Ok(
                match flags {
                    None => OutcomeView::Remaps(ctx.spec_names(pairs)),
                    Some((auto, auto_save)) => OutcomeView::Setting(
                        OutputView { auto, auto_save, remap: ctx.spec_names(pairs) },
                    ),
                },
            ),
        ),
        (Plan::DumpAuto, AnswerView::Flag(auto)) => lift(
            start_read(guild_id, channel_id, Query::AutoSave),
            ctx,
            Plan::DumpAutoSave { auto },
        ),
        (Plan::DumpAutoSave { auto }, AnswerView::Flag(auto_save)) => lift(
            start_read(guild_id, channel_id, Query::RemapAll),
            ctx,
            Plan::Names { flags: Some((auto, auto_save)) },
        ),
        (Plan::ImplicitAuto { code, stdin }, AnswerView::Flag(auto)) => if auto {
            lift(
                start_read(guild_id, channel_id, Query::AutoSave),
                ctx,
                Plan::ImplicitAutoSave { code, stdin },
            )
        } else {
            StepView::Finish(Ok(OutcomeView::NoRun))
        },
        (Plan::ImplicitAutoSave { code, stdin }, AnswerView::Flag(save)) => begin_run(
            ctx,
            None,
            code,
            None,
            stdin,
            save,
        ),
        _ => StepView::Finish(Err(ErrorView::Database("unexpected reply"@))),
    }
}

impl ActionView {
    /// The step that follows `reply`.
    pub open spec fn resume(self, reply: ReplyView) -> StepView<ActionView, Ended> {
        match self.inner.resume(reply) {
            StepView::Perform(inner, command) => StepView::Perform(
                ActionView { ctx: self.ctx, inner, plan: self.plan },
                command,
            ),
            StepView::Finish(Ok(answer)) => proceed(self.ctx, self.plan, answer),
            StepView::Finish(Err(e)) => StepView::Finish(Err(e)),
        }
    }

    /// Whether the ids that `reply` brings from the backend, where the action
    /// will look them up, are ids of the catalog.
    pub open spec fn accepts(self, reply: ReplyView) -> bool {
        match (self.plan, reply) {
            (Plan::Resolve { .. }, ReplyView::HashValue(Some(c))) => has_compiler(
                self.ctx.spec_table().spec_compilers(),
                CompilerID(c),
            ),
            (Plan::Names { .. }, ReplyView::HashEntries(entries)) => pairs_in_catalog(
                self.ctx.spec_table(),
                remap_pairs(entries),
            ),
            _ => true,
        }
    }
}

/// Two spellings of the name of a language that differ only in the case of
/// ASCII letters resolve alike: to the same language, by the same steps, and,
/// where the settings map the language to no compiler, to the language's
/// default compiler.
pub proof fn lemma_spec_ignores_case(ctx: Context, a: Seq<char>, b: Seq<char>, purpose: Purpose)
    requires
        catalog_consistent(ctx.spec_table().spec_languages(), ctx.spec_table().spec_compilers()),
        same_ignoring_case(a, b),
        ctx.spec_table().spec_find_language(a) is Some,
    ensures
        ctx.spec_table().spec_find_language(a) == ctx.spec_table().spec_find_language(b),
        begin_spec(ctx, a, purpose) == begin_spec(ctx, b, purpose),
        begin_name(ctx, a, purpose) == begin_name(ctx, b, purpose),
        ({
            let language = ctx.spec_table().spec_find_language(a)->Some_0;
            language.spec_default_compiler_id() matches Some(d) ==> proceed(
                ctx,
                Plan::Resolve { language_id: language.spec_id(), purpose: Purpose::Lookup },
                AnswerView::Remap(None),
            ) == StepView::<ActionView, Ended>::Finish(
                Ok(OutcomeView::Compiler(ctx.spec_table().spec_compiler(d))),
            )
        }),
{
    let table = ctx.spec_table();
    table.lemma_find_language_ignores_case(a, b);
    let i = choose|i: int| first_language_named(table.spec_languages(), a, i);
    table.lemma_language_by_id(i);
}

/// A text that no language answers to and that is the name of a compiler,
/// letter for letter, resolves to that compiler at once: the settings are
/// not asked, so no remap comes between.
pub proof fn lemma_compiler_name_resolves_directly(ctx: Context, spec: Seq<char>)
    requires
        ctx.spec_table().spec_find_language(spec) is None,
        ctx.spec_table().spec_find_compiler(spec) is Some,
    ensures
        begin_spec(ctx, spec, Purpose::Lookup) == StepView::<ActionView, Ended>::Finish(
            Ok(OutcomeView::Compiler(ctx.spec_table().spec_find_compiler(spec)->Some_0)),
        ),
        ctx.spec_table().spec_find_compiler(spec)->Some_0@.name == spec,
{
    ctx.spec_table().lemma_found_compiler(spec);
}

/// A compiler that was let stand for a language in a room comes back by
/// name: once the write has gone through, the list of the room's remaps
/// holds the pair, and names it by the language's name and the compiler's
/// name.
pub proof fn lemma_remap_comes_back_by_name(
    ctx: Context,
    store: Map<Seq<char>, Entry>,
    backend: spec_fn(Map<Seq<char>, Entry>, CommandView) -> ReplyView,
    language_name: Seq<char>,
    compiler_name: Seq<char>,
    fuel: nat,
)
    requires
        catalog_consistent(ctx.spec_table().spec_languages(), ctx.spec_table().spec_compilers()),
        works(backend),
        store.dom().finite(),
        fuel >= 3,
        ctx.spec_table().spec_find_language(language_name) is Some,
        ctx.spec_table().spec_find_compiler(compiler_name) is Some,
    ensures
        ({
            let language = ctx.spec_table().spec_find_language(language_name)->Some_0;
            let compiler = ctx.spec_table().spec_find_compiler(compiler_name)->Some_0;
            let written = run(
                start_write(
                    ctx.spec_guild_id(),
                    Scope::Channel(ctx.spec_channel_id()),
                    Datum::Remap(language.spec_id(), compiler@.id),
                ),
                store,
                backend,
                fuel,
            );
            written.result == Some(Ok::<AnswerView, ErrorView>(AnswerView::Written)) ==> (run(
                start_read(ctx.spec_guild_id(), ctx.spec_channel_id(), Query::RemapAll),
                written.store,
                backend,
                fuel,
            ).result matches Some(Ok(AnswerView::Remaps(pairs))) && pairs.contains(
                (language.spec_id(), compiler@.id),
            ) && ctx.spec_names(pairs).contains((language.spec_name(), compiler@.name)))
        }),
{
    let table = ctx.spec_table();
    let language = table.spec_find_language(language_name)->Some_0;
    let compiler = table.spec_find_compiler(compiler_name)->Some_0;
    let datum = Datum::Remap(language.spec_id(), compiler@.id);
    let i = choose|i: int| first_language_named(table.spec_languages(), language_name, i);
    let k = choose|k: int| first_compiler_named(table.spec_compilers(), compiler_name, k);
    table.lemma_language_by_id(i);
    table.lemma_compiler_by_id(k);
    lemma_room_write_then_read(
        store,
        backend,
        ctx.spec_guild_id(),
        ctx.spec_channel_id(),
        datum,
        Query::RemapAll,
        fuel,
    );
    let written = run(
        start_write(ctx.spec_guild_id(), Scope::Channel(ctx.spec_channel_id()), datum),
        store,
        backend,
        fuel,
    );
    if written.result == Some(Ok::<AnswerView, ErrorView>(AnswerView::Written)) {
        let finished = run(
            start_read(ctx.spec_guild_id(), ctx.spec_channel_id(), Query::RemapAll),
            written.store,
            backend,
            fuel,
        ).result->Some_0;
        let pairs = finished->Ok_0->Remaps_0;
        let at = choose|at: int|
            0 <= at < pairs.len() && pairs[at] == (language.spec_id(), compiler@.id);
        assert(ctx.spec_names(pairs)[at] == (language.spec_name(), compiler@.name));
    }
}

/// Whether every id in `pairs` is one of the catalog.
pub open spec fn pairs_in_catalog(table: Table, pairs: Seq<(LanguageID, CompilerID)>) -> bool {
    forall|i: int|
        0 <= i < pairs.len() ==> has_language(table.spec_languages(), (#[trigger] pairs[i]).0)
            && has_compiler(table.spec_compilers(), pairs[i].1)
}

impl Context {
    pub closed spec fn spec_table(&self) -> Table {
        self.table
    }

    pub closed spec fn spec_guild_id(&self) -> GuildID {
        self.guild_id
    }

    pub closed spec fn spec_channel_id(&self) -> ChannelID {
        self.channel_id
    }

    pub fn new(guild_id: GuildID, channel_id: ChannelID, table: Table) -> (r: Context)
        ensures
            r.spec_guild_id() == guild_id,
            r.spec_channel_id() == channel_id,
            r.spec_table() == table,
    {
        Context { table, guild_id, channel_id }
    }

    pub fn table(&self) -> (r: &Table)
        ensures
            *r == self.spec_table(),
    {
        &self.table
    }

    pub fn guild_id(&self) -> (r: GuildID)
        ensures
            r == self.spec_guild_id(),
    {
        self.guild_id
    }

    pub fn channel_id(&self) -> (r: ChannelID)
        ensures
            r == self.spec_channel_id(),
    {
        self.channel_id
    }

    /// The compiler for a language: the one that the settings map it to,
    /// else the catalog's default for it, else none.
    pub open spec fn spec_resolve_language(
        &self,
        language: Language,
        remap: Option<CompilerID>,
    ) -> Result<Compiler, ErrorView> {
        match remap {
            Some(id) => Ok(self.spec_table().spec_compiler(id)),
            None => match language.spec_default_compiler_id() {
                Some(id) => Ok(self.spec_table().spec_compiler(id)),
                None => Err(ErrorView::UnmappedLanguage(language.spec_name())),
            },
        }
    }

    /// Settles on the compiler for `language`, given what the settings map
    /// it to. The mapped compiler must be in the catalog; where there is
    /// none, the language's default must be.
    pub fn resolve_language(&self, language: &Language, remap: Option<CompilerID>) -> (r: Result<
        &Compiler,
        Error,
    >)
        requires
            remap matches Some(id) ==> has_compiler(self.spec_table().spec_compilers(), id),
            remap is None ==> default_in_catalog(*language, self.spec_table().spec_compilers()),
        ensures
            match r {
                Ok(c) => self.spec_resolve_language(*language, remap) == Ok::<Compiler, ErrorView>(
                    *c,
                ),
                Err(e) => self.spec_resolve_language(*language, remap) == Err::<
                    Compiler,
                    ErrorView,
                >(e@),
            },
    {
        match remap {
            Some(id) => Ok(self.table.get_compiler(id)),
            None => match language.default_compiler_id() {
                Some(id) => Ok(self.table.get_compiler(id)),
                None => Err(Error::UnmappedLanguage(language.name().clone())),
            },
        }
    }

    /// The names of the languages and compilers of `pairs`.
    pub open spec fn spec_names(&self, pairs: Seq<(LanguageID, CompilerID)>) -> Seq<
        (Seq<char>, Seq<char>),
    > {
        pairs.map_values(
            |p: (LanguageID, CompilerID)|
                (
                    self.spec_table().spec_language(p.0).spec_name(),
                    self.spec_table().spec_compiler(p.1)@.name,
                ),
        )
    }

    /// Names the languages and compilers of `pairs`, each of which must be
    /// in the catalog.
    pub fn names<'a>(&'a self, pairs: &Vec<(LanguageID, CompilerID)>) -> (r: Vec<
        (&'a LanguageName, &'a CompilerName),
    >)
        requires
            pairs_in_catalog(self.spec_table(), pairs@),
        ensures
            r@.map_values(|p: (&LanguageName, &CompilerName)| (p.0@, p.1@)) == self.spec_names(
                pairs@,
            ),
    {
        let mut names: Vec<(&'a LanguageName, &'a CompilerName)> = Vec::new();
        let mut i: usize = 0;
        while i < pairs.len()
            invariant
                0 <= i <= pairs.len(),
                names.len() == i,
                pairs_in_catalog(self.spec_table(), pairs@),
                forall|j: int|
                    0 <= j < i ==> (#[trigger] names[j]).0@ == self.spec_table().spec_language(
                        pairs[j].0,
                    ).spec_name() && names[j].1@ == self.spec_table().spec_compiler(
                        pairs[j].1,
                    )@.name,
            decreases pairs.len() - i,
        {
            let pair = pairs[i];
            let language = self.table.get_language(pair.0);
            let compiler = self.table.get_compiler(pair.1);
            names.push((language.name(), compiler.name()));
            i = i + 1;
        }
        assert(names@.map_values(|p: (&LanguageName, &CompilerName)| (p.0@, p.1@))
            =~= self.spec_names(pairs@));
        names
    }

    /// Wraps the first step of an operation on the settings into the first
    /// step of an action.
    pub(crate) fn start<'a>(&'a self, first: Step<Setting, Result<Answer, Error>>, plan: Plan) -> (r: Step<
        Action<'a>,
        Result<Outcome<'a>, Error>,
    >)
        requires
            plan matches Plan::Resolve { language_id, .. } ==> has_language(
                self.spec_table().spec_languages(),
                language_id,
            ),
        ensures
            action_step_view(r) == lift(step_view(first), *self, plan),
    {
        match first {
            Step::Perform(inner, command) => Step::Perform(
                Action { ctx: self, inner, plan },
                command,
            ),
            Step::Finish(Ok(_)) => Step::Finish(
                Err(Error::Database(String::from_str("unexpected reply"))),
            ),
            Step::Finish(Err(e)) => Step::Finish(Err(e)),
        }
    }
}

impl<'a> View for Action<'a> {
    type V = ActionView;

    closed spec fn view(&self) -> ActionView {
        ActionView { ctx: *self.ctx, inner: self.inner@, plan: self.plan }
    }
}

/// Joins texts into one, with `separator` between each two:
/// `itertools::Itertools::join` on the texts in their order.
#[verifier::external_body]
pub(crate) fn join(parts: &Vec<String>, separator: &str) -> (r: String)
    ensures
        r@ == joined(string_views(parts@), separator@),
{
    itertools::Itertools::join(&mut parts.iter(), separator)
}

/// Makes of the compiler that was settled on what the purpose asks for.
fn deliver_compiler<'a>(compiler: &'a Compiler, purpose: Purpose) -> (r: Outcome<'a>)
    ensures
        r@ == deliver(*compiler, purpose),
{
    match purpose {
        Purpose::Lookup => Outcome::Compiler(compiler),
        Purpose::Compile { code, stdin, options, save } => {
            let compiler_option_raw = match &options {
                Some(o) => Some(join(o.as_vec(), "\n")),
                None => None,
            };
            let request = Request {
                compiler: compiler.wandbox_name().clone(),
                code: code.text().clone(),
                codes: Vec::new(),
                options: None,
                stdin,
                compiler_option_raw,
                runtime_option_raw: None,
                save,
            };
            assert(request@.codes =~= Seq::empty());
            Outcome::Compile(request)
        },
    }
}

/// Copies names out of the catalog.
fn own_names(names: Vec<(&LanguageName, &CompilerName)>) -> (r: Vec<(LanguageName, CompilerName)>)
    ensures
        r@.map_values(|p: (LanguageName, CompilerName)| (p.0@, p.1@)) == names@.map_values(
            |p: (&LanguageName, &CompilerName)| (p.0@, p.1@),
        ),
{
    let mut owned: Vec<(LanguageName, CompilerName)> = Vec::new();
    let mut i: usize = 0;
    while i < names.len()
        invariant
            0 <= i <= names.len(),
            owned.len() == i,
            forall|j: int|
                0 <= j < i ==> (#[trigger] owned[j]).0@ == names[j].0@ && owned[j].1@
                    == names[j].1@,
        decreases names.len() - i,
    {
        owned.push((names[i].0.clone(), names[i].1.clone()));
        i = i + 1;
    }
    assert(owned@.map_values(|p: (LanguageName, CompilerName)| (p.0@, p.1@))
        =~= names@.map_values(|p: (&LanguageName, &CompilerName)| (p.0@, p.1@)));
    owned
}

impl Context {
    /// Begins to settle on the compiler for a language of the catalog.
    pub(crate) fn begin_language<'a>(&'a self, language: &Language, purpose: Purpose) -> (r: Step<
        Action<'a>,
        Result<Outcome<'a>, Error>,
    >)
        requires
            has_language(self.spec_table().spec_languages(), language.spec_id()),
        ensures
            action_step_view(r) == begin_language(*self, *language, purpose),
    {
        self.start(
            Setting::get_remap(self.guild_id, self.channel_id, language.id()),
            Plan::Resolve { language_id: language.id(), purpose },
        )
    }

    /// Begins to resolve a text that names a language or a compiler.
    pub(crate) fn begin_spec<'a>(&'a self, spec: &CompilerSpec, purpose: Purpose) -> (r: Step<
        Action<'a>,
        Result<Outcome<'a>, Error>,
    >)
        ensures
            action_step_view(r) == begin_spec(*self, spec@, purpose),
    {
        match self.table.find_language(&spec.as_language_name()) {
            Some(language) => self.begin_language(language, purpose),
            None => match self.table.find_compiler(&spec.as_compiler_name()) {
                Some(compiler) => Step::Finish(Ok(deliver_compiler(compiler, purpose))),
                None => Step::Finish(Err(Error::UnknownCompilerSpec(spec.clone()))),
            },
        }
    }

    /// Begins to resolve the name of a language.
    pub(crate) fn begin_name<'a>(&'a self, name: &LanguageName, purpose: Purpose) -> (r: Step<
        Action<'a>,
        Result<Outcome<'a>, Error>,
    >)
        ensures
            action_step_view(r) == begin_name(*self, name@, purpose),
    {
        match self.table.find_language(name) {
            Some(language) => self.begin_language(language, purpose),
            None => Step::Finish(Err(Error::UnknownLanguageName(name.clone()))),
        }
    }

    /// Begins a run.
    pub(crate) fn begin_run<'a>(
        &'a self,
        compiler_spec: Option<CompilerSpec>,
        code: Code,
        options: Option<CompilerOptions>,
        stdin: Option<String>,
        save: bool,
    ) -> (r: Step<Action<'a>, Result<Outcome<'a>, Error>>)
        ensures
            action_step_view(r) == begin_run(*self, compiler_spec, code, options, stdin, save),
    {
        match compiler_spec {
            Some(spec) => {
                let purpose = Purpose::Compile { code, stdin, options, save };
                self.begin_spec(&spec, purpose)
            },
            None => {
                let name = match code.language() {
                    Some(name) => Some(name.clone()),
                    None => None,
                };
                match name {
                    Some(name) => {
                        let purpose = Purpose::Compile { code, stdin, options, save };
                        self.begin_name(&name, purpose)
                    },
                    None => Step::Finish(Err(Error::NoCompilerSpecified)),
                }
            },
        }
    }

    /// Resolves what a user wrote to say which compiler to use. The action
    /// ends in `Outcome::Compiler`.
    pub fn resolve_compiler_spec<'a>(&'a self, spec: &CompilerSpec) -> (r: Step<
        Action<'a>,
        Result<Outcome<'a>, Error>,
    >)
        ensures
            action_step_view(r) == begin_spec(*self, spec@, Purpose::Lookup),
    {
        self.begin_spec(spec, Purpose::Lookup)
    }

    /// Resolves the name of a language to the compiler that runs it here.
    /// The action ends in `Outcome::Compiler`.
    pub fn resolve_language_name<'a>(&'a self, language_name: &LanguageName) -> (r: Step<
        Action<'a>,
        Result<Outcome<'a>, Error>,
    >)
        ensures
            action_step_view(r) == begin_name(*self, language_name@, Purpose::Lookup),
    {
        self.begin_name(language_name, Purpose::Lookup)
    }

    /// Reads whether code posted without a command is run in this room. The
    /// action ends in `Outcome::Answer` with a flag.
    pub fn is_auto<'a>(&'a self) -> (r: Step<Action<'a>, Result<Outcome<'a>, Error>>)
        ensures
            action_step_view(r) == lift(
                start_read(self.spec_guild_id(), self.spec_channel_id(), Query::Auto),
                *self,
                Plan::Answer,
            ),
    {
        self.start(Setting::get_auto(self.guild_id, self.channel_id), Plan::Answer)
    }

    /// Reads whether such runs are saved in this room. The action ends in
    /// `Outcome::Answer` with a flag.
    pub fn is_auto_save<'a>(&'a self) -> (r: Step<Action<'a>, Result<Outcome<'a>, Error>>)
        ensures
            action_step_view(r) == lift(
                start_read(self.spec_guild_id(), self.spec_channel_id(), Query::AutoSave),
                *self,
                Plan::Answer,
            ),
    {
        self.start(Setting::get_auto_save(self.guild_id, self.channel_id), Plan::Answer)
    }

    /// Reads every remapped language of this room with its compiler, by
    /// name. The action ends in `Outcome::Remaps`.
    pub fn all_remap<'a>(&'a self) -> (r: Step<Action<'a>, Result<Outcome<'a>, Error>>)
        ensures
            action_step_view(r) == lift(
                start_read(self.spec_guild_id(), self.spec_channel_id(), Query::RemapAll),
                *self,
                Plan::Names { flags: None },
            ),
    {
        self.start(
            Setting::get_remap_all(self.guild_id, self.channel_id),
            Plan::Names { flags: None },
        )
    }
}

/// Whether every id in a list of raw pairs is one of the catalog.
fn entries_in_catalog(table: &Table, entries: &Vec<(u64, u64)>) -> (r: bool)
    ensures
        r == pairs_in_catalog(*table, remap_pairs(entries@)),
{
    let mut i: usize = 0;
    while i < entries.len()
        invariant
            0 <= i <= entries.len(),
            forall|j: int|
                0 <= j < i ==> has_language(
                    table.spec_languages(),
                    (#[trigger] remap_pairs(entries@)[j]).0,
                ) && has_compiler(table.spec_compilers(), remap_pairs(entries@)[j].1),
        decreases entries.len() - i,
    {
        let entry = entries[i];
        if !table.contains_language(LanguageID::from_u64(entry.0)) || !table.contains_compiler(
            CompilerID::from_u64(entry.1),
        ) {
            assert(remap_pairs(entries@)[i as int] == (LanguageID(entry.0), CompilerID(entry.1)));
            return false;
        }
        assert(remap_pairs(entries@)[i as int] == (LanguageID(entry.0), CompilerID(entry.1)));
        i = i + 1;
    }
    true
}

impl<'a> Action<'a> {
    #[verifier::type_invariant]
    spec fn inv(self) -> bool {
        self.plan matches Plan::Resolve { language_id, .. } ==> has_language(
            self.ctx.spec_table().spec_languages(),
            language_id,
        )
    }

    /// Whether `resume` takes `reply`: whether the ids it brings from the
    /// backend, where the action will look them up, are ids of the catalog.
    pub fn accepts(&self, reply: &Reply) -> (r: bool)
        ensures
            r == self@.accepts(reply@),
    {
        match &self.plan {
            Plan::Resolve { .. } => match reply {
                Reply::HashValue(Some(c)) => self.ctx.table.contains_compiler(
                    CompilerID::from_u64(*c),
                ),
                _ => true,
            },
            Plan::Names { .. } => match reply {
                Reply::HashEntries(entries) => entries_in_catalog(&self.ctx.table, entries),
                _ => true,
            },
            _ => true,
        }
    }

    /// Takes the backend's reply to the command last named. The ids that the
    /// reply brings must be ids of the catalog, as `accepts` tests.
    pub fn resume(self, reply: Reply) -> (r: Step<Action<'a>, Result<Outcome<'a>, Error>>)
        requires
            self@.accepts(reply@),
        ensures
            action_step_view(r) == self@.resume(reply@),
    {
        proof {
            use_type_invariant(&self);
        }
        let Action { ctx, inner, plan } = self;
        match inner.resume(reply) {
            Step::Perform(inner, command) => Step::Perform(Action { ctx, inner, plan }, command),
            Step::Finish(Err(e)) => Step::Finish(Err(e)),
            Step::Finish(Ok(answer)) => Action::proceed(ctx, plan, answer),
        }
    }

    fn proceed(ctx: &'a Context, plan: Plan, answer: Answer) -> (r: Step<
        Action<'a>,
        Result<Outcome<'a>, Error>,
    >)
        requires
            plan matches Plan::Resolve { language_id, .. } ==> has_language(
                ctx.spec_table().spec_languages(),
                language_id,
            ),
            plan is Resolve ==> (answer@ matches AnswerView::Remap(Some(c)) ==> has_compiler(
                ctx.spec_table().spec_compilers(),
                c,
            )),
            plan is Names ==> (answer@ matches AnswerView::Remaps(pairs) ==> pairs_in_catalog(
                ctx.spec_table(),
                pairs,
            )),
        ensures
            action_step_view(r) == proceed(*ctx, plan, answer@),
    {
        match plan {
            Plan::Answer => Step::Finish(Ok(Outcome::Answer(answer))),
            Plan::Resolve { language_id, purpose } => match answer {
                Answer::Remap(remap) => {
                    let language = ctx.table.get_language(language_id);
                    match ctx.resolve_language(language, remap) {
                        Ok(compiler) => Step::Finish(Ok(deliver_compiler(compiler, purpose))),
                        Err(e) => Step::Finish(Err(e)),
                    }
                },
                _ => Step::Finish(Err(Error::Database(String::from_str("unexpected reply")))),
            },
            Plan::Names { flags } => match answer {
                Answer::Remaps(pairs) => {
                    let names = ctx.names(&pairs);
                    match flags {
                        None => Step::Finish(Ok(Outcome::Remaps(names))),
                        Some((auto, auto_save)) => Step::Finish(
                            Ok(Outcome::Setting(Output { auto, auto_save, remap: own_names(names) })),
                        ),
                    }
                },
                _ => Step::Finish(Err(Error::Database(String::from_str("unexpected reply")))),
            },
            Plan::DumpAuto => match answer {
                Answer::Flag(auto) => ctx.start(
                    Setting::get_auto_save(ctx.guild_id, ctx.channel_id),
                    Plan::DumpAutoSave { auto },
                ),
                _ => Step::Finish(Err(Error::Database(String::from_str("unexpected reply")))),
            },
            Plan::DumpAutoSave { auto } => match answer {
                Answer::Flag(auto_save) => ctx.start(
                    Setting::get_remap_all(ctx.guild_id, ctx.channel_id),
                    Plan::Names { flags: Some((auto, auto_save)) },
                ),
                _ => Step::Finish(Err(Error::Database(String::from_str("unexpected reply")))),
            },
            Plan::ImplicitAuto { code, stdin } => match answer {
                Answer::Flag(auto) => {
                    if auto {
                        ctx.start(
                            Setting::get_auto_save(ctx.guild_id, ctx.channel_id),
                            Plan::ImplicitAutoSave { code, stdin },
                        )
                    } else {
                        Step::Finish(Ok(Outcome::NoRun))
                    }
                },
                _ => Step::Finish(Err(Error::Database(String::from_str("unexpected reply")))),
            },
            Plan::ImplicitAutoSave { code, stdin } => match answer {
                Answer::Flag(save) => ctx.begin_run(None, code, None, stdin, save),
                _ => Step::Finish(Err(Error::Database(String::from_str("unexpected reply")))),
            },
        }
    }
}

} // verus!
