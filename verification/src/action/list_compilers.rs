use crate::context::Context;
use crate::error::{Error, ErrorView};
use crate::model::compiler::Compiler;
use crate::model::language::LanguageName;
use crate::table::{belongs_to, compiler_views};
use vstd::prelude::*;

verus! {

/// The compilers of the language that answers to `language_name`, in the
/// catalog's order.
pub fn list_compilers(ctx: &Context, language_name: LanguageName) -> (r: Result<
    Vec<Compiler>,
    Error,
>)
    ensures
        match ctx.spec_table().spec_find_language(language_name@) {
            Some(language) => r matches Ok(compilers) && compiler_views(compilers@)
                == compiler_views(
                ctx.spec_table().spec_compilers().filter(belongs_to(language.spec_id())),
            ),
            None => r matches Err(e) && e@ == ErrorView::UnknownLanguageName(language_name@),
        },
{
    let language = match ctx.table().find_language(&language_name) {
        Some(l) => l,
        None => {
            return Err(Error::UnknownLanguageName(language_name));
        },
    };
    let found = ctx.table().list_compilers_with_language_id(language.id());
    let mut copies: Vec<Compiler> = Vec::new();
    let mut i: usize = 0;
    while i < found.len()
        invariant
            0 <= i <= found.len(),
            copies.len() == i,
            forall|j: int| 0 <= j < i ==> (#[trigger] copies[j])@ == found[j]@,
        decreases found.len() - i,
    {
        copies.push(found[i].clone());
        i = i + 1;
    }
    assert(compiler_views(copies@) =~= compiler_views(found@.map_values(|c: &Compiler| *c)));
    Ok(copies)
}

} // verus!
