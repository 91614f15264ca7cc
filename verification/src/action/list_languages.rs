use crate::context::Context;
use crate::model::language::Language;
use crate::table::language_views;
use vstd::prelude::*;

verus! {

/// Every language of the catalog, in the catalog's order.
pub fn list_languages(ctx: &Context) -> (r: Vec<Language>)
    ensures
        language_views(r@) == language_views(ctx.spec_table().spec_languages()),
{
    let languages = ctx.table().list_languages();
    let mut copies: Vec<Language> = Vec::new();
    let mut i: usize = 0;
    while i < languages.len()
        invariant
            0 <= i <= languages.len(),
            copies.len() == i,
            forall|j: int| 0 <= j < i ==> (#[trigger] copies[j])@ == languages[j]@,
        decreases languages.len() - i,
    {
        copies.push(languages[i].clone());
        i = i + 1;
    }
    assert(language_views(copies@) =~= language_views(languages@));
    copies
}

} // verus!
