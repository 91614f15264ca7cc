use vstd::prelude::*;

verus! {

/// The options handed to a compiler, in the order they were given.
#[derive(Debug)]
pub struct CompilerOptions(Vec<String>);

/// The texts that a list of strings spells.
pub open spec fn string_views(strings: Seq<String>) -> Seq<Seq<char>> {
    strings.map_values(|s: String| s@)
}

/// The same items, the last one first.
pub(crate) fn reverse<T>(items: Vec<T>) -> (r: Vec<T>)
    ensures
        r.len() == items.len(),
        forall|j: int| 0 <= j < r.len() ==> r[j] == items[items.len() - 1 - j],
{
    let mut rest = items;
    let mut reversed: Vec<T> = Vec::new();
    while rest.len() > 0
        invariant
            rest.len() + reversed.len() == items.len(),
            forall|j: int| 0 <= j < rest.len() ==> rest[j] == items[j],
            forall|j: int| 0 <= j < reversed.len() ==> reversed[j] == items[items.len() - 1 - j],
        decreases rest.len(),
    {
        let last = rest.pop().unwrap();
        reversed.push(last);
    }
    reversed
}

impl View for CompilerOptions {
    type V = Seq<Seq<char>>;

    closed spec fn view(&self) -> Seq<Seq<char>> {
        string_views(self.0@)
    }
}

impl CompilerOptions {
    /// No options at all.
    pub fn new() -> (r: CompilerOptions)
        ensures
            r@ == Seq::<Seq<char>>::empty(),
    {
        let options = CompilerOptions(Vec::new());
        assert(options@ =~= Seq::<Seq<char>>::empty());
        options
    }

    /// The options that a list holds, in its order.
    pub fn from_vec(options: Vec<String>) -> (r: CompilerOptions)
        ensures
            r@ == string_views(options@),
    {
        CompilerOptions(options)
    }

    /// The options as a list, one by one.
    pub fn as_vec(&self) -> (r: &Vec<String>)
        ensures
            string_views(r@) == self@,
    {
        &self.0
    }

    /// Gives up the options as a list.
    pub fn into_vec(self) -> (r: Vec<String>)
        ensures
            string_views(r@) == self@,
    {
        self.0
    }
}

impl Default for CompilerOptions {
    fn default() -> (r: CompilerOptions)
        ensures
            r@ == Seq::<Seq<char>>::empty(),
    {
        CompilerOptions::new()
    }
}

} // verus!
