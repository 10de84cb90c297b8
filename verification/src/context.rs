//! What the host makes known to scripts under an alias: for each alias a
//! set of modules by name, each with what creates it.

use vstd::prelude::*;
use crate::text::same_text;

verus! {

/// The modules that scripts find under one alias. `C` is what creates a
/// module. Of two children with one name the later one counts.
pub struct LuneModule<C> {
    pub children: Vec<(String, C)>,
    pub alias: String,
}

/// The place of the last child with a name among the first `upto`.
pub open spec fn last_named<C>(children: Seq<(String, C)>, name: Seq<char>, upto: int) -> Option<int>
    decreases upto,
{
    if upto <= 0 || upto > children.len() {
        None
    } else if children[upto - 1].0@ == name {
        Some(upto - 1)
    } else {
        last_named(children, name, upto - 1)
    }
}

/// The place of the first module with an alias, from place `from` on.
pub open spec fn first_aliased<C>(modules: Seq<LuneModule<C>>, alias: Seq<char>, from: int) -> Option<int>
    decreases modules.len() - from,
{
    if from < 0 || from >= modules.len() {
        None
    } else if modules[from].alias@ == alias {
        Some(from)
    } else {
        first_aliased(modules, alias, from + 1)
    }
}

impl<C> LuneModule<C> {
    /// The modules of an alias, none so far.
    pub fn new(alias: String) -> (module: Self)
        ensures
            module.alias == alias,
            module.children@.len() == 0,
    {
        LuneModule { children: Vec::new(), alias }
    }

    /// Makes a module known under a name, in place of any that was known
    /// under it.
    pub fn insert(&mut self, name: String, creator: C)
        ensures
            final(self).alias == old(self).alias,
            final(self).children@ == old(self).children@.push((name, creator)),
    {
        self.children.push((name, creator));
    }

    /// What creates the module with a name, if one is known under it.
    pub fn get(&self, name: &str) -> (res: Option<&C>)
        ensures
            match last_named(self.children@, name@, self.children@.len() as int) {
                Some(i) => res == Some(&self.children@[i].1),
                None => res is None,
            },
    {
        let mut i: usize = self.children.len();
        while i > 0
            invariant
                i <= self.children@.len(),
                last_named(self.children@, name@, i as int) == last_named(
                    self.children@,
                    name@,
                    self.children@.len() as int,
                ),
            decreases i,
        {
            if same_text(self.children[i - 1].0.as_str(), name) {
                return Some(&self.children[i - 1].1);
            }
            i -= 1;
        }
        None
    }
}

/// Everything that the host makes known to scripts, alias by alias.
pub struct GlobalsContext<C> {
    modules: Vec<LuneModule<C>>,
}

/// Collects what the host makes known to scripts.
pub struct GlobalsContextBuilder<C> {
    modules: Vec<LuneModule<C>>,
}

impl<C> GlobalsContext<C> {
    /// The aliases with their modules, in the order in which they were added.
    pub closed spec fn modules(&self) -> Seq<LuneModule<C>> {
        self.modules@
    }

    /// The modules under an alias: those of the first one added under it.
    pub fn get_alias(&self, s: &str) -> (res: Option<&LuneModule<C>>)
        ensures
            match first_aliased(self.modules(), s@, 0) {
                Some(i) => res == Some(&self.modules()[i]),
                None => res is None,
            },
    {
        let mut i: usize = 0;
        while i < self.modules.len()
            invariant
                i <= self.modules@.len(),
                first_aliased(self.modules@, s@, i as int) == first_aliased(self.modules@, s@, 0),
            decreases self.modules@.len() - i,
        {
            if same_text(self.modules[i].alias.as_str(), s) {
                return Some(&self.modules[i]);
            }
            i += 1;
        }
        None
    }
}

impl<C> GlobalsContextBuilder<C> {
    /// The aliases collected so far, in the order in which they were added.
    pub closed spec fn modules(&self) -> Seq<LuneModule<C>> {
        self.modules@
    }

    /// A builder that has collected nothing.
    pub fn new() -> (builder: Self)
        ensures
            builder.modules().len() == 0,
    {
        GlobalsContextBuilder { modules: Vec::new() }
    }

    /// Adds an alias with the modules that its handler filled in. If the
    /// handler failed, nothing is added and its error is handed on.
    pub fn with_alias<E>(&mut self, name: String, filled: Result<Vec<(String, C)>, E>) -> (res:
        Result<(), E>)
        ensures
            match filled {
                Ok(children) => res is Ok && final(self).modules() == old(self).modules().push(
                    LuneModule { children, alias: name },
                ),
                Err(e) => res == Err::<(), E>(e) && final(self).modules() == old(self).modules(),
            },
    {
        match filled {
            Ok(children) => {
                self.modules.push(LuneModule { children, alias: name });
                Ok(())
            },
            Err(e) => Err(e),
        }
    }

    /// What was collected.
    pub fn build(self) -> (context: GlobalsContext<C>)
        ensures
            context.modules() == self.modules(),
    {
        GlobalsContext { modules: self.modules }
    }
}

/// Adds the host's own libraries under the alias `lune`: those that this
/// build of the host holds, each with what creates it.
pub fn inject_lune_standard_libraries<C>(
    context_builder: &mut GlobalsContextBuilder<C>,
    available: Vec<(String, C)>,
)
    ensures
        final(context_builder).modules().len() == old(context_builder).modules().len() + 1,
        final(context_builder).modules().drop_last() == old(context_builder).modules(),
        final(context_builder).modules().last().alias@ == "lune"@,
        final(context_builder).modules().last().children == available,
{
    let filled: Result<Vec<(String, C)>, ()> = Ok(available);
    let added = context_builder.with_alias("lune".to_owned(), filled);
    assert(context_builder.modules().drop_last() =~= old(context_builder).modules());
}

} // verus!
