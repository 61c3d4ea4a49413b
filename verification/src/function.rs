//! Rich representation of one function definition: visibility, return
//! type, name, typed arguments, and the raw lines of its body.

use vstd::prelude::*;

verus! {

/// A function definition. Apart from `is_public`, which a later visibility
/// pass may flip, every field is fixed at construction; body lines are only
/// ever appended, never reordered or removed.
pub struct Function {
    pub is_global: bool,
    pub is_public: bool,
    pub return_type: String,
    pub name: String,
    /// Each argument is a `(type name, argument name)` pair, in source order.
    pub arguments: Vec<(String, String)>,
    /// The raw source lines of the body, in the order they were added.
    pub body: Vec<String>,
}

impl Function {
    /// Creates a definition with the given header data, not public, and
    /// with an empty body.
    pub fn new(
        is_global: bool,
        return_type: &str,
        name: &str,
        arguments: Vec<(String, String)>,
    ) -> (r: Function)
        ensures
            r.is_global == is_global,
            !r.is_public,
            r.return_type@ == return_type@,
            r.name@ == name@,
            r.arguments == arguments,
            r.body@.len() == 0,
    {
        Function {
            is_global,
            is_public: false,
            return_type: return_type.to_owned(),
            name: name.to_owned(),
            arguments,
            body: Vec::new(),
        }
    }

    /// Appends one raw source line to the body; nothing else changes.
    pub fn add_line_to_body(&mut self, line: &str)
        ensures
            final(self).body.deep_view() == old(self).body.deep_view().push(line@),
            final(self).is_global == old(self).is_global,
            final(self).is_public == old(self).is_public,
            final(self).return_type == old(self).return_type,
            final(self).name == old(self).name,
            final(self).arguments == old(self).arguments,
    {
        self.body.push(line.to_owned());
        proof {
            assert(self.body.deep_view() =~= old(self).body.deep_view().push(line@));
        }
    }
}

} // verus!
