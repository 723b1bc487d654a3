//! Resolving a model name to its pricing entry.
//!
//! The prices themselves are floating-point dollars per million tokens and
//! stay with the caller, in the same order as the catalog's entries.
use vstd::prelude::*;

use crate::text::string_views;
use vstd::string::StringExecFns;

verus! {

/// The names a pricing entry answers to.
pub struct ModelIds {
    pub id: String,
    pub aliases: Vec<String>,
}

/// The names of the pricing entries, in the order of the pricing file.
pub struct ModelCatalog {
    pub models: Vec<ModelIds>,
}

/// An entry with id `id` and aliases `aliases` answers to `model`.
pub open spec fn answers_to(id: Seq<char>, aliases: Seq<Seq<char>>, model: Seq<char>) -> bool {
    id == model || aliases.contains(model)
}

impl ModelCatalog {
    /// Entry `i` answers to `model`.
    pub open spec fn entry_matches(&self, i: int, model: Seq<char>) -> bool {
        answers_to(self.models@[i].id@, string_views(self.models@[i].aliases@), model)
    }

    /// The entry that prices `model`: the first whose id or one of whose
    /// aliases is `model`; nothing when none is (the defaults apply).
    pub fn lookup(&self, model: &str) -> (r: Option<usize>)
        ensures
            match r {
                Some(i) => i < self.models@.len() && self.entry_matches(i as int, model@) && forall|
                    j: int,
                | 0 <= j < i ==> !self.entry_matches(j, model@),
                None => forall|j: int|
                    0 <= j < self.models@.len() ==> !self.entry_matches(j, model@),
            },
    {
        let name = String::from_str(model);
        let mut i: usize = 0;
        while i < self.models.len()
            invariant
                i <= self.models@.len(),
                name@ == model@,
                forall|j: int| 0 <= j < i ==> !self.entry_matches(j, model@),
            decreases self.models.len() - i,
        {
            let m = &self.models[i];
            if m.id == name {
                return Some(i);
            }
            let mut k: usize = 0;
            while k < m.aliases.len()
                invariant
                    k <= m.aliases@.len(),
                    i < self.models@.len(),
                    *m == self.models@[i as int],
                    forall|j: int| 0 <= j < i ==> !self.entry_matches(j, model@),
                    name@ == model@,
                    forall|j: int| 0 <= j < k ==> m.aliases@[j]@ != model@,
                decreases m.aliases.len() - k,
            {
                if m.aliases[k] == name {
                    assert(string_views(self.models@[i as int].aliases@)[k as int] == model@);
                    assert(string_views(self.models@[i as int].aliases@).contains(model@));
                    return Some(i);
                }
                k = k + 1;
            }
            assert(!string_views(m.aliases@).contains(model@));
            i = i + 1;
        }
        None
    }

    /// The canonical id of the entry that prices `model`, or `default`.
    pub fn resolved_id(&self, model: &str) -> (r: String)
        ensures
            forall|i: int|
                0 <= i < self.models@.len() && self.entry_matches(i, model@) && (forall|j: int|
                    0 <= j < i ==> !self.entry_matches(j, model@)) ==> r@ == self.models@[i].id@,
            (forall|j: int| 0 <= j < self.models@.len() ==> !self.entry_matches(j, model@)) ==> r@
                == "default"@,
    {
        match self.lookup(model) {
            Some(i) => {
                proof {
                    assert forall|k: int|
                        0 <= k < self.models@.len() && self.entry_matches(k, model@) && (forall|
                            j: int,
                        | 0 <= j < k ==> !self.entry_matches(j, model@)) implies k == i by {
                        if k < i {
                        } else if i < k {
                            assert(!self.entry_matches(i as int, model@));
                        }
                    }
                }
                self.models[i].id.clone()
            },
            None => String::from_str("default"),
        }
    }
}

} // verus!
