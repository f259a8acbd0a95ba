//! Template catalogs: LaTeX skeletons by operator key.

use vstd::prelude::*;
use crate::kind::FormulKind;
use crate::text::same_text;

verus! {

/// One template: the forward skeleton, an optional derivative skeleton and
/// an optional display symbol of its own.
#[derive(Clone, Debug, PartialEq, Eq)]
pub struct FormulNode {
    pub inputs: usize,
    pub formul: String,
    pub declaration: Vec<(String, String)>,
    pub diff: Option<String>,
    pub symbol: Option<String>,
}

impl Default for FormulNode {
    fn default() -> (r: Self)
        ensures
            r.inputs == 0,
            r.formul@ == Seq::<char>::empty(),
            r.declaration@.len() == 0,
            r.diff is None,
            r.symbol is None,
    {
        FormulNode {
            symbol: None,
            inputs: 0,
            formul: String::new(),
            declaration: Vec::new(),
            diff: None,
        }
    }
}

/// A catalog: a default display symbol, the kind of its operators, and the
/// templates by operator key. Of two entries with one key the first counts.
#[derive(Clone, Debug, PartialEq, Eq)]
pub struct Formul {
    pub symbol: String,
    pub n_type: FormulKind,
    pub entries: Vec<(String, FormulNode)>,
}

impl Default for Formul {
    fn default() -> (r: Self)
        ensures
            r.symbol@ == Seq::<char>::empty(),
            r.n_type == FormulKind::Not,
            r.entries@.len() == 0,
    {
        Formul { symbol: String::new(), n_type: FormulKind::Not, entries: Vec::new() }
    }
}

/// Why a catalog lookup failed.
#[derive(Clone, Copy, PartialEq, Eq, Structural, Debug)]
pub enum CatalogError {
    NotFound,
}

impl CatalogError {
    /// What went wrong, in words.
    pub fn message(&self) -> (r: String)
        ensures
            r@ == "not found"@,
    {
        String::from_str("not found")
    }
}

/// The position of the first entry under `key`; the number of entries where
/// there is none.
pub open spec fn first_entry(entries: Seq<(String, FormulNode)>, key: Seq<char>) -> int
    decreases entries.len(),
{
    if entries.len() == 0 {
        0
    } else if entries[0].0@ == key {
        0
    } else {
        1 + first_entry(entries.drop_first(), key)
    }
}

pub proof fn lemma_first_entry(entries: Seq<(String, FormulNode)>, key: Seq<char>, i: int)
    requires
        0 <= i <= entries.len(),
        forall|j: int| 0 <= j < i ==> entries[j].0@ != key,
        i < entries.len() ==> entries[i].0@ == key,
    ensures
        first_entry(entries, key) == i,
    decreases entries.len(),
{
    if entries.len() > 0 && i > 0 {
        let rest = entries.drop_first();
        assert forall|j: int| 0 <= j < i - 1 implies rest[j].0@ != key by {
            assert(rest[j] == entries[j + 1]);
        }
        lemma_first_entry(rest, key, i - 1);
    }
}

impl Formul {
    /// Whether the catalog holds a template under `key`.
    pub open spec fn holds(&self, key: Seq<char>) -> bool {
        first_entry(self.entries@, key) < self.entries@.len()
    }

    /// The template under `key`.
    pub open spec fn entry(&self, key: Seq<char>) -> FormulNode {
        self.entries@[first_entry(self.entries@, key)].1
    }

    /// The display symbol for `key`: the template's own, else the catalog's.
    pub open spec fn display_symbol(&self, key: Seq<char>) -> String {
        match self.entry(key).symbol {
            Some(s) => s,
            None => self.symbol,
        }
    }

    /// Looks a template up: its display symbol, the catalog's kind and the
    /// template itself.
    pub fn gen_symbol(&self, target: &str) -> (r: Result<
        (&String, FormulKind, &FormulNode),
        CatalogError,
    >)
        ensures
            r is Ok <==> self.holds(target@),
            r is Err ==> r == Err::<(&String, FormulKind, &FormulNode), CatalogError>(
                CatalogError::NotFound,
            ),
            r is Ok ==> *r->Ok_0.0 == self.display_symbol(target@) && r->Ok_0.1 == self.n_type
                && *r->Ok_0.2 == self.entry(target@),
    {
        let mut i: usize = 0;
        while i < self.entries.len()
            invariant
                i <= self.entries@.len(),
                forall|j: int| 0 <= j < i ==> self.entries@[j].0@ != target@,
            decreases self.entries.len() - i,
        {
            if same_text(self.entries[i].0.as_str(), target) {
                proof {
                    lemma_first_entry(self.entries@, target@, i as int);
                }
                let node = &self.entries[i].1;
                let symbol = match &node.symbol {
                    Some(y) => y,
                    None => &self.symbol,
                };
                return Ok((symbol, self.n_type, node));
            }
            i += 1;
        }
        proof {
            lemma_first_entry(self.entries@, target@, i as int);
        }
        Err(CatalogError::NotFound)
    }
}

} // verus!
