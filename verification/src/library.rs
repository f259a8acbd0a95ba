//! The symbol library: three catalogs searched in a fixed order.

use vstd::prelude::*;
use crate::kind::FormulKind;
use crate::node_info::{Formul, FormulNode};
use crate::skeleton::{parse_skeleton, symbol_split, Skeleton, SkeletonView};

verus! {

/// The functional, auxiliary and activation catalogs.
#[derive(Clone, Debug, PartialEq, Eq)]
pub struct SymbolLibrary {
    pub func: Formul,
    pub etc: Formul,
    pub activation: Formul,
}

impl Default for SymbolLibrary {
    fn default() -> (r: Self)
        ensures
            forall|key: Seq<char>| !r.holds(key),
    {
        SymbolLibrary {
            func: Formul::default(),
            etc: Formul::default(),
            activation: Formul::default(),
        }
    }
}

impl SymbolLibrary {
    /// The first catalog, in the order functional, auxiliary, activation,
    /// that holds `key`.
    pub open spec fn catalog(&self, key: Seq<char>) -> Formul {
        if self.func.holds(key) {
            self.func
        } else if self.etc.holds(key) {
            self.etc
        } else {
            self.activation
        }
    }

    /// Whether any catalog holds a template under `key`.
    pub open spec fn holds(&self, key: Seq<char>) -> bool {
        self.func.holds(key) || self.etc.holds(key) || self.activation.holds(key)
    }

    /// The template under `key`.
    pub open spec fn entry(&self, key: Seq<char>) -> FormulNode {
        self.catalog(key).entry(key)
    }

    /// The display symbol under `key`.
    pub open spec fn display_symbol(&self, key: Seq<char>) -> String {
        self.catalog(key).display_symbol(key)
    }

    /// The kind of the catalog that holds `key`.
    pub open spec fn kind(&self, key: Seq<char>) -> FormulKind {
        self.catalog(key).n_type
    }

    /// The skeleton of the forward template under `key`.
    pub open spec fn formula(&self, key: Seq<char>) -> SkeletonView {
        parse_skeleton(self.entry(key).formul@)
    }

    /// The parsed forward template under `target`, if the catalogs hold
    /// one.
    pub fn skeleton(&self, target: &str) -> (r: Option<Skeleton>)
        ensures
            r is Some <==> self.holds(target@),
            r is Some ==> r->0@ == self.formula(target@),
    {
        match self.get_symbol(target) {
            Some(hit) => Some(symbol_split(hit.2.formul.as_str())),
            None => None,
        }
    }

    /// Looks `target` up in the catalogs; the first hit wins.
    pub fn get_symbol(&self, target: &str) -> (r: Option<(&String, FormulKind, &FormulNode)>)
        ensures
            r is Some <==> self.holds(target@),
            match r {
                Some(hit) => *hit.0 == self.display_symbol(target@) && hit.1 == self.kind(target@)
                    && *hit.2 == self.entry(target@),
                None => true,
            },
    {
        match self.func.gen_symbol(target) {
            Ok(hit) => Some(hit),
            Err(_) => match self.etc.gen_symbol(target) {
                Ok(hit) => Some(hit),
                Err(_) => match self.activation.gen_symbol(target) {
                    Ok(hit) => Some(hit),
                    Err(_) => None,
                },
            },
        }
    }
}

} // verus!
