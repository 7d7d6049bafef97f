//! Variable definitions.

use vstd::prelude::*;
use crate::params::{ParamValue, Params};
use crate::vars::name::VarName;

verus! {

/// The type of value that a variable holds.
#[derive(Clone, Copy, Debug, PartialEq, Eq, Structural)]
pub enum VarDataType {
    Bool,
}

/// A variable whose value a named built-in probe produces.
#[derive(Clone, Debug, PartialEq, Eq)]
pub struct BuiltinPollDef {
    pub builtin_name: String,
    pub params: Params,
}

/// A variable that is true when any variable of a category is true.
#[derive(Clone, Debug, PartialEq, Eq)]
pub struct CategoryAnyDef {
    pub category_name: VarName,
}

/// How a variable gets its value.
#[derive(Clone, Debug, PartialEq, Eq)]
pub enum VarKind {
    BuiltinPoll(BuiltinPollDef),
    CategoryAny(CategoryAnyDef),
}

/// A variable definition.
#[derive(Clone, Debug, PartialEq, Eq)]
pub struct VarDef {
    pub name: VarName,
    pub data_type: VarDataType,
    pub categories: Vec<VarName>,
    pub kind: VarKind,
}

/// `VarKind` as mathematics.
pub enum VarKindView {
    BuiltinPoll { builtin_name: Seq<char>, params: Map<Seq<char>, ParamValue> },
    CategoryAny { category_name: Seq<char> },
}

/// `VarDef` as mathematics.
pub struct VarDefView {
    pub name: Seq<char>,
    pub data_type: VarDataType,
    pub categories: Seq<Seq<char>>,
    pub kind: VarKindView,
}

impl VarDefView {
    /// The definition is polled through a built-in probe.
    pub open spec fn is_builtin_poll(self) -> bool {
        self.kind is BuiltinPoll
    }

    /// The definition is the variable of category `c`.
    pub open spec fn is_category_any(self, c: Seq<char>) -> bool {
        self.kind == (VarKindView::CategoryAny { category_name: c })
    }

    /// The definition lists `c` among its categories.
    pub open spec fn lists(self, c: Seq<char>) -> bool {
        self.categories.contains(c)
    }

    /// The definition speaks of category `c`: it lists it, or is its variable.
    pub open spec fn mentions(self, c: Seq<char>) -> bool {
        self.lists(c) || self.is_category_any(c)
    }
}

/// The texts of a sequence of names.
pub open spec fn name_texts(names: Seq<VarName>) -> Seq<Seq<char>> {
    names.map_values(|n: VarName| n@)
}

impl View for VarKind {
    type V = VarKindView;

    open spec fn view(&self) -> VarKindView {
        match self {
            VarKind::BuiltinPoll(d) => VarKindView::BuiltinPoll {
                builtin_name: d.builtin_name@,
                params: d.params@,
            },
            VarKind::CategoryAny(d) => VarKindView::CategoryAny {
                category_name: d.category_name@,
            },
        }
    }
}

impl View for VarDef {
    type V = VarDefView;

    open spec fn view(&self) -> VarDefView {
        VarDefView {
            name: self.name@,
            data_type: self.data_type,
            categories: name_texts(self.categories@),
            kind: self.kind@,
        }
    }
}

/// A copy of a list of names.
pub fn duplicate_names(names: &Vec<VarName>) -> (r: Vec<VarName>)
    ensures
        r@ == names@,
{
    let mut out: Vec<VarName> = Vec::new();
    let mut i: usize = 0;
    while i < names.len()
        invariant
            i <= names.len(),
            out@.len() == i,
            forall|j: int| 0 <= j < i ==> out@[j] == names@[j],
        decreases names.len() - i,
    {
        out.push(names[i].duplicate());
        i += 1;
    }
    assert(out@ =~= names@);
    out
}

impl VarKind {
    /// A copy of the kind.
    pub fn duplicate(&self) -> (r: VarKind)
        ensures
            r@ == self@,
    {
        match self {
            VarKind::BuiltinPoll(d) => VarKind::BuiltinPoll(
                BuiltinPollDef {
                    builtin_name: d.builtin_name.clone(),
                    params: d.params.duplicate(),
                },
            ),
            VarKind::CategoryAny(d) => VarKind::CategoryAny(
                CategoryAnyDef { category_name: d.category_name.duplicate() },
            ),
        }
    }
}

impl VarDef {
    /// The name of the variable.
    pub fn name(&self) -> (n: &VarName)
        ensures
            *n == self.name,
    {
        &self.name
    }

    /// A copy of the definition.
    pub fn duplicate(&self) -> (r: VarDef)
        ensures
            r@ == self@,
    {
        VarDef {
            name: self.name.duplicate(),
            data_type: self.data_type,
            categories: duplicate_names(&self.categories),
            kind: self.kind.duplicate(),
        }
    }
}

} // verus!
