use crate::ast::types::NodeId;
use std::collections::HashMap;
use vstd::prelude::*;

verus! {

#[derive(Clone, Copy, Debug, PartialEq, Eq, Structural)]
pub enum Ty {
    Int,
}

/// The type recorded for each AST node, by node id.
pub struct TypeTable {
    types: HashMap<u32, Ty>,
}

impl TypeTable {
    pub closed spec fn view(&self) -> Map<u32, Ty> {
        self.types@
    }

    pub fn new() -> (r: Self)
        ensures
            r.view() == Map::<u32, Ty>::empty(),
    {
        TypeTable { types: HashMap::new() }
    }

    pub fn set(&mut self, id: NodeId, ty: Ty)
        ensures
            final(self).view() == old(self).view().insert(id.spec_value(), ty),
    {
        self.types.insert(id.value(), ty);
    }

    pub fn get(&self, id: NodeId) -> (r: Option<&Ty>)
        ensures
            match r {
                Some(t) => self.view().contains_key(id.spec_value()) && *t == self.view()[id.spec_value()],
                None => !self.view().contains_key(id.spec_value()),
            },
    {
        self.types.get(&id.value())
    }
}

/// Reading a node's type after setting it gives back the type set, and
/// setting one node's type leaves every other node's entry as it was.
pub proof fn law_get_after_set(table: Map<u32, Ty>, id: u32, ty: Ty, other: u32)
    requires
        other != id,
    ensures
        table.insert(id, ty).contains_key(id),
        table.insert(id, ty)[id] == ty,
        table.insert(id, ty).contains_key(other) == table.contains_key(other),
        table.contains_key(other) ==> table.insert(id, ty)[other] == table[other],
{
}

} // verus!
