//! Stable identifiers of input nodes.

use vstd::prelude::*;
use vstd::string::*;

use crate::error::DomainError;
use crate::text::{is_blank, str_is_blank};

verus! {

/// Stable identifier of an input node (its `/dev/input/by-id` name).
#[derive(Debug, PartialEq, Eq, Hash, PartialOrd, Ord)]
pub struct NodeId(String);

impl View for NodeId {
    type V = Seq<char>;

    closed spec fn view(&self) -> Seq<char> {
        self.0@
    }
}

impl NodeId {
    #[verifier::type_invariant]
    spec fn not_blank(self) -> bool {
        !is_blank(self.0@)
    }

    /// Accepts any identifier that is not empty once trimmed.
    pub fn new(id: &str) -> (r: Result<NodeId, DomainError>)
        ensures
            r is Ok <==> !is_blank(id@),
            r matches Ok(n) ==> n@ == id@,
            r matches Err(e) ==> e == DomainError::EmptyNode,
    {
        if str_is_blank(id) {
            Err(DomainError::EmptyNode)
        } else {
            Ok(NodeId(id.to_owned()))
        }
    }

    pub fn as_str(&self) -> (s: &str)
        ensures
            s@ == self@,
    {
        self.0.as_str()
    }

    /// Display text: the identifier itself.
    pub fn to_string(&self) -> (s: String)
        ensures
            s@ == self@,
    {
        self.0.clone()
    }

    /// Whether both identifiers name the same node.
    pub fn same_as(&self, other: &NodeId) -> (r: bool)
        ensures
            r == (self@ == other@),
    {
        self.0 == other.0
    }

    /// An identifier is never blank.
    pub fn check_not_blank(&self)
        ensures
            !is_blank(self@),
    {
        proof {
            use_type_invariant(self);
        }
    }
}

impl Clone for NodeId {
    fn clone(&self) -> (r: Self)
        ensures
            r@ == self@,
    {
        proof {
            use_type_invariant(self);
        }
        NodeId(self.0.clone())
    }
}

} // verus!
