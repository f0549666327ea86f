//! The graph as a mathematical value: what the two tables hold, the
//! invariant that the services keep, and what each operation decides and
//! does.

use vstd::prelude::*;
use crate::clock::Timestamp;
use crate::entity::onto;
use crate::entity::onto::OntoView;
use crate::entity::signifier_signified as sign;
use crate::entity::signifier_signified::SignView;
use crate::error::{ServiceError, StoreError};
use crate::rows::{
    by_id,
    ids_in_order,
    lemma_by_id,
    lemma_by_id_without,
    lemma_filter_keeps_order,
    other_than,
    without,
};
use crate::seq_facts::{lemma_filter_members, lemma_push_members};
use crate::text::{is_blank, lemma_trimmed_twice, trimmed};
use crate::weight::{acceptable, Weight};

verus! {

/// Every name is its own trimming and not empty, and two rows with the same
/// name are the same row.
pub open spec fn names_sound(nodes: Seq<OntoView>) -> bool {
    &&& forall|n: OntoView| #[trigger]
        nodes.contains(n) ==> !is_blank(n.name) && trimmed(n.name) == n.name
    &&& forall|a: OntoView, b: OntoView|
        #![trigger nodes.contains(a), nodes.contains(b)]
        nodes.contains(a) && nodes.contains(b) && a.name == b.name ==> a.id == b.id
}

/// Every relation joins two distinct nodes that exist, carries an acceptable
/// weight, and is the only one for its ordered pair.
pub open spec fn relations_sound(nodes: Seq<OntoView>, signs: Seq<SignView>) -> bool {
    &&& forall|s: SignView| #[trigger]
        signs.contains(s) ==> {
            &&& by_id(nodes, s.signifier_id) is Some
            &&& by_id(nodes, s.signified_id) is Some
            &&& s.signifier_id != s.signified_id
            &&& acceptable(s.weight)
        }
    &&& forall|a: SignView, b: SignView|
        #![trigger signs.contains(a), signs.contains(b)]
        signs.contains(a) && signs.contains(b) && a.signifier_id == b.signifier_id
            && a.signified_id == b.signified_id ==> a.id == b.id
}

/// What is decided of a name, given the node that already holds its trimmed
/// form (`holder`) and, on a rename, the node being renamed (`own`).
pub open spec fn name_verdict(name: Seq<char>, holder: Option<i32>, own: Option<i32>) -> Option<
    ServiceError,
> {
    if is_blank(name) {
        Some(ServiceError::EmptyName)
    } else if holder is Some && holder != own {
        Some(ServiceError::NameTaken { holder: holder->0 })
    } else {
        None
    }
}

/// What is decided of a new relation, given whether each end exists and
/// whether the ordered pair is already joined.
pub open spec fn new_sign_verdict(
    signifier_id: i32,
    signified_id: i32,
    signifier_found: bool,
    signified_found: bool,
    joined: bool,
    weight: Option<Weight>,
) -> Option<ServiceError> {
    if signifier_id == signified_id {
        Some(ServiceError::SelfRelation { id: signifier_id })
    } else if !signifier_found {
        Some(ServiceError::SignifierNotFound { id: signifier_id })
    } else if !signified_found {
        Some(ServiceError::SignifiedNotFound { id: signified_id })
    } else if joined {
        Some(ServiceError::SignExists { signifier_id, signified_id })
    } else if !acceptable(weight) {
        Some(ServiceError::WeightOutOfRange)
    } else {
        None
    }
}

/// What is decided when a table is asked for one more row.
pub open spec fn room_verdict(last_id: int) -> Option<ServiceError> {
    if last_id >= i32::MAX {
        Some(ServiceError::Storage(StoreError::OutOfIds))
    } else {
        None
    }
}

/// The identifier of an optional node.
pub open spec fn id_of(node: Option<OntoView>) -> Option<i32> {
    match node {
        Some(n) => Some(n.id),
        None => None,
    }
}

/// The test that a relation passes when it has the node at neither end.
pub open spec fn apart_from(node: i32) -> spec_fn(SignView) -> bool {
    |s: SignView| s.signifier_id != node && s.signified_id != node
}

/// The rows that have the node at neither end.
pub open spec fn detached(signs: Seq<SignView>, node: i32) -> Seq<SignView> {
    signs.filter(apart_from(node))
}

/// The nodes and relations of a graph, with the last identifier that each
/// table has handed out.
pub struct Graph {
    pub nodes: Seq<OntoView>,
    pub last_onto_id: int,
    pub signs: Seq<SignView>,
    pub last_sign_id: int,
}

impl Graph {
    /// The graph invariant.
    pub open spec fn wf(self) -> bool {
        &&& 0 <= self.last_onto_id <= i32::MAX
        &&& 0 <= self.last_sign_id <= i32::MAX
        &&& ids_in_order(self.nodes, self.last_onto_id)
        &&& ids_in_order(self.signs, self.last_sign_id)
        &&& names_sound(self.nodes)
        &&& relations_sound(self.nodes, self.signs)
    }

    /// The graph with nothing in it.
    pub open spec fn empty() -> Graph {
        Graph {
            nodes: Seq::<OntoView>::empty(),
            last_onto_id: 0,
            signs: Seq::<SignView>::empty(),
            last_sign_id: 0,
        }
    }

    /// Whether a node has the identifier.
    pub open spec fn has_onto(self, id: i32) -> bool {
        by_id(self.nodes, id) is Some
    }

    /// Whether a relation has the identifier.
    pub open spec fn has_sign(self, id: i32) -> bool {
        by_id(self.signs, id) is Some
    }

    /// Why a node of this name cannot be created, if it cannot.
    pub open spec fn create_onto_verdict(self, name: Seq<char>) -> Option<ServiceError> {
        match name_verdict(name, id_of(onto::by_name(self.nodes, trimmed(name))), None) {
            Some(e) => Some(e),
            None => room_verdict(self.last_onto_id),
        }
    }

    /// The node that a creation under this name adds.
    pub open spec fn next_onto(self, name: Seq<char>) -> OntoView {
        OntoView { id: (self.last_onto_id + 1) as i32, name: trimmed(name) }
    }

    /// The graph after a node of this name was created.
    pub open spec fn with_onto(self, name: Seq<char>) -> Graph {
        Graph {
            nodes: self.nodes.push(self.next_onto(name)),
            last_onto_id: self.last_onto_id + 1,
            ..self
        }
    }

    /// Why the node cannot be renamed, if it cannot. Without a new name only
    /// the node's existence is asked.
    pub open spec fn update_onto_verdict(self, id: i32, name: Option<Seq<char>>) -> Option<
        ServiceError,
    > {
        let named = match name {
            Some(n) => name_verdict(n, id_of(onto::by_name(self.nodes, trimmed(n))), Some(id)),
            None => None,
        };
        if named is Some {
            named
        } else if !self.has_onto(id) {
            Some(ServiceError::OntoNotFound { id })
        } else {
            None
        }
    }

    /// The name that the node carries after the update.
    pub open spec fn updated_name(self, id: i32, name: Option<Seq<char>>) -> Seq<char> {
        match name {
            Some(n) => trimmed(n),
            None => by_id(self.nodes, id)->0.name,
        }
    }

    /// The graph after the node was renamed.
    pub open spec fn with_updated_onto(self, id: i32, name: Option<Seq<char>>) -> Graph {
        Graph { nodes: onto::renamed(self.nodes, id, self.updated_name(id, name)), ..self }
    }

    /// Why the node cannot be deleted, if it cannot.
    pub open spec fn delete_onto_verdict(self, id: i32) -> Option<ServiceError> {
        if self.has_onto(id) {
            None
        } else {
            Some(ServiceError::OntoNotFound { id })
        }
    }

    /// The graph after the node was deleted, together with every relation
    /// that had it at either end.
    pub open spec fn without_onto(self, id: i32) -> Graph {
        Graph { nodes: without(self.nodes, id), signs: detached(self.signs, id), ..self }
    }

    /// Why the relation cannot be created, if it cannot.
    pub open spec fn create_sign_verdict(
        self,
        signifier_id: i32,
        signified_id: i32,
        weight: Option<Weight>,
    ) -> Option<ServiceError> {
        match new_sign_verdict(
            signifier_id,
            signified_id,
            self.has_onto(signifier_id),
            self.has_onto(signified_id),
            sign::joined(self.signs, signifier_id, signified_id),
            weight,
        ) {
            Some(e) => Some(e),
            None => room_verdict(self.last_sign_id),
        }
    }

    /// The relation that a creation with these values adds.
    pub open spec fn next_sign(
        self,
        signifier_id: i32,
        signified_id: i32,
        weight: Option<Weight>,
        relation_type: Option<Seq<char>>,
        created_at: Timestamp,
    ) -> SignView {
        SignView {
            id: (self.last_sign_id + 1) as i32,
            signifier_id,
            signified_id,
            weight,
            relation_type,
            created_at,
        }
    }

    /// The graph after the relation was created.
    pub open spec fn with_sign(self, made: SignView) -> Graph {
        Graph { signs: self.signs.push(made), last_sign_id: self.last_sign_id + 1, ..self }
    }

    /// Why the relation cannot be deleted, if it cannot.
    pub open spec fn delete_sign_verdict(self, id: i32) -> Option<ServiceError> {
        if self.has_sign(id) {
            None
        } else {
            Some(ServiceError::SignNotFound { id })
        }
    }

    /// The graph after the relation was deleted.
    pub open spec fn without_sign(self, id: i32) -> Graph {
        Graph { signs: without(self.signs, id), ..self }
    }

    /// Why the relations at one end of a node cannot be listed, if they
    /// cannot.
    pub open spec fn query_verdict(self, end: sign::Relation, node: i32) -> Option<ServiceError> {
        if self.has_onto(node) {
            None
        } else {
            match end {
                sign::Relation::Signifier => Some(ServiceError::SignifierNotFound { id: node }),
                sign::Relation::Signified => Some(ServiceError::SignifiedNotFound { id: node }),
            }
        }
    }
}

impl Graph {
    /// The empty graph is well formed.
    pub proof fn empty_is_wf()
        ensures
            Graph::empty().wf(),
    {
    }

    /// Creating a node keeps the graph well formed.
    pub proof fn with_onto_is_wf(self, name: Seq<char>)
        requires
            self.wf(),
            self.create_onto_verdict(name) is None,
        ensures
            self.with_onto(name).wf(),
    {
        let made = self.next_onto(name);
        let after = self.with_onto(name);
        lemma_trimmed_twice(name);
        lemma_push_members(self.nodes, made);
        onto::lemma_by_name(self.nodes, trimmed(name));
        assert(names_sound(after.nodes)) by {
            assert forall|a: OntoView, b: OntoView|
                after.nodes.contains(a) && after.nodes.contains(b) && a.name == b.name implies a.id
                == b.id by {
                if a != b {
                    let old_one = if a == made {
                        b
                    } else {
                        a
                    };
                    if a == made || b == made {
                        let i = choose|i: int| 0 <= i < self.nodes.len() && self.nodes[i] == old_one;
                        assert(self.nodes[i].name == trimmed(name));
                    }
                }
            }
        }
        assert(relations_sound(after.nodes, after.signs)) by {
            assert forall|s: SignView| #[trigger] after.signs.contains(s) implies {
                &&& by_id(after.nodes, s.signifier_id) is Some
                &&& by_id(after.nodes, s.signified_id) is Some
            } by {
                Self::push_keeps_found(self.nodes, made, s.signifier_id);
                Self::push_keeps_found(self.nodes, made, s.signified_id);
            }
        }
    }

    /// A node that was found is still found after another node was added.
    proof fn push_keeps_found(nodes: Seq<OntoView>, made: OntoView, id: i32)
        ensures
            by_id(nodes, id) is Some ==> by_id(nodes.push(made), id) is Some,
            by_id(nodes.push(made), id) is Some <==> by_id(nodes, id) is Some
                || made.id == id,
    {
        lemma_by_id(nodes, id);
        lemma_by_id(nodes.push(made), id);
        let after = nodes.push(made);
        if by_id(nodes, id) is Some {
            let i = choose|i: int| 0 <= i < nodes.len() && (#[trigger] nodes[i]).id == id;
            assert(after[i].id == id);
        }
        if made.id == id {
            assert(after[nodes.len() as int].id == id);
        }
        if by_id(after, id) is Some {
            let i = choose|i: int| 0 <= i < after.len() && (#[trigger] after[i]).id == id;
            if i < nodes.len() {
                assert(nodes[i].id == id);
            }
        }
    }

    /// Renaming a node keeps the graph well formed.
    pub proof fn with_updated_onto_is_wf(self, id: i32, name: Option<Seq<char>>)
        requires
            self.wf(),
            self.update_onto_verdict(id, name) is None,
        ensures
            self.with_updated_onto(id, name).wf(),
    {
        let new_name = self.updated_name(id, name);
        let after = self.with_updated_onto(id, name);
        lemma_by_id(self.nodes, id);
        assert(after.nodes.len() == self.nodes.len());
        assert forall|i: int| 0 <= i < after.nodes.len() implies (#[trigger] after.nodes[i]).id
            == self.nodes[i].id by {}
        assert(!is_blank(new_name) && trimmed(new_name) == new_name) by {
            if let Some(n) = name {
                lemma_trimmed_twice(n);
            }
        }
        onto::lemma_by_name(self.nodes, new_name);
        assert(names_sound(after.nodes)) by {
            assert forall|n: OntoView| #[trigger] after.nodes.contains(n) implies !is_blank(n.name)
                && trimmed(n.name) == n.name by {
                let i = choose|i: int| 0 <= i < after.nodes.len() && after.nodes[i] == n;
                assert(self.nodes.contains(self.nodes[i]));
            }
            assert forall|a: OntoView, b: OntoView|
                after.nodes.contains(a) && after.nodes.contains(b) && a.name == b.name implies a.id
                == b.id by {
                let i = choose|i: int| 0 <= i < after.nodes.len() && after.nodes[i] == a;
                let j = choose|j: int| 0 <= j < after.nodes.len() && after.nodes[j] == b;
                let a0 = self.nodes[i];
                let b0 = self.nodes[j];
                assert(self.nodes.contains(a0) && self.nodes.contains(b0));
                if a0.id == id && b0.id != id {
                    self.renaming_meets_no_other(id, name, b0);
                } else if a0.id != id && b0.id == id {
                    self.renaming_meets_no_other(id, name, a0);
                }
            }
        }
        assert(relations_sound(after.nodes, after.signs)) by {
            assert forall|s: SignView| #[trigger] after.signs.contains(s) implies {
                &&& by_id(after.nodes, s.signifier_id) is Some
                &&& by_id(after.nodes, s.signified_id) is Some
            } by {
                onto::lemma_by_id_renamed(self.nodes, id, new_name, s.signifier_id);
                onto::lemma_by_id_renamed(self.nodes, id, new_name, s.signified_id);
            }
        }
    }

    /// Where a rename is allowed, no other node carries the new name.
    proof fn renaming_meets_no_other(self, id: i32, name: Option<Seq<char>>, other: OntoView)
        requires
            self.wf(),
            self.update_onto_verdict(id, name) is None,
            self.nodes.contains(other),
            other.id != id,
        ensures
            other.name != self.updated_name(id, name),
    {
        let new_name = self.updated_name(id, name);
        lemma_by_id(self.nodes, id);
        onto::lemma_by_name(self.nodes, new_name);
        if other.name == new_name {
            let k = choose|k: int| 0 <= k < self.nodes.len() && self.nodes[k] == other;
            assert(self.nodes[k].name == new_name);
            let holder = onto::by_name(self.nodes, new_name)->0;
            assert(self.nodes.contains(holder));
            assert(holder.id == other.id);
            match name {
                Some(n) => {},
                None => {
                    let own = by_id(self.nodes, id)->0;
                    assert(self.nodes.contains(own));
                    assert(own.id == other.id);
                },
            }
        }
    }

    /// Deleting a node, with the relations at it, keeps the graph well
    /// formed.
    pub proof fn without_onto_is_wf(self, id: i32)
        requires
            self.wf(),
        ensures
            self.without_onto(id).wf(),
    {
        let after = self.without_onto(id);
        let keep_node = other_than::<OntoView>(id);
        let keep_sign = apart_from(id);
        lemma_filter_keeps_order(self.nodes, self.last_onto_id, keep_node);
        lemma_filter_keeps_order(self.signs, self.last_sign_id, keep_sign);
        lemma_filter_members(self.nodes, keep_node);
        lemma_filter_members(self.signs, keep_sign);
        assert(relations_sound(after.nodes, after.signs)) by {
            assert forall|s: SignView| #[trigger] after.signs.contains(s) implies {
                &&& by_id(after.nodes, s.signifier_id) is Some
                &&& by_id(after.nodes, s.signified_id) is Some
            } by {
                assert(self.signs.contains(s));
                lemma_by_id_without(self.nodes, self.last_onto_id, id, s.signifier_id);
                lemma_by_id_without(self.nodes, self.last_onto_id, id, s.signified_id);
            }
        }
    }

    /// Creating a relation keeps the graph well formed.
    pub proof fn with_sign_is_wf(
        self,
        signifier_id: i32,
        signified_id: i32,
        weight: Option<Weight>,
        relation_type: Option<Seq<char>>,
        created_at: Timestamp,
    )
        requires
            self.wf(),
            self.create_sign_verdict(signifier_id, signified_id, weight) is None,
        ensures
            self.with_sign(
                self.next_sign(signifier_id, signified_id, weight, relation_type, created_at),
            ).wf(),
    {
        let made = self.next_sign(signifier_id, signified_id, weight, relation_type, created_at);
        let after = self.with_sign(made);
        lemma_push_members(self.signs, made);
        sign::lemma_joined(self.signs, signifier_id, signified_id);
        assert(relations_sound(after.nodes, after.signs));
    }

    /// Deleting a relation keeps the graph well formed.
    pub proof fn without_sign_is_wf(self, id: i32)
        requires
            self.wf(),
        ensures
            self.without_sign(id).wf(),
    {
        let keep = other_than::<SignView>(id);
        lemma_filter_keeps_order(self.signs, self.last_sign_id, keep);
        lemma_filter_members(self.signs, keep);
    }
}

} // verus!
