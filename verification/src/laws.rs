//! What holds of the graph whatever it contains, stated over sequences of
//! operations.

use vstd::prelude::*;
use crate::clock::Timestamp;
use crate::entity::onto;
use crate::entity::onto::OntoView;
use crate::entity::signifier_signified as sign;
use crate::entity::signifier_signified::{Relation, SignView};
use crate::error::{ErrorKind, ServiceError};
use crate::graph::{apart_from, Graph};
use crate::rows::{
    by_id,
    has_id,
    lemma_by_id,
    lemma_by_id_push,
    lemma_by_id_without,
    lemma_member_by_id,
    lemma_one_row_has_id,
    other_than,
};
use crate::seq_facts::{lemma_filter_members, lemma_filter_shares, lemma_push_members};
use crate::text::{lemma_clean_text_is_trimmed, trimmed};
use crate::weight::{acceptable, Weight};

verus! {

/// A node that was just created is the one found under its trimmed name. Its
/// identifier is above every identifier handed out before, so that no node
/// of the graph has it.
pub proof fn created_onto_is_found(g: Graph, name: Seq<char>)
    requires
        g.wf(),
        g.create_onto_verdict(name) is None,
    ensures
        onto::by_name(g.with_onto(name).nodes, trimmed(name)) == Some(g.next_onto(name)),
        by_id(g.with_onto(name).nodes, g.next_onto(name).id) == Some(g.next_onto(name)),
        g.next_onto(name).name == trimmed(name),
        g.next_onto(name).id > g.last_onto_id,
        !g.has_onto(g.next_onto(name).id),
        forall|n: OntoView| #[trigger] g.nodes.contains(n) ==> n.id != g.next_onto(name).id,
{
    let made = g.next_onto(name);
    onto::lemma_by_name_push(g.nodes, made, trimmed(name));
    lemma_by_id_push(g.nodes, made, made.id);
    lemma_by_id(g.nodes, made.id);
    assert forall|n: OntoView| #[trigger] g.nodes.contains(n) implies n.id != made.id by {
        let i = choose|i: int| 0 <= i < g.nodes.len() && g.nodes[i] == n;
        assert(g.nodes[i].id <= g.last_onto_id);
    }
}

/// A name that neither starts nor ends with whitespace is stored as it was
/// given, and found under it.
pub proof fn created_onto_keeps_clean_name(g: Graph, name: Seq<char>)
    requires
        g.wf(),
        g.create_onto_verdict(name) is None,
        name.len() > 0 ==> !crate::text::is_whitespace(name.first()) && !crate::text::is_whitespace(
            name.last(),
        ),
    ensures
        g.next_onto(name).name == name,
        onto::by_name(g.with_onto(name).nodes, name) == Some(g.next_onto(name)),
{
    lemma_clean_text_is_trimmed(name);
    created_onto_is_found(g, name);
}

/// After a rename the node is found under its identifier and under its new
/// name, trimmed. Every other node is as it was, and so is every relation.
pub proof fn renamed_onto_is_found(g: Graph, id: i32, name: Seq<char>)
    requires
        g.wf(),
        g.update_onto_verdict(id, Some(name)) is None,
    ensures
        ({
            let after = g.with_updated_onto(id, Some(name));
            let now = OntoView { id, name: trimmed(name) };
            &&& by_id(after.nodes, id) == Some(now)
            &&& onto::by_name(after.nodes, trimmed(name)) == Some(now)
            &&& forall|other: i32|
                other != id ==> by_id(after.nodes, other) == by_id(g.nodes, other)
            &&& after.signs == g.signs
            &&& after.last_onto_id == g.last_onto_id
        }),
{
    let after = g.with_updated_onto(id, Some(name));
    let now = OntoView { id, name: trimmed(name) };
    g.with_updated_onto_is_wf(id, Some(name));
    lemma_by_id(g.nodes, id);
    assert forall|other: i32| other != id implies by_id(after.nodes, other) == by_id(
        g.nodes,
        other,
    ) by {
        onto::lemma_by_id_renamed(g.nodes, id, trimmed(name), other);
        lemma_by_id(g.nodes, other);
    }
    onto::lemma_by_id_renamed(g.nodes, id, trimmed(name), id);
    assert(by_id(after.nodes, id) == Some(now));
    lemma_by_id(after.nodes, id);
    assert(after.nodes.contains(now));
    onto::lemma_by_name(after.nodes, trimmed(name));
    let k = choose|k: int| 0 <= k < after.nodes.len() && after.nodes[k] == now;
    assert(after.nodes[k].name == trimmed(name));
    let found = onto::by_name(after.nodes, trimmed(name))->0;
    assert(after.nodes.contains(found));
    assert(found.id == now.id);
    lemma_member_by_id(after.nodes, after.last_onto_id, found);
}

/// A blank name is refused as an invalid argument, whatever the graph holds.
pub proof fn blank_name_is_refused(g: Graph, name: Seq<char>)
    requires
        crate::text::is_blank(name),
    ensures
        g.create_onto_verdict(name) == Some(ServiceError::EmptyName),
        ServiceError::EmptyName.spec_kind() == ErrorKind::InvalidArgument,
{
}

/// Once a node was created, a second creation under a name with the same
/// trimming is refused as a conflict with that node.
pub proof fn same_name_conflicts(g: Graph, first: Seq<char>, second: Seq<char>)
    requires
        g.wf(),
        g.create_onto_verdict(first) is None,
        trimmed(second) == trimmed(first),
    ensures
        g.with_onto(first).create_onto_verdict(second) == Some(
            ServiceError::NameTaken { holder: g.next_onto(first).id },
        ),
        g.with_onto(first).create_onto_verdict(second)->0.spec_kind() == ErrorKind::Conflict,
{
    created_onto_is_found(g, first);
}

/// A relation from a node to itself is refused as an invalid argument,
/// whether or not the node exists.
pub proof fn self_relation_is_refused(g: Graph, node: i32, weight: Option<Weight>)
    ensures
        g.create_sign_verdict(node, node, weight) == Some(ServiceError::SelfRelation { id: node }),
        g.create_sign_verdict(node, node, weight)->0.spec_kind() == ErrorKind::InvalidArgument,
{
}

/// A relation that was just created is the one found under its identifier,
/// which is above every identifier handed out before. It joins its pair, it
/// is the last of the relations that start from its signifier and the last
/// of those that point to its signified, and the nodes are as they were.
pub proof fn created_sign_is_found(
    g: Graph,
    signifier_id: i32,
    signified_id: i32,
    weight: Option<Weight>,
    relation_type: Option<Seq<char>>,
    created_at: Timestamp,
)
    requires
        g.wf(),
        g.create_sign_verdict(signifier_id, signified_id, weight) is None,
    ensures
        ({
            let made = g.next_sign(signifier_id, signified_id, weight, relation_type, created_at);
            let after = g.with_sign(made);
            &&& by_id(after.signs, made.id) == Some(made)
            &&& made.id > g.last_sign_id
            &&& !g.has_sign(made.id)
            &&& sign::joined(after.signs, signifier_id, signified_id)
            &&& sign::touching(after.signs, Relation::Signifier, signifier_id) == sign::touching(
                g.signs,
                Relation::Signifier,
                signifier_id,
            ).push(made)
            &&& sign::touching(after.signs, Relation::Signified, signified_id) == sign::touching(
                g.signs,
                Relation::Signified,
                signified_id,
            ).push(made)
            &&& after.nodes == g.nodes
        }),
{
    let made = g.next_sign(signifier_id, signified_id, weight, relation_type, created_at);
    let after = g.with_sign(made);
    lemma_by_id_push(g.signs, made, made.id);
    lemma_by_id(g.signs, made.id);
    if by_id(g.signs, made.id) is Some {
        let i = choose|i: int| 0 <= i < g.signs.len() && (#[trigger] g.signs[i]).id == made.id;
        assert(g.signs[i].id <= g.last_sign_id);
    }
    assert(after.signs[g.signs.len() as int].signifier_id == signifier_id);
    g.signs.lemma_filter_push(made, sign::at(Relation::Signifier, signifier_id));
    g.signs.lemma_filter_push(made, sign::at(Relation::Signified, signified_id));
}

/// Once a relation was created, a second one for the same ordered pair is
/// refused as a conflict, whatever its weight. The reversed pair is judged as
/// it was judged before: it is joined afterwards exactly if it was joined
/// before, and where it was not, its ends differ and exist, so a relation
/// with an acceptable weight can be created as long as an identifier is left.
pub proof fn second_relation_conflicts(
    g: Graph,
    signifier_id: i32,
    signified_id: i32,
    weight: Option<Weight>,
    relation_type: Option<Seq<char>>,
    created_at: Timestamp,
    again: Option<Weight>,
)
    requires
        g.wf(),
        g.create_sign_verdict(signifier_id, signified_id, weight) is None,
    ensures
        ({
            let made = g.next_sign(signifier_id, signified_id, weight, relation_type, created_at);
            let after = g.with_sign(made);
            &&& after.create_sign_verdict(signifier_id, signified_id, again) == Some(
                ServiceError::SignExists { signifier_id, signified_id },
            )
            &&& after.create_sign_verdict(signifier_id, signified_id, again)->0.spec_kind()
                == ErrorKind::Conflict
            &&& sign::joined(after.signs, signified_id, signifier_id) == sign::joined(
                g.signs,
                signified_id,
                signifier_id,
            )
            &&& !sign::joined(g.signs, signified_id, signifier_id) && acceptable(again)
                && after.last_sign_id < i32::MAX ==> after.create_sign_verdict(
                signified_id,
                signifier_id,
                again,
            ) is None
        }),
{
    let made = g.next_sign(signifier_id, signified_id, weight, relation_type, created_at);
    let after = g.with_sign(made);
    lemma_push_members(g.signs, made);
    sign::lemma_joined(after.signs, signifier_id, signified_id);
    assert(after.signs.contains(made));
    sign::lemma_joined(after.signs, signified_id, signifier_id);
    sign::lemma_joined(g.signs, signified_id, signifier_id);
    if sign::joined(after.signs, signified_id, signifier_id) {
        let s = choose|s: SignView|
            #[trigger] after.signs.contains(s) && s.signifier_id == signified_id && s.signified_id
                == signifier_id;
        assert(g.signs.contains(s));
    }
    if sign::joined(g.signs, signified_id, signifier_id) {
        let s = choose|s: SignView|
            #[trigger] g.signs.contains(s) && s.signifier_id == signified_id && s.signified_id
                == signifier_id;
        assert(after.signs.contains(s));
    }
}

/// A relation whose weight lies outside the unit interval is refused as an
/// invalid argument where nothing else stands against it, and a relation
/// without a weight, or with one inside, is not refused for its weight.
pub proof fn weight_is_checked(
    g: Graph,
    signifier_id: i32,
    signified_id: i32,
    weight: Option<Weight>,
)
    requires
        signifier_id != signified_id,
        g.has_onto(signifier_id),
        g.has_onto(signified_id),
        !sign::joined(g.signs, signifier_id, signified_id),
    ensures
        !acceptable(weight) ==> g.create_sign_verdict(signifier_id, signified_id, weight) == Some(
            ServiceError::WeightOutOfRange,
        ),
        acceptable(weight) && g.last_sign_id < i32::MAX ==> g.create_sign_verdict(
            signifier_id,
            signified_id,
            weight,
        ) is None,
        ServiceError::WeightOutOfRange.spec_kind() == ErrorKind::InvalidArgument,
{
}

/// A relation between two different nodes of which one does not exist is
/// refused as not found, and the failure names the missing side: the
/// signifier first.
pub proof fn missing_end_is_refused(
    g: Graph,
    signifier_id: i32,
    signified_id: i32,
    weight: Option<Weight>,
)
    requires
        signifier_id != signified_id,
        !g.has_onto(signifier_id) || !g.has_onto(signified_id),
    ensures
        g.create_sign_verdict(signifier_id, signified_id, weight) == Some(
            if !g.has_onto(signifier_id) {
                ServiceError::SignifierNotFound { id: signifier_id }
            } else {
                ServiceError::SignifiedNotFound { id: signified_id }
            },
        ),
        g.create_sign_verdict(signifier_id, signified_id, weight)->0.spec_kind()
            == ErrorKind::NotFound,
{
}

/// Deleting a node removes it and exactly the relations that have it at
/// either end: as many rows leave as started from it or pointed to it, no
/// remaining relation refers to it, every other node and relation stays, and
/// asking for its relations afterwards fails as not found.
pub proof fn deleted_onto_leaves_no_trace(g: Graph, id: i32)
    requires
        g.wf(),
        g.delete_onto_verdict(id) is None,
    ensures
        ({
            let after = g.without_onto(id);
            &&& !after.has_onto(id)
            &&& forall|other: i32|
                other != id ==> by_id(after.nodes, other) == by_id(g.nodes, other)
            &&& after.nodes.len() == g.nodes.len() - 1
            &&& forall|s: SignView| #[trigger]
                after.signs.contains(s) ==> s.signifier_id != id && s.signified_id != id
            &&& forall|s: SignView| #[trigger]
                after.signs.contains(s) <==> g.signs.contains(s) && s.signifier_id != id
                    && s.signified_id != id
            &&& after.signs.len() == g.signs.len() - sign::touching(
                g.signs,
                Relation::Signifier,
                id,
            ).len() - sign::touching(g.signs, Relation::Signified, id).len()
            &&& after.query_verdict(Relation::Signifier, id) == Some(
                ServiceError::SignifierNotFound { id },
            )
            &&& after.query_verdict(Relation::Signified, id) == Some(
                ServiceError::SignifiedNotFound { id },
            )
            &&& after.delete_onto_verdict(id) == Some(ServiceError::OntoNotFound { id })
        }),
{
    let after = g.without_onto(id);
    assert forall|other: i32| true implies by_id(after.nodes, other) == if other == id {
        None
    } else {
        by_id(g.nodes, other)
    } by {
        lemma_by_id_without(g.nodes, g.last_onto_id, id, other);
    }
    let keep = apart_from(id);
    let from = sign::at(Relation::Signifier, id);
    let to = sign::at(Relation::Signified, id);
    lemma_filter_members(g.signs, keep);
    assert forall|i: int| 0 <= i < g.signs.len() implies {
        let x = #[trigger] g.signs[i];
        &&& from(x) || to(x) || keep(x)
        &&& !(from(x) && to(x))
        &&& !(from(x) && keep(x))
        &&& !(to(x) && keep(x))
    } by {
        assert(g.signs.contains(g.signs[i]));
    }
    lemma_filter_shares(g.signs, from, to, keep);
    let stays = other_than::<OntoView>(id);
    let leaves = has_id::<OntoView>(id);
    let never = |r: OntoView| false;
    assert forall|i: int| 0 <= i < g.nodes.len() implies {
        let x = #[trigger] g.nodes[i];
        &&& stays(x) || leaves(x) || never(x)
        &&& !(stays(x) && leaves(x))
        &&& !(stays(x) && never(x))
        &&& !(leaves(x) && never(x))
    } by {}
    lemma_filter_shares(g.nodes, stays, leaves, never);
    assert(g.nodes.filter(never).len() == 0) by {
        g.nodes.lemma_all_neg_filter_empty(never);
    }
    lemma_one_row_has_id(g.nodes, g.last_onto_id, id);
}

/// Deleting a relation a second time fails as not found, and the first
/// deletion changes nothing for the other relations nor for the nodes.
pub proof fn deleted_sign_is_gone(g: Graph, id: i32)
    requires
        g.wf(),
        g.delete_sign_verdict(id) is None,
    ensures
        ({
            let after = g.without_sign(id);
            &&& after.delete_sign_verdict(id) == Some(ServiceError::SignNotFound { id })
            &&& after.delete_sign_verdict(id)->0.spec_kind() == ErrorKind::NotFound
            &&& forall|other: i32|
                other != id ==> by_id(after.signs, other) == by_id(g.signs, other)
            &&& forall|other: i32|
                other != id ==> after.delete_sign_verdict(other) == g.delete_sign_verdict(other)
            &&& after.nodes == g.nodes
        }),
{
    let after = g.without_sign(id);
    assert forall|other: i32| true implies by_id(after.signs, other) == if other == id {
        None
    } else {
        by_id(g.signs, other)
    } by {
        lemma_by_id_without(g.signs, g.last_sign_id, id, other);
    }
}

/// Deleting a relation that does not exist fails as not found and changes
/// nothing.
pub proof fn missing_sign_is_not_deleted(g: Graph, id: i32)
    requires
        !g.has_sign(id),
    ensures
        g.delete_sign_verdict(id) == Some(ServiceError::SignNotFound { id }),
{
}

} // verus!
