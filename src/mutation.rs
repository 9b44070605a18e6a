use vstd::prelude::*;

use crate::arena::ElementId;

verus! {

/// One instruction of the edit log handed to the host renderer.
#[derive(Clone, Debug, PartialEq, Eq)]
pub enum Mutation {
    SetAttribute { name: String, value: String, id: ElementId },
    LoadTemplate { name: String, id: ElementId },
    HydrateText { path: Vec<u8>, value: String, id: ElementId },
    SetText { value: String, id: ElementId },
    ReplacePlaceholder { path: Vec<u8>, id: ElementId },
    AssignId { path: Vec<u8>, id: ElementId },
    /// Discard the subtree bound to `id`; the preceding create output replaces it.
    Replace { id: ElementId },
}

/// The mathematical value of a `Mutation`: strings as character sequences,
/// paths as byte sequences, identities as numbers.
pub enum MutationView {
    SetAttribute { name: Seq<char>, value: Seq<char>, id: nat },
    LoadTemplate { name: Seq<char>, id: nat },
    HydrateText { path: Seq<u8>, value: Seq<char>, id: nat },
    SetText { value: Seq<char>, id: nat },
    ReplacePlaceholder { path: Seq<u8>, id: nat },
    AssignId { path: Seq<u8>, id: nat },
    Replace { id: nat },
}

impl View for Mutation {
    type V = MutationView;

    open spec fn view(&self) -> MutationView {
        match self {
            Mutation::SetAttribute { name, value, id } => MutationView::SetAttribute {
                name: name@,
                value: value@,
                id: id.0 as nat,
            },
            Mutation::LoadTemplate { name, id } => MutationView::LoadTemplate {
                name: name@,
                id: id.0 as nat,
            },
            Mutation::HydrateText { path, value, id } => MutationView::HydrateText {
                path: path@,
                value: value@,
                id: id.0 as nat,
            },
            Mutation::SetText { value, id } => MutationView::SetText {
                value: value@,
                id: id.0 as nat,
            },
            Mutation::ReplacePlaceholder { path, id } => MutationView::ReplacePlaceholder {
                path: path@,
                id: id.0 as nat,
            },
            Mutation::AssignId { path, id } => MutationView::AssignId {
                path: path@,
                id: id.0 as nat,
            },
            Mutation::Replace { id } => MutationView::Replace { id: id.0 as nat },
        }
    }
}

/// The view of an edit log.
pub open spec fn log_view(log: Seq<Mutation>) -> Seq<MutationView> {
    log.map_values(|m: Mutation| m@)
}

/// Appending a mutation appends its view.
pub proof fn lemma_log_push(log: Seq<Mutation>, m: Mutation)
    ensures
        log_view(log.push(m)) == log_view(log).push(m@),
{
    assert(log_view(log.push(m)) =~= log_view(log).push(m@));
}

} // verus!
