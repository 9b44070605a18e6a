use vstd::prelude::*;

use crate::arena::ElementId;
use crate::mutation::MutationView;
use crate::node::{text_of, Attribute, DynamicNode, VTemplate};

verus! {

/// The instance can be created: its value lists match the template's path
/// tables and every node slot holds text.
pub open spec fn creatable(t: VTemplate) -> bool {
    &&& t.template.attr_pathways@.len() == t.dynamic_attrs@.len()
    &&& t.template.node_pathways@.len() == t.dynamic_nodes@.len()
    &&& forall|j: int| 0 <= j < t.dynamic_nodes@.len() ==> #[trigger] t.dynamic_nodes@[j] is Text
}

/// How many identities creating `t` takes: the root, one per attribute slot,
/// one per text slot.
pub open spec fn create_count(t: VTemplate) -> nat {
    1 + t.dynamic_attrs@.len() + t.dynamic_nodes@.len()
}

/// One `SetAttribute` per attribute, in order, on element `id`.
pub open spec fn set_attrs(attrs: Seq<Attribute>, id: nat) -> Seq<MutationView> {
    attrs.map_values(|a: Attribute| MutationView::SetAttribute { name: a.name@, value: a.value@, id })
}

/// What creating attribute slot `i` emits when it is bound to `id`.
pub open spec fn attr_slot_log(t: VTemplate, i: int, id: nat) -> Seq<MutationView> {
    seq![MutationView::AssignId { path: t.template.attr_pathways@[i]@, id }]
        + set_attrs(t.dynamic_attrs@[i].attrs@, id)
}

/// What creating the first `n` attribute slots emits, slot `i` bound to `first + i`.
pub open spec fn attrs_log(t: VTemplate, n: nat, first: nat) -> Seq<MutationView>
    decreases n,
{
    if n == 0 {
        Seq::empty()
    } else {
        attrs_log(t, (n - 1) as nat, first) + attr_slot_log(t, n - 1, (first + n - 1) as nat)
    }
}

/// One `HydrateText` per text slot, slot `j` bound to `first + j`.
pub open spec fn texts_log(t: VTemplate, first: nat) -> Seq<MutationView> {
    Seq::new(
        t.dynamic_nodes@.len(),
        |j: int|
            MutationView::HydrateText {
                path: t.template.node_pathways@[j]@,
                value: text_of(t.dynamic_nodes@[j]),
                id: (first + j) as nat,
            },
    )
}

/// The edit log that creating `t` emits when the allocator's next identity is `c`.
pub open spec fn create_log(t: VTemplate, c: nat) -> Seq<MutationView> {
    seq![MutationView::LoadTemplate { name: t.template.id@, id: c }]
        + attrs_log(t, t.dynamic_attrs@.len(), c + 1)
        + texts_log(t, c + 1 + t.dynamic_attrs@.len())
}

/// `t2` is `t` with its identities assigned from `c` on: the root first, then
/// the attribute slots, then the text slots, each in order.
pub open spec fn created(t: VTemplate, t2: VTemplate, c: nat) -> bool {
    let a = t.dynamic_attrs@.len();
    &&& t2.template == t.template
    &&& t2.node_id.0 == c
    &&& t2.dynamic_attrs@.len() == a
    &&& forall|i: int|
        0 <= i < a ==> {
            &&& (#[trigger] t2.dynamic_attrs@[i]).mounted_element.0 == c + 1 + i
            &&& t2.dynamic_attrs@[i].attrs == t.dynamic_attrs@[i].attrs
        }
    &&& t2.dynamic_nodes@.len() == t.dynamic_nodes@.len()
    &&& forall|j: int|
        0 <= j < t.dynamic_nodes@.len() ==> {
            &&& (#[trigger] t2.dynamic_nodes@[j]) is Text
            &&& t2.dynamic_nodes@[j]->value == t.dynamic_nodes@[j]->value
            &&& t2.dynamic_nodes@[j]->id.0 == c + 1 + a + j
        }
}

/// The identities of a created instance: the root, then the attribute slots
/// elements, then the text slots, in order.
pub open spec fn created_ids(t: VTemplate) -> Seq<nat> {
    seq![t.node_id.0 as nat]
        + Seq::new(t.dynamic_attrs@.len(), |i: int| t.dynamic_attrs@[i].mounted_element.0 as nat)
        + Seq::new(t.dynamic_nodes@.len(), |j: int| t.dynamic_nodes@[j]->id.0 as nat)
}

/// No attribute slot emits a `LoadTemplate`.
proof fn lemma_attrs_log_no_load(t: VTemplate, n: nat, first: nat)
    ensures
        forall|k: int| 0 <= k < attrs_log(t, n, first).len() ==> !(#[trigger] attrs_log(t, n, first)[k] is LoadTemplate),
    decreases n,
{
    if n > 0 {
        lemma_attrs_log_no_load(t, (n - 1) as nat, first);
        let prev = attrs_log(t, (n - 1) as nat, first);
        let slot = attr_slot_log(t, n - 1, (first + n - 1) as nat);
        assert(attrs_log(t, n, first) == prev + slot);
        assert forall|k: int| 0 <= k < slot.len() implies !(#[trigger] slot[k] is LoadTemplate) by {
            if k > 0 {
                assert(slot[k] == set_attrs(t.dynamic_attrs@[n - 1].attrs@, (first + n - 1) as nat)[k - 1]);
            }
        }
    }
}

/// Creating an instance emits exactly one `LoadTemplate`, first, naming the
/// template and bound to the root identity; it ends with one `HydrateText` per
/// text slot, in slot order.
pub proof fn lemma_create_log_shape(t: VTemplate, c: nat)
    requires
        creatable(t),
    ensures
        create_log(t, c)[0] == (MutationView::LoadTemplate { name: t.template.id@, id: c }),
        forall|k: int| 1 <= k < create_log(t, c).len() ==> !(#[trigger] create_log(t, c)[k] is LoadTemplate),
        create_log(t, c).len() >= 1 + t.dynamic_nodes@.len(),
        forall|j: int|
            0 <= j < t.dynamic_nodes@.len() ==> #[trigger] create_log(t, c)[create_log(t, c).len() - t.dynamic_nodes@.len() + j]
                == (MutationView::HydrateText {
                path: t.template.node_pathways@[j]@,
                value: text_of(t.dynamic_nodes@[j]),
                id: (c + 1 + t.dynamic_attrs@.len() + j) as nat,
            }),
{
    let a = attrs_log(t, t.dynamic_attrs@.len(), c + 1);
    let x = texts_log(t, c + 1 + t.dynamic_attrs@.len());
    lemma_attrs_log_no_load(t, t.dynamic_attrs@.len(), c + 1);
    let log = create_log(t, c);
    assert(log == seq![MutationView::LoadTemplate { name: t.template.id@, id: c }] + a + x);
    assert forall|k: int| 1 <= k < log.len() implies !(#[trigger] log[k] is LoadTemplate) by {
        if k < 1 + a.len() {
            assert(log[k] == a[k - 1]);
        } else {
            assert(log[k] == x[k - 1 - a.len()]);
        }
    }
}

/// Creation gives every identity cell a distinct value, all at or past the
/// allocator's position `c` and before its position afterwards; so they
/// differ from every identity that an earlier creation handed out.
pub proof fn lemma_created_ids_fresh(t: VTemplate, t2: VTemplate, c: nat)
    requires
        creatable(t),
        created(t, t2, c),
    ensures
        created_ids(t2).len() == create_count(t),
        created_ids(t2).no_duplicates(),
        forall|k: int| 0 <= k < created_ids(t2).len() ==> #[trigger] created_ids(t2)[k] == c + k,
        forall|k: int|
            0 <= k < created_ids(t2).len() ==> c <= #[trigger] created_ids(t2)[k] < c + create_count(t),
{
    let ids = created_ids(t2);
    let a = t.dynamic_attrs@.len();
    assert forall|k: int| 0 <= k < ids.len() implies #[trigger] ids[k] == c + k by {
        if 1 <= k < 1 + a {
            assert(t2.dynamic_attrs@[k - 1].mounted_element.0 == c + 1 + (k - 1));
        } else if k >= 1 + a {
            assert(t2.dynamic_nodes@[k - 1 - a]->id.0 == c + 1 + a + (k - 1 - a));
        }
    }
}

/// Two creations at disjoint allocator ranges hand out disjoint identities.
pub proof fn lemma_created_ids_disjoint(t: VTemplate, t2: VTemplate, c: nat, u: VTemplate, u2: VTemplate, d: nat)
    requires
        creatable(t),
        created(t, t2, c),
        creatable(u),
        created(u, u2, d),
        c + create_count(t) <= d,
    ensures
        forall|i: int, k: int|
            0 <= i < created_ids(t2).len() && 0 <= k < created_ids(u2).len() ==> #[trigger] created_ids(t2)[i]
                != #[trigger] created_ids(u2)[k],
{
    lemma_created_ids_fresh(t, t2, c);
    lemma_created_ids_fresh(u, u2, d);
}

} // verus!
