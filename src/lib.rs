use vstd::prelude::*;

pub mod arena;
pub mod create;
pub mod diff;
pub mod mutation;
pub mod node;

pub use arena::{Arena, ElementId};
pub use mutation::Mutation;
pub use node::{Attribute, AttributeLocation, DynamicNode, Template, TemplateAttribute, TemplateNode, VTemplate};

use create::{attr_slot_log, attrs_log, create_count, create_log, creatable, created, set_attrs, texts_log};
use diff::{
    attr_changes, children_out, diff_out, diffable, diffed, lemma_children_grow, lemma_nodes_grow,
    node_diffable, node_diffed, node_out, nodes_out, slot_changes, slots_carried, slots_log, zip_len,
};
use mutation::{log_view, MutationView};

verus! {

/// A reconciler: it owns the identity allocator and emits edit logs.
pub struct VirtualDom {
    arena: Arena,
}

impl Default for VirtualDom {
    fn default() -> (r: VirtualDom)
        ensures
            r.next_id() == arena::FIRST_ID,
    {
        VirtualDom { arena: Arena::default() }
    }
}

/// Appends one `SetAttribute` per attribute of `attrs`, in order, on `id`.
fn push_set_attrs(mutations: &mut Vec<Mutation>, attrs: &Vec<Attribute>, id: ElementId)
    ensures
        log_view(final(mutations)@) == log_view(old(mutations)@) + set_attrs(attrs@, id.0 as nat),
{
    let ghost base = log_view(mutations@);
    let n = attrs.len();
    let mut k: usize = 0;
    while k < n
        invariant
            0 <= k <= n,
            n == attrs@.len(),
            log_view(mutations@) == base + set_attrs(attrs@.take(k as int), id.0 as nat),
        decreases n - k,
    {
        let attr = &attrs[k];
        let ghost prev = mutations@;
        mutations.push(Mutation::SetAttribute { name: attr.name.clone(), value: attr.value.clone(), id });
        proof {
            mutation::lemma_log_push(prev, mutations@.last());
        }
        assert(attrs@.take(k + 1) =~= attrs@.take(k as int).push(attrs@[k as int]));
        assert(set_attrs(attrs@.take(k + 1), id.0 as nat) =~= set_attrs(attrs@.take(k as int), id.0 as nat).push(
            MutationView::SetAttribute { name: attr.name@, value: attr.value@, id: id.0 as nat },
        ));
        assert(log_view(mutations@) =~= base + set_attrs(attrs@.take(k + 1), id.0 as nat));
        k = k + 1;
    }
    assert(attrs@.take(n as int) =~= attrs@);
}

/// Appends a `SetAttribute` for each compared attribute pair of the two slots
/// whose values differ: the new name and value, on the old slot's element.
fn push_attr_changes(mutations: &mut Vec<Mutation>, la: &AttributeLocation, ra: &AttributeLocation)
    ensures
        log_view(final(mutations)@) == log_view(old(mutations)@) + slot_changes(*la, *ra),
{
    let ghost base = log_view(mutations@);
    let n = if la.attrs.len() < ra.attrs.len() { la.attrs.len() } else { ra.attrs.len() };
    let mut k: usize = 0;
    while k < n
        invariant
            0 <= k <= n,
            n == zip_len(la.attrs@.len(), ra.attrs@.len()),
            log_view(mutations@) == base + attr_changes(*la, *ra, k as nat),
        decreases n - k,
    {
        let a = &la.attrs[k];
        let b = &ra.attrs[k];
        let same = a.value == b.value;
        if !same {
            let ghost prev = mutations@;
            mutations.push(
                Mutation::SetAttribute { name: b.name.clone(), value: b.value.clone(), id: la.mounted_element },
            );
            proof {
                mutation::lemma_log_push(prev, mutations@.last());
            }
        }
        k = k + 1;
    }
}

/// Diffs the attribute slots positionally and carries each compared slot's
/// element over from `ls` to `rs`.
fn diff_attr_slots(mutations: &mut Vec<Mutation>, ls: &Vec<AttributeLocation>, rs: &mut Vec<AttributeLocation>)
    ensures
        log_view(final(mutations)@) == log_view(old(mutations)@) + slots_log(
            ls@,
            old(rs)@,
            zip_len(ls@.len(), old(rs)@.len()),
        ),
        slots_carried(ls@, old(rs)@, final(rs)@),
{
    let ghost base = log_view(mutations@);
    let ghost rs0 = rs@;
    let n = if ls.len() < rs.len() { ls.len() } else { rs.len() };
    let mut i: usize = 0;
    while i < n
        invariant
            0 <= i <= n,
            n == zip_len(ls@.len(), rs0.len()),
            rs@.len() == rs0.len(),
            log_view(mutations@) == base + slots_log(ls@, rs0, i as nat),
            forall|j: int|
                0 <= j < i ==> {
                    &&& (#[trigger] rs@[j]).mounted_element == ls@[j].mounted_element
                    &&& rs@[j].attrs == rs0[j].attrs
                },
            forall|j: int| i <= j < rs0.len() ==> #[trigger] rs@[j] == rs0[j],
        decreases n - i,
    {
        push_attr_changes(mutations, &ls[i], &rs[i]);
        rs[i].mounted_element = ls[i].mounted_element;
        assert(log_view(mutations@) =~= base + slots_log(ls@, rs0, (i + 1) as nat));
        i = i + 1;
    }
}

impl VirtualDom {
    /// The identity that the next allocation hands out.
    pub closed spec fn next_id(&self) -> nat {
        self.arena.next_value()
    }

    /// Emits the edits that materialise `template` from nothing and assigns
    /// its identities.
    pub fn create<'a>(&mut self, mutations: &mut Vec<Mutation>, template: &mut VTemplate<'a>)
        requires
            creatable(*old(template)),
            old(self).next_id() + create_count(*old(template)) <= usize::MAX,
        ensures
            log_view(final(mutations)@) == log_view(old(mutations)@) + create_log(
                *old(template),
                old(self).next_id(),
            ),
            created(*old(template), *final(template), old(self).next_id()),
            final(self).next_id() == old(self).next_id() + create_count(*old(template)),
    {
        let ghost t0 = *template;
        let ghost c = self.next_id();
        let ghost base = log_view(mutations@);
        let id = self.arena.next();
        template.node_id = id;
        let ghost prev = mutations@;
        mutations.push(Mutation::LoadTemplate { name: template.template.id.clone(), id });
        proof {
            mutation::lemma_log_push(prev, mutations@.last());
        }
        assert(log_view(mutations@) =~= base + seq![
            MutationView::LoadTemplate { name: t0.template.id@, id: c },
        ]);

        let n_attrs = template.dynamic_attrs.len();
        let mut idx: usize = 0;
        while idx < n_attrs
            invariant
                creatable(t0),
                c + create_count(t0) <= usize::MAX,
                n_attrs == t0.dynamic_attrs@.len(),
                0 <= idx <= n_attrs,
                self.next_id() == c + 1 + idx,
                log_view(mutations@) == base + seq![
                    MutationView::LoadTemplate { name: t0.template.id@, id: c },
                ] + attrs_log(t0, idx as nat, c + 1),
                template.template == t0.template,
                template.node_id.0 == c,
                template.dynamic_nodes == t0.dynamic_nodes,
                template.dynamic_attrs@.len() == n_attrs,
                forall|i: int|
                    0 <= i < idx ==> {
                        &&& (#[trigger] template.dynamic_attrs@[i]).mounted_element.0 == c + 1 + i
                        &&& template.dynamic_attrs@[i].attrs == t0.dynamic_attrs@[i].attrs
                    },
                forall|i: int|
                    idx <= i < n_attrs ==> #[trigger] template.dynamic_attrs@[i] == t0.dynamic_attrs@[i],
            decreases n_attrs - idx,
        {
            let ghost before = log_view(mutations@);
            let id = self.arena.next();
            let path = template.template.attr_pathways[idx].clone();
            assert(path@ =~= t0.template.attr_pathways@[idx as int]@);
            let ghost prev = mutations@;
            mutations.push(Mutation::AssignId { path, id });
            proof {
                mutation::lemma_log_push(prev, mutations@.last());
            }
            push_set_attrs(mutations, &template.dynamic_attrs[idx].attrs, id);
            proof {
                assert(attr_slot_log(t0, idx as int, id.0 as nat) =~= seq![
                    MutationView::AssignId { path: t0.template.attr_pathways@[idx as int]@, id: id.0 as nat },
                ] + set_attrs(t0.dynamic_attrs@[idx as int].attrs@, id.0 as nat));
                assert(log_view(mutations@) =~= before + attr_slot_log(t0, idx as int, id.0 as nat));
            }
            template.dynamic_attrs[idx].mounted_element = id;
            idx = idx + 1;
        }

        let n_nodes = template.dynamic_nodes.len();
        let mut idx: usize = 0;
        while idx < n_nodes
            invariant
                creatable(t0),
                c + create_count(t0) <= usize::MAX,
                n_nodes == t0.dynamic_nodes@.len(),
                0 <= idx <= n_nodes,
                self.next_id() == c + 1 + n_attrs + idx,
                n_attrs == t0.dynamic_attrs@.len(),
                log_view(mutations@) == base + seq![
                    MutationView::LoadTemplate { name: t0.template.id@, id: c },
                ] + attrs_log(t0, n_attrs as nat, c + 1) + texts_log(t0, (c + 1 + n_attrs) as nat).take(idx as int),
                template.template == t0.template,
                template.node_id.0 == c,
                template.dynamic_attrs@.len() == n_attrs,
                forall|i: int|
                    0 <= i < n_attrs ==> {
                        &&& (#[trigger] template.dynamic_attrs@[i]).mounted_element.0 == c + 1 + i
                        &&& template.dynamic_attrs@[i].attrs == t0.dynamic_attrs@[i].attrs
                    },
                template.dynamic_nodes@.len() == n_nodes,
                forall|j: int|
                    0 <= j < idx ==> {
                        &&& (#[trigger] template.dynamic_nodes@[j]) is Text
                        &&& template.dynamic_nodes@[j]->value == t0.dynamic_nodes@[j]->value
                        &&& template.dynamic_nodes@[j]->id.0 == c + 1 + n_attrs + j
                    },
                forall|j: int|
                    idx <= j < n_nodes ==> #[trigger] template.dynamic_nodes@[j] == t0.dynamic_nodes@[j],
            decreases n_nodes - idx,
        {
            let ghost before = log_view(mutations@);
            let id = self.arena.next();
            let path = template.template.node_pathways[idx].clone();
            assert(path@ =~= t0.template.node_pathways@[idx as int]@);
            let ghost prev = mutations@;
            match &mut template.dynamic_nodes[idx] {
                DynamicNode::Text { value, id: slot } => {
                    *slot = id;
                    mutations.push(Mutation::HydrateText { path, value: value.clone(), id });
                    proof {
                        mutation::lemma_log_push(prev, mutations@.last());
                    }
                },
                // a creatable instance holds text in every node slot
                _ => {},
            }
            assert(texts_log(t0, (c + 1 + n_attrs) as nat).take(idx + 1) =~= texts_log(t0, (c + 1 + n_attrs) as nat).take(
                idx as int,
            ).push(texts_log(t0, (c + 1 + n_attrs) as nat)[idx as int]));
            idx = idx + 1;
        }
        assert(texts_log(t0, (c + 1 + n_attrs) as nat).take(n_nodes as int) =~= texts_log(t0, (c + 1 + n_attrs) as nat));
    }

    /// Emits the edits that turn what `left` produced into what `right`
    /// describes, and fills `right`'s identities: carried over from `left`
    /// where the template is the same, freshly created where it is not.
    pub fn diff<'a>(&mut self, mutations: &mut Vec<Mutation>, left: &VTemplate<'a>, right: &mut VTemplate<'a>)
        requires
            diffable(*left, *old(right)),
            diff_out(*left, *old(right), old(self).next_id()).1 <= usize::MAX,
        ensures
            log_view(final(mutations)@) == log_view(old(mutations)@) + diff_out(
                *left,
                *old(right),
                old(self).next_id(),
            ).0,
            diffed(*left, *old(right), *final(right), old(self).next_id()),
            final(self).next_id() == diff_out(*left, *old(right), old(self).next_id()).1,
        decreases left,
    {
        let same = left.template.id == right.template.id;
        if !same {
            self.create(mutations, right);
            let ghost prev = mutations@;
            mutations.push(Mutation::Replace { id: left.node_id });
            proof {
                mutation::lemma_log_push(prev, mutations@.last());
            }
            return;
        }
        right.node_id = left.node_id;
        diff_attr_slots(mutations, &left.dynamic_attrs, &mut right.dynamic_attrs);
        self.diff_nodes(mutations, &left.dynamic_nodes, &mut right.dynamic_nodes);
    }

    /// Diffs the node slots positionally.
    #[verifier::rlimit(40)]
    fn diff_nodes<'a>(&mut self, mutations: &mut Vec<Mutation>, ls: &Vec<DynamicNode<'a>>, rs: &mut Vec<DynamicNode<'a>>)
        requires
            forall|j: int|
                0 <= j < zip_len(ls@.len(), old(rs)@.len()) ==> node_diffable(#[trigger] ls@[j], old(rs)@[j]),
            nodes_out(ls@, old(rs)@, zip_len(ls@.len(), old(rs)@.len()), old(self).next_id()).1 <= usize::MAX,
        ensures
            log_view(final(mutations)@) == log_view(old(mutations)@) + nodes_out(
                ls@,
                old(rs)@,
                zip_len(ls@.len(), old(rs)@.len()),
                old(self).next_id(),
            ).0,
            final(self).next_id() == nodes_out(
                ls@,
                old(rs)@,
                zip_len(ls@.len(), old(rs)@.len()),
                old(self).next_id(),
            ).1,
            final(rs)@.len() == old(rs)@.len(),
            forall|j: int|
                0 <= j < zip_len(ls@.len(), old(rs)@.len()) ==> node_diffed(
                    #[trigger] ls@[j],
                    old(rs)@[j],
                    final(rs)@[j],
                    nodes_out(ls@, old(rs)@, j as nat, old(self).next_id()).1,
                ),
            forall|j: int|
                zip_len(ls@.len(), old(rs)@.len()) <= j < old(rs)@.len() ==> #[trigger] final(rs)@[j] == old(rs)@[j],
        decreases ls,
    {
        let ghost base = log_view(mutations@);
        let ghost rs0 = rs@;
        let ghost c = self.next_id();
        let n = if ls.len() < rs.len() { ls.len() } else { rs.len() };
        proof {
            lemma_nodes_grow(ls@, rs0, n as nat, c);
        }
        let mut i: usize = 0;
        while i < n
            invariant
                0 <= i <= n,
                n == zip_len(ls@.len(), rs0.len()),
                forall|j: int| 0 <= j < n ==> node_diffable(#[trigger] ls@[j], rs0[j]),
                nodes_out(ls@, rs0, n as nat, c).1 <= usize::MAX,
                forall|m: nat| m <= n ==> #[trigger] nodes_out(ls@, rs0, m, c).1 <= nodes_out(ls@, rs0, n as nat, c).1,
                rs@.len() == rs0.len(),
                log_view(mutations@) == base + nodes_out(ls@, rs0, i as nat, c).0,
                self.next_id() == nodes_out(ls@, rs0, i as nat, c).1,
                forall|j: int|
                    0 <= j < i ==> node_diffed(
                        #[trigger] ls@[j],
                        rs0[j],
                        rs@[j],
                        nodes_out(ls@, rs0, j as nat, c).1,
                    ),
                forall|j: int| i <= j < rs0.len() ==> #[trigger] rs@[j] == rs0[j],
            decreases n - i,
        {
            assert(nodes_out(ls@, rs0, (i + 1) as nat, c).1 <= nodes_out(ls@, rs0, n as nat, c).1);
            self.diff_node(mutations, &ls[i], &mut rs[i]);
            assert(log_view(mutations@) =~= base + nodes_out(ls@, rs0, (i + 1) as nat, c).0);
            i = i + 1;
        }
    }

    /// Diffs one node slot: text identities are carried over, and a changed
    /// text emits `SetText`; fragments are diffed child by child.
    fn diff_node<'a>(&mut self, mutations: &mut Vec<Mutation>, ln: &DynamicNode<'a>, rn: &mut DynamicNode<'a>)
        requires
            node_diffable(*ln, *old(rn)),
            node_out(*ln, *old(rn), old(self).next_id()).1 <= usize::MAX,
        ensures
            log_view(final(mutations)@) == log_view(old(mutations)@) + node_out(*ln, *old(rn), old(self).next_id()).0,
            final(self).next_id() == node_out(*ln, *old(rn), old(self).next_id()).1,
            node_diffed(*ln, *old(rn), *final(rn), old(self).next_id()),
        decreases ln,
    {
        match ln {
            DynamicNode::Text { value: v1, id: id1 } => {
                match rn {
                    DynamicNode::Text { value: v2, id: id2 } => {
                        *id2 = *id1;
                        let same = *v1 == *v2;
                        if !same {
                            let ghost prev = mutations@;
                            mutations.push(Mutation::SetText { value: v2.clone(), id: *id1 });
                            proof {
                                mutation::lemma_log_push(prev, mutations@.last());
                            }
                        }
                    },
                    _ => {},
                }
            },
            DynamicNode::Fragment { children: c1 } => {
                match rn {
                    DynamicNode::Fragment { children: c2 } => {
                        self.diff_children(mutations, c1, c2);
                    },
                    _ => {},
                }
            },
            _ => {},
        }
    }

    /// Diffs the children of two fragments pair by pair.
    fn diff_children<'a>(&mut self, mutations: &mut Vec<Mutation>, ls: &Vec<VTemplate<'a>>, rs: &mut Vec<VTemplate<'a>>)
        requires
            forall|i: int| 0 <= i < zip_len(ls@.len(), old(rs)@.len()) ==> diffable(#[trigger] ls@[i], old(rs)@[i]),
            children_out(ls@, old(rs)@, zip_len(ls@.len(), old(rs)@.len()), old(self).next_id()).1 <= usize::MAX,
        ensures
            log_view(final(mutations)@) == log_view(old(mutations)@) + children_out(
                ls@,
                old(rs)@,
                zip_len(ls@.len(), old(rs)@.len()),
                old(self).next_id(),
            ).0,
            final(self).next_id() == children_out(
                ls@,
                old(rs)@,
                zip_len(ls@.len(), old(rs)@.len()),
                old(self).next_id(),
            ).1,
            final(rs)@.len() == old(rs)@.len(),
            forall|i: int|
                0 <= i < zip_len(ls@.len(), old(rs)@.len()) ==> diffed(
                    #[trigger] ls@[i],
                    old(rs)@[i],
                    final(rs)@[i],
                    children_out(ls@, old(rs)@, i as nat, old(self).next_id()).1,
                ),
            forall|i: int|
                zip_len(ls@.len(), old(rs)@.len()) <= i < old(rs)@.len() ==> #[trigger] final(rs)@[i] == old(rs)@[i],
        decreases ls,
    {
        let ghost base = log_view(mutations@);
        let ghost rs0 = rs@;
        let ghost c = self.next_id();
        let n = if ls.len() < rs.len() { ls.len() } else { rs.len() };
        proof {
            lemma_children_grow(ls@, rs0, n as nat, c);
        }
        let mut k: usize = 0;
        while k < n
            invariant
                0 <= k <= n,
                n == zip_len(ls@.len(), rs0.len()),
                forall|i: int| 0 <= i < n ==> diffable(#[trigger] ls@[i], rs0[i]),
                children_out(ls@, rs0, n as nat, c).1 <= usize::MAX,
                forall|m: nat| m <= n ==> #[trigger] children_out(ls@, rs0, m, c).1 <= children_out(ls@, rs0, n as nat, c).1,
                rs@.len() == rs0.len(),
                log_view(mutations@) == base + children_out(ls@, rs0, k as nat, c).0,
                self.next_id() == children_out(ls@, rs0, k as nat, c).1,
                forall|i: int|
                    0 <= i < k ==> diffed(
                        #[trigger] ls@[i],
                        rs0[i],
                        rs@[i],
                        children_out(ls@, rs0, i as nat, c).1,
                    ),
                forall|i: int| k <= i < rs0.len() ==> #[trigger] rs@[i] == rs0[i],
            decreases n - k,
        {
            assert(children_out(ls@, rs0, (k + 1) as nat, c).1 <= children_out(ls@, rs0, n as nat, c).1);
            self.diff(mutations, &ls[k], &mut rs[k]);
            assert(log_view(mutations@) =~= base + children_out(ls@, rs0, (k + 1) as nat, c).0);
            k = k + 1;
        }
    }
}

} // verus!
