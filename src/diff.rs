use vstd::prelude::*;

use crate::create::{create_count, create_log, creatable, created};
use crate::mutation::MutationView;
use crate::node::{AttributeLocation, DynamicNode, VTemplate};

verus! {

/// How many positions two lists are compared at: the shorter length.
pub open spec fn zip_len(a: nat, b: nat) -> nat {
    if a < b { a } else { b }
}

/// Changes between the first `k` attribute pairs of two slots: one
/// `SetAttribute` with the new name and value on the old slot's element for
/// each pair whose values differ.
pub open spec fn attr_changes(la: AttributeLocation, ra: AttributeLocation, k: nat) -> Seq<MutationView>
    decreases k,
{
    if k == 0 {
        Seq::empty()
    } else {
        let prev = attr_changes(la, ra, (k - 1) as nat);
        let a = la.attrs@[k - 1];
        let b = ra.attrs@[k - 1];
        if a.value@ != b.value@ {
            prev.push(
                MutationView::SetAttribute { name: b.name@, value: b.value@, id: la.mounted_element.0 as nat },
            )
        } else {
            prev
        }
    }
}

/// Changes between two attribute slots, compared positionally.
pub open spec fn slot_changes(la: AttributeLocation, ra: AttributeLocation) -> Seq<MutationView> {
    attr_changes(la, ra, zip_len(la.attrs@.len(), ra.attrs@.len()))
}

/// Changes between the first `n` attribute slots of two instances.
pub open spec fn slots_log(ls: Seq<AttributeLocation>, rs: Seq<AttributeLocation>, n: nat) -> Seq<MutationView>
    decreases n,
{
    if n == 0 {
        Seq::empty()
    } else {
        slots_log(ls, rs, (n - 1) as nat) + slot_changes(ls[n - 1], rs[n - 1])
    }
}

/// `rs2` is `rs` with the elements of the first `zip_len` slots carried over from `ls`.
pub open spec fn slots_carried(ls: Seq<AttributeLocation>, rs: Seq<AttributeLocation>, rs2: Seq<AttributeLocation>) -> bool {
    let n = zip_len(ls.len(), rs.len());
    &&& rs2.len() == rs.len()
    &&& forall|i: int|
        0 <= i < n ==> {
            &&& (#[trigger] rs2[i]).mounted_element == ls[i].mounted_element
            &&& rs2[i].attrs == rs[i].attrs
        }
    &&& forall|i: int| n <= i < rs.len() ==> #[trigger] rs2[i] == rs[i]
}

/// Diff of `l` into `r` when the allocator's next identity is `c`: the edit
/// log and the allocator's next identity afterwards.
pub open spec fn diff_out(l: VTemplate, r: VTemplate, c: nat) -> (Seq<MutationView>, nat)
    decreases l, 0nat,
{
    if l.template.id@ != r.template.id@ {
        (create_log(r, c).push(MutationView::Replace { id: l.node_id.0 as nat }), c + create_count(r))
    } else {
        let na = zip_len(l.dynamic_attrs@.len(), r.dynamic_attrs@.len());
        let nn = zip_len(l.dynamic_nodes@.len(), r.dynamic_nodes@.len());
        let nodes = nodes_out(l.dynamic_nodes@, r.dynamic_nodes@, nn, c);
        (slots_log(l.dynamic_attrs@, r.dynamic_attrs@, na) + nodes.0, nodes.1)
    }
}

/// Diff of the first `n` node slots.
pub open spec fn nodes_out(ls: Seq<DynamicNode>, rs: Seq<DynamicNode>, n: nat, c: nat) -> (Seq<MutationView>, nat)
    decreases ls, n,
{
    if n == 0 || n > ls.len() || n > rs.len() {
        (Seq::empty(), c)
    } else {
        let prev = nodes_out(ls, rs, (n - 1) as nat, c);
        let last = node_out(ls[n - 1], rs[n - 1], prev.1);
        (prev.0 + last.0, last.1)
    }
}

/// Diff of one node slot.
pub open spec fn node_out(ln: DynamicNode, rn: DynamicNode, c: nat) -> (Seq<MutationView>, nat)
    decreases ln, 0nat,
{
    match ln {
        DynamicNode::Text { value: v1, id: id1 } => match rn {
            DynamicNode::Text { value: v2, .. } => if v1@ != v2@ {
                (seq![MutationView::SetText { value: v2@, id: id1.0 as nat }], c)
            } else {
                (Seq::empty(), c)
            },
            _ => (Seq::empty(), c),
        },
        DynamicNode::Fragment { children: c1 } => match rn {
            DynamicNode::Fragment { children: c2 } => children_out(
                c1@,
                c2@,
                zip_len(c1@.len(), c2@.len()),
                c,
            ),
            _ => (Seq::empty(), c),
        },
        _ => (Seq::empty(), c),
    }
}

/// Diff of the first `k` children of two fragments, pair by pair.
pub open spec fn children_out(ls: Seq<VTemplate>, rs: Seq<VTemplate>, k: nat, c: nat) -> (Seq<MutationView>, nat)
    decreases ls, k,
{
    if k == 0 || k > ls.len() || k > rs.len() {
        (Seq::empty(), c)
    } else {
        let prev = children_out(ls, rs, (k - 1) as nat, c);
        let last = diff_out(ls[k - 1], rs[k - 1], prev.1);
        (prev.0 + last.0, last.1)
    }
}

/// `l` and `r` can be diffed: a changed template leaves `r` creatable, and
/// otherwise every compared node pair is text/text or fragment/fragment, with
/// diffable children.
pub open spec fn diffable(l: VTemplate, r: VTemplate) -> bool
    decreases l, 0nat,
{
    if l.template.id@ != r.template.id@ {
        creatable(r)
    } else {
        let nn = zip_len(l.dynamic_nodes@.len(), r.dynamic_nodes@.len());
        forall|j: int| 0 <= j < nn ==> node_diffable(#[trigger] l.dynamic_nodes@[j], r.dynamic_nodes@[j])
    }
}

/// One node pair can be diffed.
pub open spec fn node_diffable(ln: DynamicNode, rn: DynamicNode) -> bool
    decreases ln, 0nat,
{
    match ln {
        DynamicNode::Text { .. } => rn is Text,
        DynamicNode::Fragment { children: c1 } => match rn {
            DynamicNode::Fragment { children: c2 } => {
                let k = zip_len(c1@.len(), c2@.len());
                forall|i: int| 0 <= i < k ==> diffable(#[trigger] c1@[i], c2@[i])
            },
            _ => false,
        },
        _ => false,
    }
}

/// `r2` is what diffing `l` into `r` leaves in place of `r`, the allocator's
/// next identity being `c`: on a changed template, `r` created from `c`; else
/// `r` with the root, the attribute elements and the text identities carried
/// over from `l`, and fragments diffed child by child.
pub open spec fn diffed(l: VTemplate, r: VTemplate, r2: VTemplate, c: nat) -> bool
    decreases l, 0nat,
{
    if l.template.id@ != r.template.id@ {
        created(r, r2, c)
    } else {
        let nn = zip_len(l.dynamic_nodes@.len(), r.dynamic_nodes@.len());
        &&& r2.template == r.template
        &&& r2.node_id == l.node_id
        &&& slots_carried(l.dynamic_attrs@, r.dynamic_attrs@, r2.dynamic_attrs@)
        &&& r2.dynamic_nodes@.len() == r.dynamic_nodes@.len()
        &&& forall|j: int|
            0 <= j < nn ==> node_diffed(
                #[trigger] l.dynamic_nodes@[j],
                r.dynamic_nodes@[j],
                r2.dynamic_nodes@[j],
                nodes_out(l.dynamic_nodes@, r.dynamic_nodes@, j as nat, c).1,
            )
        &&& forall|j: int| nn <= j < r.dynamic_nodes@.len() ==> #[trigger] r2.dynamic_nodes@[j] == r.dynamic_nodes@[j]
    }
}

/// What diffing one node pair leaves in place of `rn`.
pub open spec fn node_diffed(ln: DynamicNode, rn: DynamicNode, rn2: DynamicNode, c: nat) -> bool
    decreases ln, 0nat,
{
    match ln {
        DynamicNode::Text { id: id1, .. } => match rn {
            DynamicNode::Text { value: v2, .. } => rn2 == DynamicNode::Text { value: v2, id: id1 },
            _ => rn2 == rn,
        },
        DynamicNode::Fragment { children: c1 } => match rn {
            DynamicNode::Fragment { children: c2 } => match rn2 {
                DynamicNode::Fragment { children: c3 } => {
                    let k = zip_len(c1@.len(), c2@.len());
                    &&& c3@.len() == c2@.len()
                    &&& forall|i: int|
                        0 <= i < k ==> diffed(
                            #[trigger] c1@[i],
                            c2@[i],
                            c3@[i],
                            children_out(c1@, c2@, i as nat, c).1,
                        )
                    &&& forall|i: int| k <= i < c2@.len() ==> #[trigger] c3@[i] == c2@[i]
                },
                _ => false,
            },
            _ => rn2 == rn,
        },
        _ => rn2 == rn,
    }
}

/// Diffing never moves the allocator backwards.
pub proof fn lemma_diff_grows(l: VTemplate, r: VTemplate, c: nat)
    ensures
        diff_out(l, r, c).1 >= c,
    decreases l, 0nat,
{
    if l.template.id@ == r.template.id@ {
        let nn = zip_len(l.dynamic_nodes@.len(), r.dynamic_nodes@.len());
        lemma_nodes_grow(l.dynamic_nodes@, r.dynamic_nodes@, nn, c);
    }
}

/// The allocator position after a prefix of node slots grows with the prefix.
pub proof fn lemma_nodes_grow(ls: Seq<DynamicNode>, rs: Seq<DynamicNode>, n: nat, c: nat)
    requires
        n <= ls.len(),
        n <= rs.len(),
    ensures
        nodes_out(ls, rs, n, c).1 >= c,
        forall|m: nat| m <= n ==> #[trigger] nodes_out(ls, rs, m, c).1 <= nodes_out(ls, rs, n, c).1,
    decreases ls, n,
{
    if n > 0 {
        lemma_nodes_grow(ls, rs, (n - 1) as nat, c);
        lemma_node_grows(ls[n - 1], rs[n - 1], nodes_out(ls, rs, (n - 1) as nat, c).1);
    }
}

/// Diffing one node pair never moves the allocator backwards.
pub proof fn lemma_node_grows(ln: DynamicNode, rn: DynamicNode, c: nat)
    ensures
        node_out(ln, rn, c).1 >= c,
    decreases ln, 0nat,
{
    match ln {
        DynamicNode::Fragment { children: c1 } => match rn {
            DynamicNode::Fragment { children: c2 } => {
                lemma_children_grow(c1@, c2@, zip_len(c1@.len(), c2@.len()), c);
            },
            _ => {},
        },
        _ => {},
    }
}

/// The allocator position after a prefix of children grows with the prefix.
pub proof fn lemma_children_grow(ls: Seq<VTemplate>, rs: Seq<VTemplate>, k: nat, c: nat)
    requires
        k <= ls.len(),
        k <= rs.len(),
    ensures
        children_out(ls, rs, k, c).1 >= c,
        forall|m: nat| m <= k ==> #[trigger] children_out(ls, rs, m, c).1 <= children_out(ls, rs, k, c).1,
    decreases ls, k,
{
    if k > 0 {
        lemma_children_grow(ls, rs, (k - 1) as nat, c);
        lemma_diff_grows(ls[k - 1], rs[k - 1], children_out(ls, rs, (k - 1) as nat, c).1);
    }
}

/// Equal attribute pairs emit nothing.
proof fn lemma_attr_changes_self(la: AttributeLocation, k: nat)
    ensures
        attr_changes(la, la, k) == Seq::<MutationView>::empty(),
    decreases k,
{
    if k > 0 {
        lemma_attr_changes_self(la, (k - 1) as nat);
    }
}

/// Equal attribute slots emit nothing.
proof fn lemma_slots_log_self(ls: Seq<AttributeLocation>, n: nat)
    ensures
        slots_log(ls, ls, n) == Seq::<MutationView>::empty(),
    decreases n,
{
    if n > 0 {
        lemma_slots_log_self(ls, (n - 1) as nat);
        lemma_attr_changes_self(ls[n - 1], ls[n - 1].attrs@.len());
        assert(slots_log(ls, ls, n) =~= Seq::<MutationView>::empty());
    }
}

/// Diffing an instance against itself emits nothing and allocates nothing:
/// content-equal values never produce edits.
pub proof fn lemma_diff_self_quiet(x: VTemplate, c: nat)
    requires
        diffable(x, x),
    ensures
        diff_out(x, x, c) == (Seq::<MutationView>::empty(), c),
    decreases x, 0nat,
{
    lemma_slots_log_self(x.dynamic_attrs@, x.dynamic_attrs@.len());
    lemma_nodes_self_quiet(x.dynamic_nodes@, x.dynamic_nodes@.len(), c);
    assert(diff_out(x, x, c).0 =~= Seq::<MutationView>::empty());
}

/// A prefix of equal, diffable node slots emits nothing.
proof fn lemma_nodes_self_quiet(ls: Seq<DynamicNode>, n: nat, c: nat)
    requires
        n <= ls.len(),
        forall|j: int| 0 <= j < ls.len() ==> node_diffable(#[trigger] ls[j], ls[j]),
    ensures
        nodes_out(ls, ls, n, c) == (Seq::<MutationView>::empty(), c),
    decreases ls, n,
{
    if n > 0 {
        lemma_nodes_self_quiet(ls, (n - 1) as nat, c);
        lemma_node_self_quiet(ls[n - 1], c);
        assert(nodes_out(ls, ls, n, c).0 =~= Seq::<MutationView>::empty());
    }
}

/// An equal, diffable node pair emits nothing.
proof fn lemma_node_self_quiet(n: DynamicNode, c: nat)
    requires
        node_diffable(n, n),
    ensures
        node_out(n, n, c) == (Seq::<MutationView>::empty(), c),
    decreases n, 0nat,
{
    match n {
        DynamicNode::Fragment { children } => {
            lemma_children_self_quiet(children@, children@.len(), c);
        },
        _ => {},
    }
}

/// A prefix of equal, diffable children emits nothing.
proof fn lemma_children_self_quiet(ls: Seq<VTemplate>, k: nat, c: nat)
    requires
        k <= ls.len(),
        forall|i: int| 0 <= i < ls.len() ==> diffable(#[trigger] ls[i], ls[i]),
    ensures
        children_out(ls, ls, k, c) == (Seq::<MutationView>::empty(), c),
    decreases ls, k,
{
    if k > 0 {
        lemma_children_self_quiet(ls, (k - 1) as nat, c);
        lemma_diff_self_quiet(ls[k - 1], c);
        assert(children_out(ls, ls, k, c).0 =~= Seq::<MutationView>::empty());
    }
}

/// Two node slots hold the same content: texts with equal values (whatever
/// their identities), or the very same diffable node.
pub open spec fn node_unchanged(ln: DynamicNode, rn: DynamicNode) -> bool {
    ||| (ln is Text && rn is Text && ln->value@ == rn->value@)
    ||| (ln == rn && node_diffable(ln, rn))
}

/// Two attribute slot lists hold the same values at every position.
pub open spec fn attrs_unchanged(ls: Seq<AttributeLocation>, rs: Seq<AttributeLocation>) -> bool {
    &&& ls.len() == rs.len()
    &&& forall|i: int|
        0 <= i < ls.len() ==> {
            &&& (#[trigger] ls[i]).attrs@.len() == rs[i].attrs@.len()
            &&& forall|k: int| 0 <= k < ls[i].attrs@.len() ==> #[trigger] ls[i].attrs@[k].value@ == rs[i].attrs@[k].value@
        }
}

/// Attribute slots with equal values emit nothing.
proof fn lemma_slots_log_unchanged(ls: Seq<AttributeLocation>, rs: Seq<AttributeLocation>, n: nat)
    requires
        attrs_unchanged(ls, rs),
        n <= ls.len(),
    ensures
        slots_log(ls, rs, n) == Seq::<MutationView>::empty(),
    decreases n,
{
    if n > 0 {
        lemma_slots_log_unchanged(ls, rs, (n - 1) as nat);
        lemma_attr_changes_unchanged(ls[n - 1], rs[n - 1], ls[n - 1].attrs@.len());
        assert(slots_log(ls, rs, n) =~= Seq::<MutationView>::empty());
    }
}

proof fn lemma_attr_changes_unchanged(la: AttributeLocation, ra: AttributeLocation, k: nat)
    requires
        k <= la.attrs@.len(),
        la.attrs@.len() == ra.attrs@.len(),
        forall|i: int| 0 <= i < la.attrs@.len() ==> #[trigger] la.attrs@[i].value@ == ra.attrs@[i].value@,
    ensures
        attr_changes(la, ra, k) == Seq::<MutationView>::empty(),
    decreases k,
{
    if k > 0 {
        lemma_attr_changes_unchanged(la, ra, (k - 1) as nat);
    }
}

/// The node slots of `l` and `r` differ in the text of slot `i` alone.
pub open spec fn one_text_differs(ls: Seq<DynamicNode>, rs: Seq<DynamicNode>, i: int) -> bool {
    &&& ls.len() == rs.len()
    &&& 0 <= i < ls.len()
    &&& ls[i] is Text
    &&& rs[i] is Text
    &&& ls[i]->value@ != rs[i]->value@
    &&& forall|j: int| 0 <= j < ls.len() && j != i ==> node_unchanged(#[trigger] ls[j], rs[j])
}

proof fn lemma_nodes_one_text(ls: Seq<DynamicNode>, rs: Seq<DynamicNode>, i: int, n: nat, c: nat)
    requires
        one_text_differs(ls, rs, i),
        n <= ls.len(),
    ensures
        nodes_out(ls, rs, n, c) == (if n <= i {
            (Seq::<MutationView>::empty(), c)
        } else {
            (seq![MutationView::SetText { value: rs[i]->value@, id: ls[i]->id.0 as nat }], c)
        }),
    decreases n,
{
    if n > 0 {
        lemma_nodes_one_text(ls, rs, i, (n - 1) as nat, c);
        let j = n - 1;
        let last = node_out(ls[j], rs[j], c);
        if j != i {
            if ls[j] == rs[j] && node_diffable(ls[j], rs[j]) {
                lemma_node_self_quiet(ls[j], c);
            } else {
                assert(ls[j] is Text && rs[j] is Text && ls[j]->value@ == rs[j]->value@);
            }
            assert(last == (Seq::<MutationView>::empty(), c));
        } else {
            assert(last == (seq![MutationView::SetText { value: rs[i]->value@, id: ls[i]->id.0 as nat }], c));
        }
        assert(nodes_out(ls, rs, n, c).0 =~= (if n <= i {
            Seq::<MutationView>::empty()
        } else {
            seq![MutationView::SetText { value: rs[i]->value@, id: ls[i]->id.0 as nat }]
        }));
    }
}

/// Where two instances of one template differ in the text of one slot alone,
/// diffing them emits exactly one `SetText`, with the new text, on the
/// identity already bound in the old slot, and allocates nothing.
pub proof fn lemma_diff_one_text(l: VTemplate, r: VTemplate, i: int, c: nat)
    requires
        l.template.id@ == r.template.id@,
        attrs_unchanged(l.dynamic_attrs@, r.dynamic_attrs@),
        one_text_differs(l.dynamic_nodes@, r.dynamic_nodes@, i),
    ensures
        diffable(l, r),
        diff_out(l, r, c) == (
            seq![MutationView::SetText { value: r.dynamic_nodes@[i]->value@, id: l.dynamic_nodes@[i]->id.0 as nat }],
            c,
        ),
{
    let ls = l.dynamic_nodes@;
    let rs = r.dynamic_nodes@;
    assert forall|j: int| 0 <= j < ls.len() implies node_diffable(#[trigger] ls[j], rs[j]) by {
        if j != i {
            assert(node_unchanged(ls[j], rs[j]));
        }
    }
    lemma_slots_log_unchanged(l.dynamic_attrs@, r.dynamic_attrs@, l.dynamic_attrs@.len());
    lemma_nodes_one_text(ls, rs, i, ls.len(), c);
    assert(diff_out(l, r, c).0 =~= seq![
        MutationView::SetText { value: rs[i]->value@, id: ls[i]->id.0 as nat },
    ]);
}

/// Where the templates differ, diffing is creating the new instance followed
/// by one `Replace` of the old root, and leaves the new instance created.
pub proof fn lemma_diff_new_template(l: VTemplate, r: VTemplate, r2: VTemplate, c: nat)
    requires
        l.template.id@ != r.template.id@,
        diffed(l, r, r2, c),
    ensures
        diff_out(l, r, c).0 == create_log(r, c) + seq![MutationView::Replace { id: l.node_id.0 as nat }],
        diff_out(l, r, c).1 == c + create_count(r),
        created(r, r2, c),
{
    assert(create_log(r, c).push(MutationView::Replace { id: l.node_id.0 as nat }) =~= create_log(r, c) + seq![
        MutationView::Replace { id: l.node_id.0 as nat },
    ]);
}

} // verus!
