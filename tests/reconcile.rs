use template_dom::{
    Arena, Attribute, AttributeLocation, DynamicNode, ElementId, Mutation, Template, TemplateAttribute,
    TemplateNode, VTemplate, VirtualDom,
};

fn s(x: &str) -> String {
    x.to_string()
}

fn unassigned() -> ElementId {
    ElementId::default()
}

fn amazing_template() -> Template {
    let mut children = Vec::new();
    for _ in 0..10 {
        children.push(TemplateNode::Text(s("some basic text 123")));
    }
    children.push(TemplateNode::DynamicText(0));
    children.push(TemplateNode::DynamicText(1));
    children.push(TemplateNode::DynamicText(2));
    Template {
        id: s("123"),
        root: TemplateNode::Element {
            tag: s("div"),
            namespace: None,
            attrs: vec![
                TemplateAttribute { name: s("class"), value: s("an amazing class"), namespace: None, volatile: false },
                TemplateAttribute { name: s("id"), value: s("an amazing id"), namespace: None, volatile: false },
            ],
            children,
        },
        node_pathways: vec![vec![0], vec![1], vec![2]],
        attr_pathways: vec![vec![0]],
    }
}

fn text(value: &str, id: ElementId) -> DynamicNode<'static> {
    DynamicNode::Text { value: s(value), id }
}

fn hidden(value: &str, mounted_element: ElementId) -> AttributeLocation {
    AttributeLocation {
        mounted_element,
        attrs: vec![Attribute { name: s("hidden"), value: s(value), namespace: None }],
    }
}

fn instance<'a>(template: &'a Template, texts: [&str; 3], attr: Option<&str>) -> VTemplate<'a> {
    VTemplate {
        node_id: unassigned(),
        template,
        dynamic_nodes: vec![text(texts[0], unassigned()), text(texts[1], unassigned()), text(texts[2], unassigned())],
        dynamic_attrs: match attr {
            Some(v) => vec![hidden(v, unassigned())],
            None => vec![],
        },
    }
}

/// A copy of a flat instance of text slots, identities included.
fn copy_flat<'a>(t: &VTemplate<'a>) -> VTemplate<'a> {
    VTemplate {
        node_id: t.node_id,
        template: t.template,
        dynamic_nodes: t
            .dynamic_nodes
            .iter()
            .map(|n| match n {
                DynamicNode::Text { value, id } => DynamicNode::Text { value: value.clone(), id: *id },
                _ => panic!("only text slots are copied"),
            })
            .collect(),
        dynamic_attrs: t.dynamic_attrs.clone(),
    }
}

fn text_id(t: &VTemplate, j: usize) -> ElementId {
    match &t.dynamic_nodes[j] {
        DynamicNode::Text { id, .. } => *id,
        _ => panic!("not a text slot"),
    }
}

#[test]
fn makes_muts() {
    let mut dom = VirtualDom::default();
    let mut mutations = Vec::default();
    let schema = amazing_template();

    let mut template = instance(&schema, ["abc", "def", "efg"], Some("true"));

    dom.create(&mut mutations, &mut template);
    assert_eq!(
        mutations,
        vec![
            Mutation::LoadTemplate { name: s("123"), id: ElementId(2) },
            Mutation::AssignId { path: vec![0], id: ElementId(3) },
            Mutation::SetAttribute { name: s("hidden"), value: s("true"), id: ElementId(3) },
            Mutation::HydrateText { path: vec![0], value: s("abc"), id: ElementId(4) },
            Mutation::HydrateText { path: vec![1], value: s("def"), id: ElementId(5) },
            Mutation::HydrateText { path: vec![2], value: s("efg"), id: ElementId(6) },
        ]
    );
    mutations.clear();

    let mut same = copy_flat(&template);
    dom.diff(&mut mutations, &template, &mut same);
    assert!(mutations.is_empty());
    mutations.clear();

    let mut template_new = instance(&schema, ["bork", "def", "efg"], None);

    dom.diff(&mut mutations, &template, &mut template_new);
    assert_eq!(mutations, vec![Mutation::SetText { value: s("bork"), id: ElementId(4) }]);
    assert_eq!(template_new.node_id, ElementId(2));
    assert_eq!(text_id(&template_new, 0), ElementId(4));
    mutations.clear();
}

fn fragment_child<'a>(schema: &'a Template, value: &str) -> VTemplate<'a> {
    VTemplate {
        node_id: unassigned(),
        template: schema,
        dynamic_nodes: vec![text(value, unassigned())],
        dynamic_attrs: vec![],
    }
}

#[test]
fn fragments_too() {
    let item = Template {
        id: s("item"),
        root: TemplateNode::Element { tag: s("li"), namespace: None, attrs: vec![], children: vec![TemplateNode::DynamicText(0)] },
        node_pathways: vec![vec![0]],
        attr_pathways: vec![],
    };
    let other = Template {
        id: s("other"),
        root: TemplateNode::DynamicText(0),
        node_pathways: vec![vec![]],
        attr_pathways: vec![],
    };
    let list = Template {
        id: s("list"),
        root: TemplateNode::Element { tag: s("ul"), namespace: None, attrs: vec![], children: vec![TemplateNode::Dynamic(0)] },
        node_pathways: vec![vec![0]],
        attr_pathways: vec![],
    };

    let mut dom = VirtualDom::default();
    let mut mutations = Vec::new();

    let mut a = fragment_child(&item, "one");
    let mut b = fragment_child(&item, "two");
    dom.create(&mut mutations, &mut a);
    dom.create(&mut mutations, &mut b);
    mutations.clear();
    // a: root 2, text 3; b: root 4, text 5
    let left = VTemplate {
        node_id: ElementId(10),
        template: &list,
        dynamic_nodes: vec![DynamicNode::Fragment { children: vec![a, b] }],
        dynamic_attrs: vec![],
    };
    let mut right = VTemplate {
        node_id: unassigned(),
        template: &list,
        dynamic_nodes: vec![DynamicNode::Fragment {
            children: vec![fragment_child(&item, "uno"), fragment_child(&other, "dos")],
        }],
        dynamic_attrs: vec![],
    };

    dom.diff(&mut mutations, &left, &mut right);
    assert_eq!(
        mutations,
        vec![
            Mutation::SetText { value: s("uno"), id: ElementId(3) },
            Mutation::LoadTemplate { name: s("other"), id: ElementId(6) },
            Mutation::HydrateText { path: vec![], value: s("dos"), id: ElementId(7) },
            Mutation::Replace { id: ElementId(4) },
        ]
    );
    assert_eq!(right.node_id, ElementId(10));
    match &right.dynamic_nodes[0] {
        DynamicNode::Fragment { children } => {
            assert_eq!(children[0].node_id, ElementId(2));
            assert_eq!(text_id(&children[0], 0), ElementId(3));
            assert_eq!(children[1].node_id, ElementId(6));
            assert_eq!(text_id(&children[1], 0), ElementId(7));
        },
        _ => panic!("fragment expected"),
    }
}

#[test]
fn two_strs_same_ptr() {
    let schema = amazing_template();
    let mut dom = VirtualDom::default();
    let mut mutations = Vec::new();
    let mut old = instance(&schema, ["abc", "def", "efg"], Some("true"));
    dom.create(&mut mutations, &mut old);
    mutations.clear();
    // equal contents in separate allocations compare equal
    let mut new = instance(&schema, ["abc", "def", "efg"], Some(&String::from("true")));
    dom.diff(&mut mutations, &old, &mut new);
    assert!(mutations.is_empty());
    assert_eq!(new.dynamic_attrs[0].mounted_element, ElementId(3));
}

#[test]
fn create_scenario_six_entries_five_identities() {
    let schema = amazing_template();
    let mut dom = VirtualDom::default();
    let mut mutations = Vec::new();
    let mut t = instance(&schema, ["a", "b", "c"], Some("true"));
    dom.create(&mut mutations, &mut t);
    assert_eq!(mutations.len(), 6);
    assert!(matches!(mutations[0], Mutation::LoadTemplate { .. }));
    assert!(matches!(mutations[1], Mutation::AssignId { .. }));
    assert_eq!(mutations[2], Mutation::SetAttribute { name: s("hidden"), value: s("true"), id: ElementId(3) });
    assert_eq!(mutations[3], Mutation::HydrateText { path: vec![0], value: s("a"), id: ElementId(4) });
    assert_eq!(mutations[4], Mutation::HydrateText { path: vec![1], value: s("b"), id: ElementId(5) });
    assert_eq!(mutations[5], Mutation::HydrateText { path: vec![2], value: s("c"), id: ElementId(6) });
    let mut ids = vec![t.node_id, t.dynamic_attrs[0].mounted_element, text_id(&t, 0), text_id(&t, 1), text_id(&t, 2)];
    ids.sort();
    ids.dedup();
    assert_eq!(ids.len(), 5);
}

#[test]
fn diff_scenario_one_text_changed() {
    let schema = amazing_template();
    let mut dom = VirtualDom::default();
    let mut mutations = Vec::new();
    let mut old = instance(&schema, ["a", "b", "c"], Some("true"));
    dom.create(&mut mutations, &mut old);
    mutations.clear();
    let mut new = instance(&schema, ["a", "B", "c"], Some("true"));
    dom.diff(&mut mutations, &old, &mut new);
    assert_eq!(mutations, vec![Mutation::SetText { value: s("B"), id: text_id(&old, 1) }]);
    assert_eq!(text_id(&new, 1), text_id(&old, 1));
    // no fresh allocation: the next create starts where the first one ended
    let mut again = instance(&schema, ["x", "y", "z"], None);
    mutations.clear();
    dom.create(&mut mutations, &mut again);
    assert_eq!(again.node_id, ElementId(7));
}

#[test]
fn diff_changed_attribute_uses_new_value_on_old_element() {
    let schema = amazing_template();
    let mut dom = VirtualDom::default();
    let mut mutations = Vec::new();
    let mut old = instance(&schema, ["a", "b", "c"], Some("true"));
    dom.create(&mut mutations, &mut old);
    mutations.clear();
    let mut new = instance(&schema, ["a", "b", "c"], Some("false"));
    dom.diff(&mut mutations, &old, &mut new);
    assert_eq!(mutations, vec![Mutation::SetAttribute { name: s("hidden"), value: s("false"), id: ElementId(3) }]);
    assert_eq!(new.dynamic_attrs[0].mounted_element, ElementId(3));
}

#[test]
fn diff_other_template_creates_then_replaces() {
    let schema = amazing_template();
    let other = Template {
        id: s("456"),
        root: TemplateNode::DynamicText(0),
        node_pathways: vec![vec![]],
        attr_pathways: vec![],
    };
    let mut dom = VirtualDom::default();
    let mut mutations = Vec::new();
    let mut old = instance(&schema, ["a", "b", "c"], Some("true"));
    dom.create(&mut mutations, &mut old);
    mutations.clear();
    let mut new = VTemplate {
        node_id: unassigned(),
        template: &other,
        dynamic_nodes: vec![text("solo", unassigned())],
        dynamic_attrs: vec![],
    };
    dom.diff(&mut mutations, &old, &mut new);
    assert_eq!(
        mutations,
        vec![
            Mutation::LoadTemplate { name: s("456"), id: ElementId(7) },
            Mutation::HydrateText { path: vec![], value: s("solo"), id: ElementId(8) },
            Mutation::Replace { id: ElementId(2) },
        ]
    );
    assert_eq!(new.node_id, ElementId(7));
    assert_eq!(text_id(&new, 0), ElementId(8));
}

#[test]
fn creations_never_share_identities() {
    let schema = amazing_template();
    let mut dom = VirtualDom::default();
    let mut mutations = Vec::new();
    let mut first = instance(&schema, ["a", "b", "c"], Some("true"));
    let mut second = instance(&schema, ["a", "b", "c"], Some("true"));
    dom.create(&mut mutations, &mut first);
    dom.create(&mut mutations, &mut second);
    let ids = |t: &VTemplate| vec![t.node_id, t.dynamic_attrs[0].mounted_element, text_id(t, 0), text_id(t, 1), text_id(t, 2)];
    let a = ids(&first);
    let b = ids(&second);
    assert_eq!(a, vec![ElementId(2), ElementId(3), ElementId(4), ElementId(5), ElementId(6)]);
    assert_eq!(b, vec![ElementId(7), ElementId(8), ElementId(9), ElementId(10), ElementId(11)]);
    for x in &a {
        assert!(!b.contains(x));
        assert_ne!(*x, ElementId::default());
    }
}

#[test]
fn create_with_no_slots_emits_only_load() {
    let bare = Template {
        id: s("bare"),
        root: TemplateNode::Text(s("static")),
        node_pathways: vec![],
        attr_pathways: vec![],
    };
    let mut dom = VirtualDom::default();
    let mut mutations = Vec::new();
    let mut t = VTemplate { node_id: unassigned(), template: &bare, dynamic_nodes: vec![], dynamic_attrs: vec![] };
    dom.create(&mut mutations, &mut t);
    assert_eq!(mutations, vec![Mutation::LoadTemplate { name: s("bare"), id: ElementId(2) }]);
}

#[test]
fn arena_hands_out_increasing_ids() {
    let mut arena = Arena::default();
    let a = arena.next();
    let b = arena.next();
    let c = arena.next();
    assert_eq!((a, b, c), (ElementId(2), ElementId(3), ElementId(4)));
    assert_eq!(ElementId::default(), ElementId(1));
}
