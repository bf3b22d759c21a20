//! The scene projection: structured form of a sectioned scene text file.
//!
//! A scene is a keyed collection of nodes, each with header attributes and
//! body properties, plus the external-resource sections referenced from
//! property values.  Nodes are addressed by a path derived from their `name`
//! and `parent` attributes.  Reconciling a scene into a branch document is a
//! per-key overwrite that never deletes, so hydrating the document back
//! yields every node of the scene unchanged.

use vstd::prelude::*;

use crate::strmap::StrMap;

verus! {

/// Mathematical value of one scene node.
#[verifier::ext_equal]
pub struct NodeView {
    pub attributes: Map<Seq<char>, Seq<char>>,
    pub properties: Map<Seq<char>, Seq<char>>,
}

/// Mathematical value of a whole scene.
#[verifier::ext_equal]
pub struct SceneView {
    pub nodes: Map<Seq<char>, NodeView>,
    pub external_resources: Map<Seq<char>, NodeView>,
}

/// One section of the scene text: key-value pairs from the section header
/// (`attributes`) and from the lines below it (`properties`).
pub struct GodotSceneNode {
    attributes: StrMap<String>,
    properties: StrMap<String>,
}

/// A parsed scene: nodes keyed by path, external resources keyed by id.
pub struct PackedGodotScene {
    nodes: StrMap<GodotSceneNode>,
    external_resources: StrMap<GodotSceneNode>,
}

impl View for GodotSceneNode {
    type V = NodeView;

    closed spec fn view(&self) -> NodeView {
        NodeView { attributes: self.attributes@, properties: self.properties@ }
    }
}

impl View for PackedGodotScene {
    type V = SceneView;

    closed spec fn view(&self) -> SceneView {
        SceneView { nodes: self.nodes@, external_resources: self.external_resources@ }
    }
}

impl GodotSceneNode {
    pub closed spec fn wf(&self) -> bool {
        self.attributes.wf() && self.properties.wf()
    }

    /// A node with no attributes and no properties.
    pub fn empty() -> (r: GodotSceneNode)
        ensures
            r.wf(),
            r@.attributes == Map::<Seq<char>, Seq<char>>::empty(),
            r@.properties == Map::<Seq<char>, Seq<char>>::empty(),
    {
        GodotSceneNode { attributes: StrMap::new(), properties: StrMap::new() }
    }

    /// Add or overwrite one header attribute.
    pub fn set_attribute(&mut self, key: String, value: String)
        requires
            old(self).wf(),
        ensures
            final(self).wf(),
            final(self)@.attributes == old(self)@.attributes.insert(key@, value@),
            final(self)@.properties == old(self)@.properties,
    {
        self.attributes.insert(key, value);
    }

    /// Add or overwrite one body property.
    pub fn set_property(&mut self, key: String, value: String)
        requires
            old(self).wf(),
        ensures
            final(self).wf(),
            final(self)@.attributes == old(self)@.attributes,
            final(self)@.properties == old(self)@.properties.insert(key@, value@),
    {
        self.properties.insert(key, value);
    }

    /// Build a node from ready-made attribute and property maps.
    pub fn from_maps(attributes: StrMap<String>, properties: StrMap<String>) -> (r: GodotSceneNode)
        requires
            attributes.wf(),
            properties.wf(),
        ensures
            r.wf(),
            r@.attributes == attributes@,
            r@.properties == properties@,
    {
        GodotSceneNode { attributes, properties }
    }

    /// A copy with the same attributes and properties.
    pub fn duplicate(&self) -> (r: GodotSceneNode)
        requires
            self.wf(),
        ensures
            r.wf(),
            r@ == self@,
    {
        let r = GodotSceneNode {
            attributes: self.attributes.duplicate(),
            properties: self.properties.duplicate(),
        };
        proof {
            assert(r@ =~= self@);
        }
        r
    }

    /// Read one header attribute.
    pub fn get_attribute(&self, key: &str) -> (r: Option<&String>)
        requires
            self.wf(),
        ensures
            match r {
                Some(v) => self@.attributes.contains_key(key@) && v@ == self@.attributes[key@],
                None => !self@.attributes.contains_key(key@),
            },
    {
        self.attributes.get(key)
    }

    /// Read one body property.
    pub fn get_property(&self, key: &str) -> (r: Option<&String>)
        requires
            self.wf(),
        ensures
            match r {
                Some(v) => self@.properties.contains_key(key@) && v@ == self@.properties[key@],
                None => !self@.properties.contains_key(key@),
            },
    {
        self.properties.get(key)
    }
}

impl PackedGodotScene {
    pub closed spec fn wf(&self) -> bool {
        &&& self.nodes.wf()
        &&& self.external_resources.wf()
        &&& forall|i: int|
            0 <= i < self.nodes.values().len() ==> (#[trigger] self.nodes.values()[i]).wf()
        &&& forall|i: int|
            0 <= i < self.external_resources.values().len() ==> (
            #[trigger] self.external_resources.values()[i]).wf()
    }

    /// A scene with no nodes and no external resources.
    pub fn empty() -> (r: PackedGodotScene)
        ensures
            r.wf(),
            r@.nodes == Map::<Seq<char>, NodeView>::empty(),
            r@.external_resources == Map::<Seq<char>, NodeView>::empty(),
    {
        PackedGodotScene { nodes: StrMap::new(), external_resources: StrMap::new() }
    }

    /// Insert or overwrite the node stored under `path`.
    pub fn insert_node(&mut self, path: String, node: GodotSceneNode)
        requires
            old(self).wf(),
            node.wf(),
        ensures
            final(self).wf(),
            final(self)@.nodes == old(self)@.nodes.insert(path@, node@),
            final(self)@.external_resources == old(self)@.external_resources,
    {
        let ghost nd = node;
        self.nodes.insert(path, node);
        proof {
            assert forall|i: int| 0 <= i < self.nodes.values().len() implies (
            #[trigger] self.nodes.values()[i]).wf() by {
                if self.nodes.values()[i] != nd {
                    let j = choose|j: int|
                        0 <= j < old(self).nodes.values().len() && old(self).nodes.values()[j]
                            == self.nodes.values()[i];
                }
            }
        }
    }

    /// Delete the node stored under `path`, if any; returns whether one was
    /// there.  Reconciliation never deletes, so removing a node from the
    /// scene document takes this explicit call.
    pub fn delete_node(&mut self, path: &str) -> (removed: bool)
        requires
            old(self).wf(),
        ensures
            final(self).wf(),
            final(self)@.nodes == old(self)@.nodes.remove(path@),
            final(self)@.external_resources == old(self)@.external_resources,
            removed == old(self)@.nodes.contains_key(path@),
    {
        let removed = self.nodes.remove(path);
        proof {
            assert forall|i: int| 0 <= i < self.nodes.values().len() implies (
            #[trigger] self.nodes.values()[i]).wf() by {
                assert(old(self).nodes.values().contains(self.nodes.values()[i]));
                let j = choose|j: int|
                    0 <= j < old(self).nodes.values().len() && old(self).nodes.values()[j]
                        == self.nodes.values()[i];
            }
        }
        removed
    }

    /// Insert or overwrite the external resource stored under `id`.
    pub fn insert_external_resource(&mut self, id: String, node: GodotSceneNode)
        requires
            old(self).wf(),
            node.wf(),
        ensures
            final(self).wf(),
            final(self)@.external_resources == old(self)@.external_resources.insert(id@, node@),
            final(self)@.nodes == old(self)@.nodes,
    {
        let ghost nd = node;
        self.external_resources.insert(id, node);
        proof {
            assert forall|i: int| 0 <= i < self.external_resources.values().len() implies (
            #[trigger] self.external_resources.values()[i]).wf() by {
                if self.external_resources.values()[i] != nd {
                    let j = choose|j: int|
                        0 <= j < old(self).external_resources.values().len() && old(self).external_resources.values()[j] == self.external_resources.values()[i];
                }
            }
        }
    }
}

/// The characters of a value with one layer of surrounding double quotes
/// removed; a value not wrapped in quotes is kept as it is.
pub open spec fn unquote_spec(s: Seq<char>) -> Seq<char> {
    if s.len() >= 2 && s[0] == '"' && s[s.len() - 1] == '"' {
        s.subrange(1, s.len() - 1)
    } else {
        s
    }
}

/// Strip one layer of surrounding double quotes, if present.
pub fn unquote(s: &str) -> (r: String)
    ensures
        r@ == unquote_spec(s@),
{
    let n = s.unicode_len();
    if n >= 2 && s.get_char(0) == '"' && s.get_char(n - 1) == '"' {
        s.substring_char(1, n - 1).to_owned()
    } else {
        s.to_owned()
    }
}

/// The node's name: its unquoted `name` attribute.
pub open spec fn node_name_spec(n: NodeView) -> Option<Seq<char>> {
    if n.attributes.contains_key("name"@) {
        Some(unquote_spec(n.attributes["name"@]))
    } else {
        None
    }
}

/// The node's parent path: its unquoted `parent` attribute.
pub open spec fn node_parent_spec(n: NodeView) -> Option<Seq<char>> {
    if n.attributes.contains_key("parent"@) {
        Some(unquote_spec(n.attributes["parent"@]))
    } else {
        None
    }
}

/// Read the node's unquoted `name` attribute.
pub fn get_node_name(node: &GodotSceneNode) -> (r: Option<String>)
    requires
        node.wf(),
    ensures
        r matches Some(x) ==> node_name_spec(node@) == Some(x@),
        r is None <==> node_name_spec(node@) is None,
{
    match node.get_attribute("name") {
        Some(v) => Some(unquote(v.as_str())),
        None => None,
    }
}

/// Read the node's unquoted `parent` attribute.
pub fn get_node_parent(node: &GodotSceneNode) -> (r: Option<String>)
    requires
        node.wf(),
    ensures
        r matches Some(x) ==> node_parent_spec(node@) == Some(x@),
        r is None <==> node_parent_spec(node@) is None,
{
    match node.get_attribute("parent") {
        Some(v) => Some(unquote(v.as_str())),
        None => None,
    }
}

/// The path a node is filed under: its name, prefixed by its parent path
/// when the parent attribute names a node already present.  A missing parent
/// or the parent `.` marks a child of the root, filed under its name alone.
pub open spec fn node_path_spec(nodes: Map<Seq<char>, NodeView>, n: NodeView) -> Option<
    Seq<char>,
> {
    match node_name_spec(n) {
        None => None,
        Some(name) => match node_parent_spec(n) {
            None => Some(name),
            Some(parent) => if parent == "."@ || !nodes.contains_key(parent) {
                Some(name)
            } else {
                Some(parent + "/"@ + name)
            },
        },
    }
}

/// Compute the path of `node` against the nodes collected so far.
pub fn get_node_path(scene: &PackedGodotScene, node: &GodotSceneNode) -> (r: Option<String>)
    requires
        scene.wf(),
        node.wf(),
    ensures
        r matches Some(p) ==> node_path_spec(scene@.nodes, node@) == Some(p@),
        r is None <==> node_path_spec(scene@.nodes, node@) is None,
{
    let name = match get_node_name(node) {
        Some(name) => name,
        None => {
            return None;
        },
    };
    match get_node_parent(node) {
        None => Some(name),
        Some(parent) => {
            if crate::text::str_eq(parent.as_str(), ".") || !scene.nodes.contains_key(
                parent.as_str(),
            ) {
                Some(name)
            } else {
                let mut out = parent;
                out.append("/");
                out.append(name.as_str());
                Some(out)
            }
        },
    }
}

/// The project-local path a resource reference stands for: for a value of
/// form `ExtResource("<id>")` whose id names a collected external resource
/// with a `path` attribute, that attribute unquoted.
pub open spec fn ext_resource_path_spec(
    ext: Map<Seq<char>, NodeView>,
    value: Seq<char>,
) -> Option<Seq<char>> {
    if value.len() >= 15 && value.subrange(0, 13) == "ExtResource(\""@ && value.subrange(
        value.len() - 2,
        value.len() as int,
    ) == "\")"@ {
        let id = value.subrange(13, value.len() - 2);
        if ext.contains_key(id) && ext[id].attributes.contains_key("path"@) {
            Some(unquote_spec(ext[id].attributes["path"@]))
        } else {
            None
        }
    } else {
        None
    }
}

/// Resolve an `ExtResource("<id>")` reference to the resource's path.
pub fn external_resource_to_path(value: &str, scene: &PackedGodotScene) -> (r: Option<String>)
    requires
        scene.wf(),
    ensures
        r matches Some(p) ==> ext_resource_path_spec(scene@.external_resources, value@) == Some(
            p@,
        ),
        r is None <==> ext_resource_path_spec(scene@.external_resources, value@) is None,
{
    let n = value.unicode_len();
    if n < 15 {
        return None;
    }
    let prefix = value.substring_char(0, 13);
    if !crate::text::str_eq(prefix, "ExtResource(\"") {
        return None;
    }
    let suffix = value.substring_char(n - 2, n);
    if !crate::text::str_eq(suffix, "\")") {
        return None;
    }
    let id = value.substring_char(13, n - 2);
    match scene.external_resources.get(id) {
        None => None,
        Some(res) => match res.get_attribute("path") {
            Some(p) => Some(unquote(p.as_str())),
            None => None,
        },
    }
}

/// Look a node up by its path, returning a copy.
pub fn get_node_by_path(scene: &PackedGodotScene, path: &str) -> (r: Option<GodotSceneNode>)
    requires
        scene.wf(),
    ensures
        r matches Some(nd) ==> scene@.nodes.contains_key(path@) && nd@ == scene@.nodes[path@]
            && nd.wf(),
        r is None <==> !scene@.nodes.contains_key(path@),
{
    match scene.nodes.get(path) {
        Some(node) => Some(node.duplicate()),
        None => None,
    }
}

/// Look an external resource up by its id, returning a copy.
pub fn get_external_resource_by_id(scene: &PackedGodotScene, id: &str) -> (r: Option<
    GodotSceneNode,
>)
    requires
        scene.wf(),
    ensures
        r matches Some(nd) ==> scene@.external_resources.contains_key(id@) && nd@
            == scene@.external_resources[id@] && nd.wf(),
        r is None <==> !scene@.external_resources.contains_key(id@),
{
    match scene.external_resources.get(id) {
        Some(node) => Some(node.duplicate()),
        None => None,
    }
}

/// A copy of the node's header attributes.
pub fn get_node_attributes(node: &GodotSceneNode) -> (r: StrMap<String>)
    requires
        node.wf(),
    ensures
        r.wf(),
        r@ == node@.attributes,
{
    node.attributes.duplicate()
}

/// A copy of the node's body properties.
pub fn get_node_properties(node: &GodotSceneNode) -> (r: StrMap<String>)
    requires
        node.wf(),
    ensures
        r.wf(),
        r@ == node@.properties,
{
    node.properties.duplicate()
}

/// A node with nothing in it, the base a reconcile starts from when the
/// document holds no node at a path yet.
pub open spec fn empty_node() -> NodeView {
    NodeView {
        attributes: Map::<Seq<char>, Seq<char>>::empty(),
        properties: Map::<Seq<char>, Seq<char>>::empty(),
    }
}

/// A node overwritten key by key: keys of `add` win, keys only in `base`
/// survive — reconciliation never deletes.
pub open spec fn merge_node(base: NodeView, add: NodeView) -> NodeView {
    NodeView {
        attributes: base.attributes.union_prefer_right(add.attributes),
        properties: base.properties.union_prefer_right(add.properties),
    }
}

impl GodotSceneNode {
    /// Copy every attribute and property of `other` into `self`, `other`
    /// winning on collisions.
    pub fn absorb(&mut self, other: &GodotSceneNode)
        requires
            old(self).wf(),
            other.wf(),
        ensures
            final(self).wf(),
            final(self)@ == merge_node(old(self)@, other@),
    {
        self.attributes.absorb(&other.attributes);
        self.properties.absorb(&other.properties);
        proof {
            assert(self@ =~= merge_node(old(self)@, other@));
        }
    }
}

/// Whether one of the first `i` listed paths views to `p`.
pub open spec fn path_processed(paths: Seq<String>, i: int, p: Seq<char>) -> bool {
    exists|j: int| 0 <= j < i && #[trigger] paths[j]@ == p
}

/// The node a reconcile of `p` starts from: what the document already holds
/// there, or an empty node.
pub open spec fn reconcile_base(nodes: Map<Seq<char>, NodeView>, p: Seq<char>) -> NodeView {
    if nodes.contains_key(p) {
        nodes[p]
    } else {
        empty_node()
    }
}

/// Write a scene into a scene document node by node and key by key: every
/// node of `scene` is merged over whatever the document holds at its path,
/// and nothing else in the document is touched — keys absent from the scene
/// are never deleted.
/// What reconciling `written` into a document whose scene was `before`
/// leaves behind: every written node merged over what was there, everything
/// else untouched.
pub open spec fn reconcile_post(before: SceneView, written: SceneView, after: SceneView) -> bool {
    &&& after.external_resources == before.external_resources
    &&& forall|p: Seq<char>|
        written.nodes.contains_key(p) ==> after.nodes.contains_key(p) && after.nodes[p]
            == merge_node(reconcile_base(before.nodes, p), written.nodes[p])
    &&& forall|p: Seq<char>|
        !written.nodes.contains_key(p) ==> ((after.nodes.contains_key(p)
            <==> before.nodes.contains_key(p)) && (before.nodes.contains_key(p)
            ==> after.nodes[p] == before.nodes[p]))
}

pub fn reconcile_scene(target: &mut PackedGodotScene, scene: &PackedGodotScene)
    requires
        old(target).wf(),
        scene.wf(),
    ensures
        final(target).wf(),
        reconcile_post(old(target)@, scene@, final(target)@),
{
    let paths = scene.nodes.keys();
    let n = paths.len();
    let mut i: usize = 0;
    while i < n
        invariant
            i <= n,
            n == paths@.len(),
            scene.wf(),
            target.wf(),
            forall|j: int| 0 <= j < n ==> scene@.nodes.contains_key(#[trigger] paths@[j]@),
            forall|k: Seq<char>|
                scene@.nodes.contains_key(k) ==> exists|j: int|
                    0 <= j < n && #[trigger] paths@[j]@ == k,
            forall|j1: int, j2: int|
                0 <= j1 < j2 < n ==> #[trigger] paths@[j1]@ != #[trigger] paths@[j2]@,
            target@.external_resources == old(target)@.external_resources,
            forall|j: int|
                0 <= j < i ==> target@.nodes.contains_key(#[trigger] paths@[j]@)
                    && target@.nodes[paths@[j]@] == merge_node(
                    reconcile_base(old(target)@.nodes, paths@[j]@),
                    scene@.nodes[paths@[j]@],
                ),
            forall|p: Seq<char>|
                #![trigger target@.nodes.contains_key(p)]
                target@.nodes.contains_key(p) && !old(target)@.nodes.contains_key(p)
                    ==> path_processed(paths@, i as int, p),
            forall|p: Seq<char>|
                #![trigger old(target)@.nodes.contains_key(p)]
                old(target)@.nodes.contains_key(p) ==> target@.nodes.contains_key(p),
            forall|p: Seq<char>|
                #![trigger target@.nodes[p]]
                old(target)@.nodes.contains_key(p) && !path_processed(paths@, i as int, p)
                    ==> target@.nodes[p] == old(target)@.nodes[p],
        decreases n - i,
    {
        let p = &paths[i];
        proof {
            assert(scene@.nodes.contains_key(paths@[i as int]@));
            assert(!path_processed(paths@, i as int, paths@[i as int]@));
        }
        let src = match scene.nodes.get(p.as_str()) {
            Some(src) => src,
            None => {
                proof {
                    assert(false);
                }
                return ;
            },
        };
        let mut merged = match target.nodes.get(p.as_str()) {
            Some(t) => t.duplicate(),
            None => GodotSceneNode::empty(),
        };
        merged.absorb(src);
        let ghost t0 = target@.nodes;
        target.insert_node(p.clone(), merged);
        proof {
            assert(merged@ == merge_node(reconcile_base(old(target)@.nodes, paths@[i as int]@),
                scene@.nodes[paths@[i as int]@]));
            assert forall|j: int| 0 <= j < i + 1 implies target@.nodes.contains_key(
                #[trigger] paths@[j]@,
            ) && target@.nodes[paths@[j]@] == merge_node(
                reconcile_base(old(target)@.nodes, paths@[j]@),
                scene@.nodes[paths@[j]@],
            ) by {
                if j < i {
                    assert(paths@[j]@ != paths@[i as int]@);
                }
            }
            assert forall|p2: Seq<char>|
                target@.nodes.contains_key(p2) && !old(target)@.nodes.contains_key(
                    p2,
                ) implies path_processed(paths@, i as int + 1, p2) by {
                if p2 == paths@[i as int]@ {
                    assert(paths@[i as int]@ == p2);
                } else {
                    assert(t0.contains_key(p2));
                    let j = choose|j: int| 0 <= j < i && #[trigger] paths@[j]@ == p2;
                }
            }
            assert forall|p2: Seq<char>|
                old(target)@.nodes.contains_key(p2) && !path_processed(
                    paths@,
                    i as int + 1,
                    p2,
                ) implies #[trigger] target@.nodes[p2] == old(target)@.nodes[p2] by {
                assert(!path_processed(paths@, i as int, p2));
                assert(p2 != paths@[i as int]@);
            }
        }
        i = i + 1;
    }
    proof {
        assert forall|p: Seq<char>| scene@.nodes.contains_key(p) implies target@.nodes.contains_key(
            p,
        ) && target@.nodes[p] == merge_node(
            reconcile_base(old(target)@.nodes, p),
            scene@.nodes[p],
        ) by {
            let j = choose|j: int| 0 <= j < n && #[trigger] paths@[j]@ == p;
        }
        assert forall|p: Seq<char>| !scene@.nodes.contains_key(p) implies ((
        target@.nodes.contains_key(p) <==> old(target)@.nodes.contains_key(p)) && (old(target)@.nodes.contains_key(p) ==> target@.nodes[p] == old(target)@.nodes[p])) by {
            assert(!path_processed(paths@, n as int, p)) by {
                if path_processed(paths@, n as int, p) {
                    let j = choose|j: int| 0 <= j < n && #[trigger] paths@[j]@ == p;
                }
            }
        }
    }
}

/// Merging a node over the empty node reproduces the node exactly.
pub proof fn lemma_merge_into_empty(n: NodeView)
    ensures
        merge_node(empty_node(), n).attributes == n.attributes,
        merge_node(empty_node(), n).properties == n.properties,
{
    assert(merge_node(empty_node(), n).attributes =~= n.attributes);
    assert(merge_node(empty_node(), n).properties =~= n.properties);
}

/// Scene round trip: a scene reconciled into a fresh document and hydrated
/// back keeps every node's attribute map and property map exactly.  The
/// premises are what `reconcile_scene` ensures when the document it writes
/// into holds no nodes.
pub proof fn lemma_scene_round_trip(result_nodes: Map<Seq<char>, NodeView>, scene: SceneView)
    requires
        forall|p: Seq<char>|
            #[trigger] scene.nodes.contains_key(p) ==> result_nodes.contains_key(p)
                && result_nodes[p] == merge_node(empty_node(), scene.nodes[p]),
    ensures
        forall|p: Seq<char>|
            scene.nodes.contains_key(p) ==> result_nodes.contains_key(p)
                && (#[trigger] result_nodes[p]).attributes == scene.nodes[p].attributes
                && result_nodes[p].properties == scene.nodes[p].properties,
{
    assert forall|p: Seq<char>| scene.nodes.contains_key(p) implies result_nodes.contains_key(p)
        && (#[trigger] result_nodes[p]).attributes == scene.nodes[p].attributes
        && result_nodes[p].properties == scene.nodes[p].properties by {
        lemma_merge_into_empty(scene.nodes[p]);
    }
}

} // verus!
