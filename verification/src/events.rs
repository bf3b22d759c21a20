//! Interpretation of scene-document patches as host events.
//!
//! When a scene document's heads advance, the repository reports patches.
//! A patch that writes a string under `nodes/<path>/attributes` or
//! `nodes/<path>/properties` becomes an attribute- or property-changed
//! event, enriched with the node's `instance` or `type` attribute; a patch
//! that deletes a key directly under `nodes` becomes a node-deleted event.
//! The embedding converts the repository's patch values into the plain
//! `PatchInfo` form; everything after that is verified.

use vstd::prelude::*;

use crate::scene::PackedGodotScene;
use crate::scene::SceneView;

verus! {

/// One step of a patch path: a map key or a list index.
pub enum PathStep {
    MapKey(String),
    ListIndex(u64),
}

/// Mathematical value of a path step.
pub enum PathStepView {
    MapKey(Seq<char>),
    ListIndex(u64),
}

impl View for PathStep {
    type V = PathStepView;

    open spec fn view(&self) -> PathStepView {
        match self {
            PathStep::MapKey(k) => PathStepView::MapKey(k@),
            PathStep::ListIndex(i) => PathStepView::ListIndex(*i),
        }
    }
}

/// What a patch did, reduced to what the interpretation reads: a string
/// written under a key, some other write, a key deleted, anything else.
pub enum PatchActionModel {
    PutString { key: String, value: String },
    PutOther { key: String },
    DeleteKey { key: String },
    Other,
}

/// Mathematical value of a patch action.
pub enum PatchActionView {
    PutString { key: Seq<char>, value: Seq<char> },
    PutOther { key: Seq<char> },
    DeleteKey { key: Seq<char> },
    Other,
}

impl View for PatchActionModel {
    type V = PatchActionView;

    open spec fn view(&self) -> PatchActionView {
        match self {
            PatchActionModel::PutString { key, value } => PatchActionView::PutString {
                key: key@,
                value: value@,
            },
            PatchActionModel::PutOther { key } => PatchActionView::PutOther { key: key@ },
            PatchActionModel::DeleteKey { key } => PatchActionView::DeleteKey { key: key@ },
            PatchActionModel::Other => PatchActionView::Other,
        }
    }
}

/// A patch: its action and the path of the object it landed in.
pub struct PatchInfo {
    pub action: PatchActionModel,
    pub path: Vec<PathStep>,
}

/// A host-visible scene change.
pub enum SceneEvent {
    PropertyChanged {
        node_path: String,
        key: String,
        value: String,
        instance_path: Option<String>,
        instance_type: Option<String>,
    },
    AttributeChanged {
        node_path: String,
        key: String,
        value: String,
        instance_path: Option<String>,
        instance_type: Option<String>,
    },
    NodeDeleted { node_path: String },
}

/// The node's `instance` attribute if it has one, else its `type`
/// attribute, else nothing: what enriches a change event so the host can
/// locate instanced scenes.
pub open spec fn instance_info_spec(scene: SceneView, node_path: Seq<char>) -> (
    Option<Seq<char>>,
    Option<Seq<char>>,
) {
    if scene.nodes.contains_key(node_path) {
        let attrs = scene.nodes[node_path].attributes;
        if attrs.contains_key("instance"@) {
            (Some(attrs["instance"@]), None)
        } else if attrs.contains_key("type"@) {
            (None, Some(attrs["type"@]))
        } else {
            (None, None)
        }
    } else {
        (None, None)
    }
}

/// Mathematical value of a scene change.
pub enum SceneEventView {
    PropertyChanged {
        node_path: Seq<char>,
        key: Seq<char>,
        value: Seq<char>,
        instance_path: Option<Seq<char>>,
        instance_type: Option<Seq<char>>,
    },
    AttributeChanged {
        node_path: Seq<char>,
        key: Seq<char>,
        value: Seq<char>,
        instance_path: Option<Seq<char>>,
        instance_type: Option<Seq<char>>,
    },
    NodeDeleted { node_path: Seq<char> },
}

/// View of an optional string.
pub open spec fn opt_view(o: Option<String>) -> Option<Seq<char>> {
    match o {
        Some(s) => Some(s@),
        None => None,
    }
}

impl View for SceneEvent {
    type V = SceneEventView;

    open spec fn view(&self) -> SceneEventView {
        match self {
            SceneEvent::PropertyChanged { node_path, key, value, instance_path, instance_type } =>
                SceneEventView::PropertyChanged {
                node_path: node_path@,
                key: key@,
                value: value@,
                instance_path: opt_view(*instance_path),
                instance_type: opt_view(*instance_type),
            },
            SceneEvent::AttributeChanged {
                node_path,
                key,
                value,
                instance_path,
                instance_type,
            } => SceneEventView::AttributeChanged {
                node_path: node_path@,
                key: key@,
                value: value@,
                instance_path: opt_view(*instance_path),
                instance_type: opt_view(*instance_type),
            },
            SceneEvent::NodeDeleted { node_path } => SceneEventView::NodeDeleted {
                node_path: node_path@,
            },
        }
    }
}

/// View of a patch path.
pub open spec fn path_view(p: Seq<PathStep>) -> Seq<PathStepView> {
    p.map_values(|x: PathStep| x@)
}

/// What a patch means to the host: a string put three levels deep under
/// `nodes` changes a property (third step `properties`) or an attribute
/// (any other third step); a delete of a key directly under `nodes`
/// deletes that node; everything else is invisible.
pub open spec fn interpret_patch_spec(
    action: PatchActionView,
    path: Seq<PathStepView>,
    scene: SceneView,
) -> Option<SceneEventView> {
    match action {
        PatchActionView::PutString { key, value } => {
            if path.len() >= 3 {
                match (path[0], path[1], path[2]) {
                    (
                        PathStepView::MapKey(root),
                        PathStepView::MapKey(node_path),
                        PathStepView::MapKey(kind),
                    ) => {
                        if root == "nodes"@ {
                            let info = instance_info_spec(scene, node_path);
                            if kind == "properties"@ {
                                Some(
                                    SceneEventView::PropertyChanged {
                                        node_path,
                                        key,
                                        value,
                                        instance_path: info.0,
                                        instance_type: info.1,
                                    },
                                )
                            } else {
                                Some(
                                    SceneEventView::AttributeChanged {
                                        node_path,
                                        key,
                                        value,
                                        instance_path: info.0,
                                        instance_type: info.1,
                                    },
                                )
                            }
                        } else {
                            None
                        }
                    },
                    _ => None,
                }
            } else {
                None
            }
        },
        PatchActionView::DeleteKey { key } => {
            if path.len() == 1 {
                match path[0] {
                    PathStepView::MapKey(root) => if root == "nodes"@ {
                        Some(SceneEventView::NodeDeleted { node_path: key })
                    } else {
                        None
                    },
                    _ => None,
                }
            } else {
                None
            }
        },
        _ => None,
    }
}

/// Whether two head lists denote different versions: different length, or
/// a differing hash at some position.
pub open spec fn heads_differ(before: Seq<String>, after: Seq<String>) -> bool {
    before.len() != after.len() || exists|j: int|
        0 <= j < before.len() && (#[trigger] before[j])@ != after[j]@
}

/// The change listener's filter: a wakeup is passed on only when the heads
/// actually advanced and the diff between the two versions is non-empty, so
/// spurious wakeups never reach the host.
pub fn should_emit_change(
    heads_before: &Vec<String>,
    heads_after: &Vec<String>,
    diff_is_empty: bool,
) -> (r: bool)
    ensures
        r == (heads_differ(heads_before@, heads_after@) && !diff_is_empty),
{
    if diff_is_empty {
        return false;
    }
    let na = heads_before.len();
    let nb = heads_after.len();
    if na != nb {
        return true;
    }
    let mut i: usize = 0;
    while i < na
        invariant
            !diff_is_empty,
            i <= na,
            na == heads_before@.len(),
            na == heads_after@.len(),
            forall|j: int| 0 <= j < i ==> (#[trigger] heads_before@[j])@ == heads_after@[j]@,
        decreases na - i,
    {
        if !crate::text::str_eq(heads_before[i].as_str(), heads_after[i].as_str()) {
            proof {
                assert(heads_before@[i as int]@ != heads_after@[i as int]@);
            }
            return true;
        }
        i = i + 1;
    }
    false
}

/// Turn one patch into the host event it stands for, if any.
pub fn interpret_patch(patch: &PatchInfo, scene: &PackedGodotScene) -> (r: Option<SceneEvent>)
    requires
        scene.wf(),
    ensures
        r matches Some(ev) ==> interpret_patch_spec(patch.action@, path_view(patch.path@), scene@)
            == Some(ev@),
        r is None <==> interpret_patch_spec(patch.action@, path_view(patch.path@), scene@)
            is None,
{
    proof {
        assert(forall|j: int|
            0 <= j < patch.path@.len() ==> path_view(patch.path@)[j] == (#[trigger] patch.path@[j])@);
    }
    match &patch.action {
        PatchActionModel::PutString { key, value } => {
            if patch.path.len() >= 3 {
                match (&patch.path[0], &patch.path[1], &patch.path[2]) {
                    (
                        PathStep::MapKey(root),
                        PathStep::MapKey(node_path),
                        PathStep::MapKey(kind),
                    ) => {
                        if crate::text::str_eq(root.as_str(), "nodes") {
                            let info: (Option<String>, Option<String>) = match
                                crate::scene::get_node_by_path(scene, node_path.as_str()) {
                                Some(node) => match node.get_attribute("instance") {
                                    Some(v) => (Some(v.clone()), None),
                                    None => match node.get_attribute("type") {
                                        Some(v) => (None, Some(v.clone())),
                                        None => (None, None),
                                    },
                                },
                                None => (None, None),
                            };
                            if crate::text::str_eq(kind.as_str(), "properties") {
                                Some(
                                    SceneEvent::PropertyChanged {
                                        node_path: node_path.clone(),
                                        key: key.clone(),
                                        value: value.clone(),
                                        instance_path: info.0,
                                        instance_type: info.1,
                                    },
                                )
                            } else {
                                Some(
                                    SceneEvent::AttributeChanged {
                                        node_path: node_path.clone(),
                                        key: key.clone(),
                                        value: value.clone(),
                                        instance_path: info.0,
                                        instance_type: info.1,
                                    },
                                )
                            }
                        } else {
                            None
                        }
                    },
                    _ => None,
                }
            } else {
                None
            }
        },
        PatchActionModel::DeleteKey { key } => {
            if patch.path.len() == 1 {
                match &patch.path[0] {
                    PathStep::MapKey(root) => {
                        if crate::text::str_eq(root.as_str(), "nodes") {
                            Some(SceneEvent::NodeDeleted { node_path: key.clone() })
                        } else {
                            None
                        }
                    },
                    PathStep::ListIndex(_) => None,
                }
            } else {
                None
            }
        },
        PatchActionModel::PutOther { key: _ } => None,
        PatchActionModel::Other => None,
    }
}

} // verus!
