//! The driver: the project's state machine.
//!
//! The driver owns the branch bookkeeping — which documents are
//! materialized, which branches exist, which branch is checked out — and
//! decides every command's outcome.  The asynchronous work a command needs
//! (requesting documents, allocating fresh ones) is done outside; its
//! results come back in as plain values, and each handler states exactly
//! which state change and which output events every possible result leads
//! to.  A checked-out branch is always materialized: the checkout and
//! initialization handlers emit their success event only once the branch
//! document and every binary document it links are all registered.

use vstd::prelude::*;

use crate::docs::ProjectDoc;
use crate::docs::has_id;
use crate::docs::linked_ids;
use crate::registry::Registry;
use crate::registry::ids_to_set;
use crate::strmap::StrMap;

verus! {

/// One branch: its display name, its document id, and whether it has been
/// merged into main (a latch that never goes back to false).
pub struct Branch {
    pub name: String,
    pub id: String,
    pub is_merged: bool,
}

/// Mathematical value of a branch.
#[verifier::ext_equal]
pub struct BranchView {
    pub name: Seq<char>,
    pub id: Seq<char>,
    pub is_merged: bool,
}

impl View for Branch {
    type V = BranchView;

    open spec fn view(&self) -> BranchView {
        BranchView { name: self.name@, id: self.id@, is_merged: self.is_merged }
    }
}

impl Branch {
    /// A copy with the same name, id, and merge flag.
    pub fn duplicate(&self) -> (r: Branch)
        ensures
            r@ == self@,
    {
        Branch { name: self.name.clone(), id: self.id.clone(), is_merged: self.is_merged }
    }
}

/// The branches metadata document: the main branch's id and every branch
/// keyed by its document id.
pub struct BranchesMetadataDoc {
    pub main_doc_id: String,
    pub branches: StrMap<Branch>,
}

/// Every branch is keyed by its own id.
pub open spec fn branches_ok(m: Map<Seq<char>, BranchView>) -> bool {
    forall|k: Seq<char>| m.contains_key(k) ==> (#[trigger] m[k]).id == k
}

/// Check that every branch of the metadata document is keyed by its own id
/// (a malformed fetched document fails this).
pub fn branches_keyed_by_id(branches: &StrMap<Branch>) -> (r: bool)
    requires
        branches.wf(),
    ensures
        r == branches_ok(branches@),
{
    let keys = branches.keys();
    let n = keys.len();
    let mut i: usize = 0;
    while i < n
        invariant
            i <= n,
            n == keys@.len(),
            branches.wf(),
            forall|j: int| 0 <= j < n ==> branches@.contains_key(#[trigger] keys@[j]@),
            forall|k: Seq<char>|
                branches@.contains_key(k) ==> exists|j: int|
                    0 <= j < n && #[trigger] keys@[j]@ == k,
            forall|j: int| 0 <= j < i ==> (#[trigger] branches@[keys@[j]@]).id == keys@[j]@,
        decreases n - i,
    {
        proof {
            assert(branches@.contains_key(keys@[i as int]@));
        }
        match branches.get(keys[i].as_str()) {
            Some(b) => {
                if !crate::text::str_eq(b.id.as_str(), keys[i].as_str()) {
                    proof {
                        assert(!branches_ok(branches@));
                    }
                    return false;
                }
            },
            None => {},
        }
        i = i + 1;
    }
    proof {
        assert forall|k: Seq<char>| branches@.contains_key(k) implies (
        #[trigger] branches@[k]).id == k by {
            let j = choose|j: int| 0 <= j < n && #[trigger] keys@[j]@ == k;
        }
    }
    true
}

/// The listed branches stand for exactly the bindings of the map.
pub open spec fn branches_listed(s: Seq<Branch>, m: Map<Seq<char>, BranchView>) -> bool {
    &&& forall|i: int| 0 <= i < s.len() ==> m.contains_key((#[trigger] s[i])@.id) && m[s[i]@.id]
        == s[i]@
    &&& forall|k: Seq<char>|
        m.contains_key(k) ==> exists|i: int| 0 <= i < s.len() && (#[trigger] s[i])@.id == k
}

/// List every branch of a well-keyed branches map.
pub fn list_branches(branches: &StrMap<Branch>) -> (r: Vec<Branch>)
    requires
        branches.wf(),
        branches_ok(branches@),
    ensures
        branches_listed(r@, branches@),
{
    let keys = branches.keys();
    let n = keys.len();
    let mut r: Vec<Branch> = Vec::new();
    let mut i: usize = 0;
    while i < n
        invariant
            i <= n,
            n == keys@.len(),
            branches.wf(),
            branches_ok(branches@),
            forall|j: int| 0 <= j < n ==> branches@.contains_key(#[trigger] keys@[j]@),
            forall|k: Seq<char>|
                branches@.contains_key(k) ==> exists|j: int|
                    0 <= j < n && #[trigger] keys@[j]@ == k,
            r@.len() == i,
            forall|j: int|
                0 <= j < i ==> branches@.contains_key((#[trigger] r@[j])@.id) && branches@[r@[j]@.id]
                    == r@[j]@ && r@[j]@.id == keys@[j]@,
        decreases n - i,
    {
        proof {
            assert(branches@.contains_key(keys@[i as int]@));
        }
        match branches.get(keys[i].as_str()) {
            Some(b) => {
                r.push(b.duplicate());
            },
            None => {
                proof {
                    assert(false);
                }
            },
        }
        i = i + 1;
    }
    proof {
        assert forall|k: Seq<char>| branches@.contains_key(k) implies exists|i2: int|
            0 <= i2 < r@.len() && (#[trigger] r@[i2])@.id == k by {
            let j = choose|j: int| 0 <= j < n && #[trigger] keys@[j]@ == k;
            assert(r@[j]@.id == k);
        }
    }
    r
}

/// What the driver hands out: one event per observable state change.
pub enum DriverOutputEvent {
    /// The project finished initializing.
    Initialized { branches: Vec<Branch>, checked_out_doc_id: String },
    /// A document's handle appeared or its contents advanced.
    DocHandleChanged { doc_id: String },
    /// The set of branches changed.
    BranchesUpdated { branches: Vec<Branch> },
    /// A different branch is now checked out.
    CheckedOutBranch { branch_doc_id: String },
}

/// Host commands, as the driver receives them.
pub enum DriverInputEvent {
    InitBranchesMetadataDoc { doc_id: Option<String> },
    CheckoutBranch { branch_doc_id: String },
    SaveFile { path: String, content: crate::docs::StringOrPackedByteArray, heads: Option<Vec<String>> },
    CreateBranch { name: String },
    MergeBranch { branch_id: String },
}

/// The project once initialized: the three distinguished document ids and
/// the branch map mirrored from the metadata document.
pub struct ProjectState {
    pub branches_metadata_doc_id: String,
    pub main_branch_doc_id: String,
    pub checked_out_branch_doc_id: String,
    pub branches: StrMap<Branch>,
}

impl ProjectState {
    pub open spec fn wf(&self) -> bool {
        self.branches.wf() && branches_ok(self.branches@)
    }
}

/// The driver's whole state: uninitialized, or an initialized project,
/// plus the registry of materialized documents.  Initialization is one-way.
pub struct DriverState {
    pub project: Option<ProjectState>,
    pub registry: Registry,
}

impl DriverState {
    pub open spec fn wf(&self) -> bool {
        match self.project {
            Some(p) => p.wf(),
            None => true,
        }
    }

    /// The uninitialized driver, tracking no documents.
    pub fn new() -> (r: DriverState)
        ensures
            r.wf(),
            r.project is None,
            r.registry@ == Set::<Seq<char>>::empty(),
    {
        DriverState { project: None, registry: Registry::new() }
    }
}

/// Register every id in the list, announcing each id that was new.
fn register_all(reg: &mut Registry, ids: &Vec<String>, events: &mut Vec<DriverOutputEvent>)
    ensures
        final(reg)@ == old(reg)@.union(ids_to_set(ids@)),
        final(events)@.len() >= old(events)@.len(),
        final(events)@.subrange(0, old(events)@.len() as int) == old(events)@,
        forall|j: int|
            old(events)@.len() <= j < final(events)@.len() ==> (#[trigger] final(events)@[j])
                is DocHandleChanged,
{
    let n = ids.len();
    let mut i: usize = 0;
    proof {
        assert(reg@ =~= old(reg)@.union(ids_to_set(ids@.take(0))));
    }
    while i < n
        invariant
            i <= n,
            n == ids@.len(),
            reg@ == old(reg)@.union(ids_to_set(ids@.take(i as int))),
            events@.len() >= old(events)@.len(),
            events@.subrange(0, old(events)@.len() as int) == old(events)@,
            forall|j: int|
                old(events)@.len() <= j < events@.len() ==> (#[trigger] events@[j])
                    is DocHandleChanged,
        decreases n - i,
    {
        let id = ids[i].clone();
        let added = reg.add(id);
        if added {
            events.push(DriverOutputEvent::DocHandleChanged { doc_id: ids[i].clone() });
            proof {
                assert(events@.subrange(0, old(events)@.len() as int) =~= old(events)@);
            }
        }
        proof {
            let t1 = ids@.take(i as int + 1);
            assert(t1.drop_last() =~= ids@.take(i as int));
            assert(t1.last() == ids@[i as int]);
            assert(reg@ =~= old(reg)@.union(ids_to_set(t1)));
        }
        i = i + 1;
    }
    proof {
        assert(ids@.take(n as int) =~= ids@);
    }
}

/// Whether every id in the list is registered; exactly the condition that
/// every linked document of the branch is materialized, when the list came
/// from `get_linked_docs_of_branch`.
fn all_registered(reg: &Registry, ids: &Vec<String>) -> (r: bool)
    ensures
        r == forall|j: int| 0 <= j < ids@.len() ==> reg@.contains(#[trigger] ids@[j]@),
{
    let n = ids.len();
    let mut i: usize = 0;
    while i < n
        invariant
            i <= n,
            n == ids@.len(),
            forall|j: int| 0 <= j < i ==> reg@.contains(#[trigger] ids@[j]@),
        decreases n - i,
    {
        if !reg.contains(ids[i].as_str()) {
            return false;
        }
        i = i + 1;
    }
    true
}

/// Complete a checkout, given the fetched branch document and the ids of
/// the linked documents that could be fetched.  The branch becomes checked
/// out — and `CheckedOutBranch` is emitted — exactly when every linked
/// binary document of the branch is then registered; otherwise the
/// checked-out branch does not change.  Before initialization the command
/// is dropped.
pub fn checkout_finish(
    state: &mut DriverState,
    branch_doc_id: String,
    branch_doc: &ProjectDoc,
    fetched: Vec<String>,
) -> (r: Vec<DriverOutputEvent>)
    requires
        old(state).wf(),
        branch_doc.wf(),
    ensures
        final(state).wf(),
        old(state).project is None ==> *final(state) == *old(state) && r@.len() == 0,
        old(state).project matches Some(p0) ==> {
            &&& final(state).registry@ == old(state).registry@.insert(branch_doc_id@).union(
                ids_to_set(fetched@),
            )
            &&& final(state).project matches Some(p1)
            &&& p1.branches@ == p0.branches@
            &&& p1.branches_metadata_doc_id == p0.branches_metadata_doc_id
            &&& p1.main_branch_doc_id == p0.main_branch_doc_id
            &&& linked_ids(branch_doc.files@).subset_of(final(state).registry@) ==> {
                &&& p1.checked_out_branch_doc_id@ == branch_doc_id@
                &&& r@.len() > 0
                &&& (r@.last() matches DriverOutputEvent::CheckedOutBranch { branch_doc_id: b }
                    && b@ == branch_doc_id@)
                &&& final(state).registry@.contains(branch_doc_id@)
            }
            &&& !linked_ids(branch_doc.files@).subset_of(final(state).registry@) ==> {
                &&& p1.checked_out_branch_doc_id == p0.checked_out_branch_doc_id
                &&& forall|j: int| 0 <= j < r@.len() ==> !((#[trigger] r@[j]) is CheckedOutBranch)
            }
            &&& forall|j: int|
                0 <= j < r@.len() && (#[trigger] r@[j]) is CheckedOutBranch ==> j == r@.len() - 1
        },
{
    match &state.project {
        Some(_) => {},
        None => {
            return Vec::new();
        },
    }
    let mut r: Vec<DriverOutputEvent> = Vec::new();
    if state.registry.add(branch_doc_id.clone()) {
        r.push(DriverOutputEvent::DocHandleChanged { doc_id: branch_doc_id.clone() });
    }
    proof {
        assert(state.registry@ =~= old(state).registry@.insert(branch_doc_id@));
    }
    let ghost rb = r@;
    register_all(&mut state.registry, &fetched, &mut r);
    proof {
        assert(state.registry@ == old(state).registry@.insert(branch_doc_id@).union(
            ids_to_set(fetched@),
        ));
        assert forall|j: int| 0 <= j < r@.len() implies (#[trigger] r@[j])
            is DocHandleChanged by {
            if j < rb.len() {
                assert(r@.subrange(0, rb.len() as int)[j] == r@[j]);
            }
        }
    }
    let linked = crate::docs::get_linked_docs_of_branch(branch_doc);
    let ok = all_registered(&state.registry, &linked);
    proof {
        if ok {
            assert forall|id: Seq<char>| linked_ids(branch_doc.files@).contains(id) implies
                state.registry@.contains(id) by {
                assert(has_id(linked@, id));
                let m = choose|m: int| 0 <= m < linked@.len() && #[trigger] linked@[m]@ == id;
            }
            assert(linked_ids(branch_doc.files@).subset_of(state.registry@));
        } else {
            let j = choose|j: int|
                !(0 <= j < linked@.len() ==> state.registry@.contains(#[trigger] linked@[j]@));
            assert(linked_ids(branch_doc.files@).contains(linked@[j]@));
            assert(!linked_ids(branch_doc.files@).subset_of(state.registry@));
        }
    }
    if ok {
        match &mut state.project {
            Some(p) => {
                p.checked_out_branch_doc_id = branch_doc_id.clone();
            },
            None => {},
        }
        let ghost r0 = r@;
        r.push(DriverOutputEvent::CheckedOutBranch { branch_doc_id });
        proof {
            assert(r@.last() == DriverOutputEvent::CheckedOutBranch {
                branch_doc_id: r@.last()->CheckedOutBranch_branch_doc_id,
            });
            assert(forall|j: int| 0 <= j < r0.len() ==> r@[j] == r0[j]);
        }
    }
    r
}

/// Initialize a brand-new project: the embedding allocates an empty branch
/// document and a metadata document, and the driver records them with a
/// single `main` branch, already merged, checked out.  A second
/// initialization is dropped: the initialized state is final.
pub fn init_project_new(
    state: &mut DriverState,
    main_doc_id: String,
    meta_doc_id: String,
) -> (r: Vec<DriverOutputEvent>)
    requires
        old(state).wf(),
    ensures
        final(state).wf(),
        old(state).project is Some ==> *final(state) == *old(state) && r@.len() == 0,
        old(state).project is None ==> {
            &&& final(state).registry@ == old(state).registry@.insert(main_doc_id@).insert(
                meta_doc_id@,
            )
            &&& final(state).project matches Some(p)
            &&& p.branches_metadata_doc_id@ == meta_doc_id@
            &&& p.main_branch_doc_id@ == main_doc_id@
            &&& p.checked_out_branch_doc_id@ == main_doc_id@
            &&& p.branches@ == Map::<Seq<char>, BranchView>::empty().insert(
                main_doc_id@,
                BranchView { name: "main"@, id: main_doc_id@, is_merged: true },
            )
            &&& r@.len() == 3
            &&& (r@[0] matches DriverOutputEvent::DocHandleChanged { doc_id } && doc_id@
                == main_doc_id@)
            &&& (r@[1] matches DriverOutputEvent::DocHandleChanged { doc_id } && doc_id@
                == meta_doc_id@)
            &&& (r@[2] matches DriverOutputEvent::Initialized { branches, checked_out_doc_id }
                && checked_out_doc_id@ == main_doc_id@ && branches_listed(branches@, p.branches@))
        },
{
    match &state.project {
        Some(_) => {
            return Vec::new();
        },
        None => {},
    }
    let mut branches: StrMap<Branch> = StrMap::new();
    let main_branch = Branch {
        name: "main".to_owned(),
        id: main_doc_id.clone(),
        is_merged: true,
    };
    branches.insert(main_doc_id.clone(), main_branch);
    let blist = list_branches(&branches);
    let project = ProjectState {
        branches_metadata_doc_id: meta_doc_id.clone(),
        main_branch_doc_id: main_doc_id.clone(),
        checked_out_branch_doc_id: main_doc_id.clone(),
        branches,
    };
    state.project = Some(project);
    let mut r: Vec<DriverOutputEvent> = Vec::new();
    state.registry.add(main_doc_id.clone());
    r.push(DriverOutputEvent::DocHandleChanged { doc_id: main_doc_id.clone() });
    state.registry.add(meta_doc_id);
    match &state.project {
        Some(p) => {
            r.push(DriverOutputEvent::DocHandleChanged {
                doc_id: p.branches_metadata_doc_id.clone(),
            });
        },
        None => {},
    }
    r.push(DriverOutputEvent::Initialized { branches: blist, checked_out_doc_id: main_doc_id });
    r
}

/// Complete initialization from an existing metadata document: the
/// embedding fetched the metadata document, hydrated it, fetched the main
/// branch document and the linked documents it could.  `Initialized` is
/// emitted — and the project becomes initialized, with main checked out —
/// exactly when the metadata is well keyed and every linked binary document
/// of the main branch is then registered; otherwise the project stays
/// uninitialized.  A second initialization is dropped.
pub fn init_project_finish(
    state: &mut DriverState,
    meta_doc_id: String,
    metadata: BranchesMetadataDoc,
    main_doc: &ProjectDoc,
    fetched: Vec<String>,
) -> (r: Vec<DriverOutputEvent>)
    requires
        old(state).wf(),
        metadata.branches.wf(),
        main_doc.wf(),
    ensures
        final(state).wf(),
        old(state).project is Some ==> *final(state) == *old(state) && r@.len() == 0,
        old(state).project is None ==> {
            &&& final(state).registry@ == old(state).registry@.insert(meta_doc_id@).insert(
                metadata.main_doc_id@,
            ).union(ids_to_set(fetched@))
            &&& branches_ok(metadata.branches@) && linked_ids(main_doc.files@).subset_of(
                final(state).registry@,
            ) ==> {
                &&& final(state).project matches Some(p)
                &&& p.branches_metadata_doc_id@ == meta_doc_id@
                &&& p.main_branch_doc_id@ == metadata.main_doc_id@
                &&& p.checked_out_branch_doc_id@ == metadata.main_doc_id@
                &&& p.branches@ == metadata.branches@
                &&& r@.len() > 0
                &&& (r@.last() matches DriverOutputEvent::Initialized {
                    branches,
                    checked_out_doc_id,
                } && checked_out_doc_id@ == metadata.main_doc_id@ && branches_listed(
                    branches@,
                    metadata.branches@,
                ))
            }
            &&& !(branches_ok(metadata.branches@) && linked_ids(main_doc.files@).subset_of(
                final(state).registry@,
            )) ==> {
                &&& final(state).project is None
                &&& forall|j: int| 0 <= j < r@.len() ==> !((#[trigger] r@[j]) is Initialized)
            }
        },
{
    match &state.project {
        Some(_) => {
            return Vec::new();
        },
        None => {},
    }
    let mut r: Vec<DriverOutputEvent> = Vec::new();
    if state.registry.add(meta_doc_id.clone()) {
        r.push(DriverOutputEvent::DocHandleChanged { doc_id: meta_doc_id.clone() });
    }
    if state.registry.add(metadata.main_doc_id.clone()) {
        r.push(DriverOutputEvent::DocHandleChanged { doc_id: metadata.main_doc_id.clone() });
    }
    proof {
        assert(state.registry@ =~= old(state).registry@.insert(meta_doc_id@).insert(
            metadata.main_doc_id@,
        ));
        assert(forall|j: int| 0 <= j < r@.len() ==> (#[trigger] r@[j]) is DocHandleChanged);
    }
    let ghost rb = r@;
    register_all(&mut state.registry, &fetched, &mut r);
    proof {
        assert forall|j: int| 0 <= j < r@.len() implies (#[trigger] r@[j])
            is DocHandleChanged by {
            if j < rb.len() {
                assert(r@.subrange(0, rb.len() as int)[j] == r@[j]);
            }
        }
    }
    if !branches_keyed_by_id(&metadata.branches) {
        return r;
    }
    let linked = crate::docs::get_linked_docs_of_branch(main_doc);
    let ok = all_registered(&state.registry, &linked);
    proof {
        if ok {
            assert forall|id: Seq<char>| linked_ids(main_doc.files@).contains(id) implies
                state.registry@.contains(id) by {
                assert(has_id(linked@, id));
                let m = choose|m: int| 0 <= m < linked@.len() && #[trigger] linked@[m]@ == id;
            }
            assert(linked_ids(main_doc.files@).subset_of(state.registry@));
        } else {
            let j = choose|j: int|
                !(0 <= j < linked@.len() ==> state.registry@.contains(#[trigger] linked@[j]@));
            assert(linked_ids(main_doc.files@).contains(linked@[j]@));
            assert(!linked_ids(main_doc.files@).subset_of(state.registry@));
        }
    }
    if !ok {
        return r;
    }
    let blist = list_branches(&metadata.branches);
    let main_id = metadata.main_doc_id.clone();
    let project = ProjectState {
        branches_metadata_doc_id: meta_doc_id,
        main_branch_doc_id: metadata.main_doc_id,
        checked_out_branch_doc_id: main_id.clone(),
        branches: metadata.branches,
    };
    state.project = Some(project);
    r.push(DriverOutputEvent::Initialized { branches: blist, checked_out_doc_id: main_id });
    r
}

/// Create a branch: record the freshly allocated document (the embedding
/// clones the main document into it), add it to the branch map unmerged,
/// and check it out.  Before initialization the command is dropped.
pub fn create_branch(state: &mut DriverState, name: String, new_doc_id: String) -> (r: Vec<
    DriverOutputEvent,
>)
    requires
        old(state).wf(),
        old(state).project matches Some(p) ==> !p.branches@.contains_key(new_doc_id@),
    ensures
        final(state).wf(),
        old(state).project is None ==> *final(state) == *old(state) && r@.len() == 0,
        old(state).project matches Some(p0) ==> {
            &&& final(state).project matches Some(p1)
            &&& p1.branches@ == p0.branches@.insert(
                new_doc_id@,
                BranchView { name: name@, id: new_doc_id@, is_merged: false },
            )
            &&& p1.branches@[new_doc_id@].is_merged == false
            &&& p1.checked_out_branch_doc_id@ == new_doc_id@
            &&& p1.branches_metadata_doc_id == p0.branches_metadata_doc_id
            &&& p1.main_branch_doc_id == p0.main_branch_doc_id
            &&& final(state).registry@ == old(state).registry@.insert(new_doc_id@)
            &&& forall|k: Seq<char>|
                p0.branches@.contains_key(k) && (#[trigger] p0.branches@[k]).is_merged
                    ==> p1.branches@.contains_key(k) && p1.branches@[k].is_merged
            &&& r@.len() == 3
            &&& (r@[0] matches DriverOutputEvent::BranchesUpdated { branches } && branches_listed(
                branches@,
                p1.branches@,
            ))
            &&& (r@[1] matches DriverOutputEvent::CheckedOutBranch { branch_doc_id }
                && branch_doc_id@ == new_doc_id@)
            &&& (r@[2] matches DriverOutputEvent::DocHandleChanged { doc_id } && doc_id@
                == new_doc_id@)
        },
{
    let project = match &mut state.project {
        Some(project) => project,
        None => {
            return Vec::new();
        },
    };
    let branch = Branch { name, id: new_doc_id.clone(), is_merged: false };
    project.branches.insert(new_doc_id.clone(), branch);
    project.checked_out_branch_doc_id = new_doc_id.clone();
    let mut r: Vec<DriverOutputEvent> = Vec::new();
    r.push(DriverOutputEvent::BranchesUpdated { branches: list_branches(&project.branches) });
    r.push(DriverOutputEvent::CheckedOutBranch { branch_doc_id: new_doc_id.clone() });
    state.registry.add(new_doc_id.clone());
    r.push(DriverOutputEvent::DocHandleChanged { doc_id: new_doc_id });
    r
}

/// Mark a branch merged: the embedding merges the branch document into the
/// main document, and the metadata latches `is_merged` to true.  Before
/// initialization, or for an unknown branch id, the command is dropped.
pub fn merge_branch(state: &mut DriverState, branch_id: &str) -> (r: Vec<DriverOutputEvent>)
    requires
        old(state).wf(),
    ensures
        final(state).wf(),
        final(state).registry@ == old(state).registry@,
        ({
            ||| old(state).project is None
            ||| (old(state).project matches Some(p0) && !p0.branches@.contains_key(branch_id@))
        }) ==> *final(state) == *old(state) && r@.len() == 0,
        old(state).project matches Some(p0) ==> p0.branches@.contains_key(branch_id@) ==> {
            &&& final(state).project matches Some(p1)
            &&& p1.branches@ == p0.branches@.insert(
                branch_id@,
                BranchView {
                    name: p0.branches@[branch_id@].name,
                    id: p0.branches@[branch_id@].id,
                    is_merged: true,
                },
            )
            &&& p1.branches@[branch_id@].is_merged == true
            &&& p1.checked_out_branch_doc_id == p0.checked_out_branch_doc_id
            &&& p1.branches_metadata_doc_id == p0.branches_metadata_doc_id
            &&& p1.main_branch_doc_id == p0.main_branch_doc_id
            &&& forall|k: Seq<char>|
                p0.branches@.contains_key(k) && (#[trigger] p0.branches@[k]).is_merged
                    ==> p1.branches@.contains_key(k) && p1.branches@[k].is_merged
            &&& r@.len() == 1
            &&& (r@[0] matches DriverOutputEvent::BranchesUpdated { branches } && branches_listed(
                branches@,
                p1.branches@,
            ))
        },
{
    let project = match &mut state.project {
        Some(project) => project,
        None => {
            return Vec::new();
        },
    };
    let merged = match project.branches.get(branch_id) {
        Some(b) => Branch { name: b.name.clone(), id: b.id.clone(), is_merged: true },
        None => {
            return Vec::new();
        },
    };
    proof {
        assert(merged@.id == branch_id@);
    }
    project.branches.insert(branch_id.to_owned(), merged);
    let mut r: Vec<DriverOutputEvent> = Vec::new();
    r.push(DriverOutputEvent::BranchesUpdated { branches: list_branches(&project.branches) });
    r
}

} // verus!
