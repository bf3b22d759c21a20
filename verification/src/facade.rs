//! The host-facing facade.
//!
//! The facade caches the last-known branch list, the checked-out branch id
//! and a hydrated model of its document, the binary documents, and the
//! current heads, so host queries are answered synchronously from a
//! snapshot.  Driver output events are applied one at a time; each
//! application updates the caches and names the signal the host should be
//! sent, with a change of the checked-out document surfacing as a
//! files-changed signal and a change of the metadata document as a
//! branches-changed signal.

use vstd::prelude::*;

use crate::docs::ProjectDoc;
use crate::docs::StringOrPackedByteArray;
use crate::docs::get_file_spec;
use crate::driver::Branch;
use crate::driver::BranchView;
use crate::driver::DriverOutputEvent;
use crate::driver::branches_listed;
use crate::driver::branches_ok;
use crate::driver::list_branches;
use crate::strmap::StrMap;

verus! {

/// A callback the host receives after a process tick.
pub enum HostSignal {
    Initialized,
    FilesChanged,
    BranchesChanged,
    CheckedOutBranch { branch_doc_id: String },
}

/// Mathematical value of a host signal.
pub enum HostSignalView {
    Initialized,
    FilesChanged,
    BranchesChanged,
    CheckedOutBranch { branch_doc_id: Seq<char> },
}

impl View for HostSignal {
    type V = HostSignalView;

    open spec fn view(&self) -> HostSignalView {
        match self {
            HostSignal::Initialized => HostSignalView::Initialized,
            HostSignal::FilesChanged => HostSignalView::FilesChanged,
            HostSignal::BranchesChanged => HostSignalView::BranchesChanged,
            HostSignal::CheckedOutBranch { branch_doc_id } => HostSignalView::CheckedOutBranch {
                branch_doc_id: branch_doc_id@,
            },
        }
    }
}

/// View of an optional signal.
pub open spec fn sig_view(o: Option<HostSignal>) -> Option<HostSignalView> {
    match o {
        Some(s) => Some(s@),
        None => None,
    }
}

/// View of a signal list.
pub open spec fn sigs_view(s: Seq<HostSignal>) -> Seq<HostSignalView> {
    s.map_values(|x: HostSignal| x@)
}

/// The map a listed branch set stands for, each branch under its own id.
pub open spec fn branch_list_to_map(s: Seq<Branch>) -> Map<Seq<char>, BranchView>
    decreases s.len(),
{
    if s.len() == 0 {
        Map::empty()
    } else {
        branch_list_to_map(s.drop_last()).insert(s.last()@.id, s.last()@)
    }
}

/// Rebuild a branch map from a listed branch set.
fn branches_from_list(list: &Vec<Branch>) -> (r: StrMap<Branch>)
    ensures
        r.wf(),
        r@ == branch_list_to_map(list@),
        branches_ok(r@),
{
    let n = list.len();
    let mut r: StrMap<Branch> = StrMap::new();
    let mut i: usize = 0;
    while i < n
        invariant
            i <= n,
            n == list@.len(),
            r.wf(),
            r@ == branch_list_to_map(list@.take(i as int)),
            branches_ok(r@),
        decreases n - i,
    {
        let b = list[i].duplicate();
        let id = b.id.clone();
        let ghost bv = b@;
        r.insert(id, b);
        proof {
            let t1 = list@.take(i as int + 1);
            assert(t1.drop_last() =~= list@.take(i as int));
            assert(t1.last() == list@[i as int]);
            assert(r@ =~= branch_list_to_map(t1));
            assert forall|k: Seq<char>| r@.contains_key(k) implies (#[trigger] r@[k]).id == k by {
                if k != bv.id {
                    assert(branch_list_to_map(list@.take(i as int)).contains_key(k));
                }
            }
        }
        i = i + 1;
    }
    proof {
        assert(list@.take(n as int) =~= list@);
    }
    r
}

/// The cached knowledge the facade answers queries from.
#[verifier::ext_equal]
pub struct FacadeView {
    pub branches: Map<Seq<char>, BranchView>,
    pub checked_out: Option<Seq<char>>,
    pub meta: Option<Seq<char>>,
}

/// The facade: the synchronous host API over the last-known snapshot.
#[allow(non_camel_case_types)]
pub struct GodotProject_rs {
    pub branches: StrMap<Branch>,
    pub checked_out_branch_doc_id: Option<String>,
    pub branches_metadata_doc_id: Option<String>,
    pub checked_out_doc: Option<ProjectDoc>,
    pub binaries: StrMap<Vec<u8>>,
    pub heads: Vec<String>,
}

impl View for GodotProject_rs {
    type V = FacadeView;

    open spec fn view(&self) -> FacadeView {
        FacadeView {
            branches: self.branches@,
            checked_out: match self.checked_out_branch_doc_id {
                Some(ref s) => Some(s@),
                None => None,
            },
            meta: match self.branches_metadata_doc_id {
                Some(ref s) => Some(s@),
                None => None,
            },
        }
    }
}

/// What applying one driver event to the caches does, and which signal the
/// host is sent: initialization and branch updates replace the branch list,
/// a checkout moves the checked-out id, and a document change surfaces as
/// files-changed for the checked-out document or branches-changed for the
/// metadata document.
pub open spec fn apply_event_spec(v: FacadeView, e: &DriverOutputEvent) -> (
    FacadeView,
    Option<HostSignalView>,
) {
    match e {
        DriverOutputEvent::Initialized { branches, checked_out_doc_id } => (
            FacadeView {
                branches: branch_list_to_map(branches@),
                checked_out: Some(checked_out_doc_id@),
                meta: v.meta,
            },
            Some(HostSignalView::Initialized),
        ),
        DriverOutputEvent::DocHandleChanged { doc_id } => (
            v,
            if v.checked_out == Some(doc_id@) {
                Some(HostSignalView::FilesChanged)
            } else if v.meta == Some(doc_id@) {
                Some(HostSignalView::BranchesChanged)
            } else {
                None
            },
        ),
        DriverOutputEvent::BranchesUpdated { branches } => (
            FacadeView {
                branches: branch_list_to_map(branches@),
                checked_out: v.checked_out,
                meta: v.meta,
            },
            Some(HostSignalView::BranchesChanged),
        ),
        DriverOutputEvent::CheckedOutBranch { branch_doc_id } => (
            FacadeView { branches: v.branches, checked_out: Some(branch_doc_id@), meta: v.meta },
            Some(HostSignalView::CheckedOutBranch { branch_doc_id: branch_doc_id@ }),
        ),
    }
}

/// The caches and emitted signals after applying a list of events in order.
pub open spec fn process_result(v0: FacadeView, events: Seq<DriverOutputEvent>) -> (
    FacadeView,
    Seq<HostSignalView>,
)
    decreases events.len(),
{
    if events.len() == 0 {
        (v0, Seq::<HostSignalView>::empty())
    } else {
        let prev = process_result(v0, events.drop_last());
        let step = apply_event_spec(prev.0, &events.last());
        (
            step.0,
            prev.1 + (match step.1 {
                Some(s) => seq![s],
                None => Seq::<HostSignalView>::empty(),
            }),
        )
    }
}

impl GodotProject_rs {
    pub open spec fn wf(&self) -> bool {
        &&& self.branches.wf()
        &&& branches_ok(self.branches@)
        &&& (self.checked_out_doc matches Some(d) ==> d.wf())
        &&& self.binaries.wf()
    }

    /// A facade with empty caches.
    pub fn new() -> (r: GodotProject_rs)
        ensures
            r.wf(),
            r@.branches == Map::<Seq<char>, BranchView>::empty(),
            r@.checked_out is None,
            r@.meta is None,
    {
        GodotProject_rs {
            branches: StrMap::new(),
            checked_out_branch_doc_id: None,
            branches_metadata_doc_id: None,
            checked_out_doc: None,
            binaries: StrMap::new(),
            heads: Vec::new(),
        }
    }

    /// Record the metadata document's id (the project id).
    pub fn set_project_doc_id(&mut self, id: String)
        requires
            old(self).wf(),
        ensures
            final(self).wf(),
            final(self)@.meta == Some(id@),
            final(self)@.branches == old(self)@.branches,
            final(self)@.checked_out == old(self)@.checked_out,
    {
        self.branches_metadata_doc_id = Some(id);
    }

    /// Cache the hydrated model of the checked-out branch document.
    pub fn set_checked_out_doc(&mut self, doc: ProjectDoc)
        requires
            old(self).wf(),
            doc.wf(),
        ensures
            final(self).wf(),
            final(self)@ == old(self)@,
            final(self).checked_out_doc == Some(doc),
    {
        self.checked_out_doc = Some(doc);
    }

    /// Cache one binary document's bytes.
    pub fn set_binary_doc(&mut self, id: String, bytes: Vec<u8>)
        requires
            old(self).wf(),
        ensures
            final(self).wf(),
            final(self)@ == old(self)@,
            final(self).binaries@ == old(self).binaries@.insert(id@, bytes@),
    {
        self.binaries.insert(id, bytes);
    }

    /// Cache the checked-out branch's current heads.
    pub fn set_heads(&mut self, heads: Vec<String>)
        requires
            old(self).wf(),
        ensures
            final(self).wf(),
            final(self)@ == old(self)@,
            final(self).heads@ == heads@,
    {
        self.heads = heads;
    }

    /// The cached heads of the checked-out branch.
    pub fn get_heads(&self) -> (r: Vec<String>)
        ensures
            r@.len() == self.heads@.len(),
            forall|j: int| 0 <= j < r@.len() ==> #[trigger] r@[j]@ == self.heads@[j]@,
    {
        let n = self.heads.len();
        let mut r: Vec<String> = Vec::new();
        let mut i: usize = 0;
        while i < n
            invariant
                i <= n,
                n == self.heads@.len(),
                r@.len() == i,
                forall|j: int| 0 <= j < i ==> #[trigger] r@[j]@ == self.heads@[j]@,
            decreases n - i,
        {
            r.push(self.heads[i].clone());
            i = i + 1;
        }
        r
    }

    /// Apply one driver event to the caches; returns the signal to send.
    pub fn apply_event(&mut self, event: &DriverOutputEvent) -> (r: Option<HostSignal>)
        requires
            old(self).wf(),
        ensures
            final(self).wf(),
            final(self)@ == apply_event_spec(old(self)@, event).0,
            sig_view(r) == apply_event_spec(old(self)@, event).1,
            final(self).checked_out_doc == old(self).checked_out_doc,
            final(self).binaries == old(self).binaries,
            final(self).heads == old(self).heads,
    {
        match event {
            DriverOutputEvent::Initialized { branches, checked_out_doc_id } => {
                self.branches = branches_from_list(branches);
                self.checked_out_branch_doc_id = Some(checked_out_doc_id.clone());
                Some(HostSignal::Initialized)
            },
            DriverOutputEvent::DocHandleChanged { doc_id } => {
                let is_checked_out = match &self.checked_out_branch_doc_id {
                    Some(c) => crate::text::str_eq(c.as_str(), doc_id.as_str()),
                    None => false,
                };
                if is_checked_out {
                    return Some(HostSignal::FilesChanged);
                }
                let is_meta = match &self.branches_metadata_doc_id {
                    Some(m) => crate::text::str_eq(m.as_str(), doc_id.as_str()),
                    None => false,
                };
                if is_meta {
                    Some(HostSignal::BranchesChanged)
                } else {
                    None
                }
            },
            DriverOutputEvent::BranchesUpdated { branches } => {
                self.branches = branches_from_list(branches);
                Some(HostSignal::BranchesChanged)
            },
            DriverOutputEvent::CheckedOutBranch { branch_doc_id } => {
                self.checked_out_branch_doc_id = Some(branch_doc_id.clone());
                Some(HostSignal::CheckedOutBranch { branch_doc_id: branch_doc_id.clone() })
            },
        }
    }

    /// Apply a drained batch of driver events in order, collecting the
    /// signals the host should be sent.
    pub fn process(&mut self, events: &Vec<DriverOutputEvent>) -> (r: Vec<HostSignal>)
        requires
            old(self).wf(),
        ensures
            final(self).wf(),
            final(self)@ == process_result(old(self)@, events@).0,
            sigs_view(r@) == process_result(old(self)@, events@).1,
            final(self).checked_out_doc == old(self).checked_out_doc,
            final(self).binaries == old(self).binaries,
            final(self).heads == old(self).heads,
    {
        let n = events.len();
        let mut r: Vec<HostSignal> = Vec::new();
        let mut i: usize = 0;
        proof {
            assert(events@.take(0) =~= Seq::<DriverOutputEvent>::empty());
            assert(sigs_view(r@) =~= Seq::<HostSignalView>::empty());
        }
        while i < n
            invariant
                i <= n,
                n == events@.len(),
                self.wf(),
                self@ == process_result(old(self)@, events@.take(i as int)).0,
                sigs_view(r@) == process_result(old(self)@, events@.take(i as int)).1,
                self.checked_out_doc == old(self).checked_out_doc,
                self.binaries == old(self).binaries,
                self.heads == old(self).heads,
            decreases n - i,
        {
            let ghost vmid = self@;
            let ghost smid = sigs_view(r@);
            let sig = self.apply_event(&events[i]);
            match sig {
                Some(s) => {
                    let ghost s0 = s@;
                    r.push(s);
                    proof {
                        assert(sigs_view(r@) =~= smid + seq![s0]);
                    }
                },
                None => {
                    proof {
                        assert(sigs_view(r@) =~= smid + Seq::<HostSignalView>::empty());
                    }
                },
            }
            proof {
                let t1 = events@.take(i as int + 1);
                assert(t1.drop_last() =~= events@.take(i as int));
                assert(t1.last() == events@[i as int]);
            }
            i = i + 1;
        }
        proof {
            assert(events@.take(n as int) =~= events@);
        }
        r
    }

    /// The cached branches, one entry per branch.
    pub fn get_branches(&self) -> (r: Vec<Branch>)
        requires
            self.wf(),
        ensures
            branches_listed(r@, self@.branches),
    {
        list_branches(&self.branches)
    }

    /// The checked-out branch's document id, if a branch is checked out.
    pub fn get_checked_out_branch_id(&self) -> (r: Option<String>)
        ensures
            match r {
                Some(id) => self@.checked_out == Some(id@),
                None => self@.checked_out is None,
            },
    {
        match &self.checked_out_branch_doc_id {
            Some(id) => Some(id.clone()),
            None => None,
        }
    }

    /// The metadata document's id: the project id.
    pub fn get_doc_id(&self) -> (r: Option<String>)
        ensures
            match r {
                Some(id) => self@.meta == Some(id@),
                None => self@.meta is None,
            },
    {
        match &self.branches_metadata_doc_id {
            Some(id) => Some(id.clone()),
            None => None,
        }
    }

    /// Every path stored on the checked-out branch; empty when no branch
    /// document is cached.
    pub fn list_all_files(&self) -> (r: Vec<String>)
        requires
            self.wf(),
        ensures
            match self.checked_out_doc {
                Some(d) => {
                    &&& r@.len() == d.files@.dom().len()
                    &&& forall|i: int| 0 <= i < r@.len() ==> d.files@.contains_key(#[trigger] r@[i]@)
                    &&& forall|k: Seq<char>|
                        d.files@.contains_key(k) ==> exists|i: int|
                            0 <= i < r@.len() && #[trigger] r@[i]@ == k
                },
                None => r@.len() == 0,
            },
    {
        match &self.checked_out_doc {
            Some(doc) => doc.list_files(),
            None => Vec::new(),
        }
    }

    /// Read a file from the checked-out branch, following a linked binary
    /// document into the cache.
    pub fn get_file(&self, path: &str) -> (r: Option<StringOrPackedByteArray>)
        requires
            self.wf(),
        ensures
            match self.checked_out_doc {
                Some(d) => {
                    &&& (r matches Some(c) ==> get_file_spec(d.files@, self.binaries@, path@)
                        == Some(c@))
                    &&& (r is None ==> get_file_spec(d.files@, self.binaries@, path@) is None)
                },
                None => r is None,
            },
    {
        match &self.checked_out_doc {
            Some(doc) => crate::docs::get_file(doc, &self.binaries, path),
            None => None,
        }
    }

    /// Write one runtime-state value on the checked-out branch; dropped when
    /// no branch document is cached.
    pub fn set_state_int(&mut self, entity: String, prop: String, value: i64)
        requires
            old(self).wf(),
        ensures
            final(self).wf(),
            final(self)@ == old(self)@,
            match old(self).checked_out_doc {
                Some(d) => final(self).checked_out_doc matches Some(d2) && d2.state@ == d.state@
                    .insert((entity@, prop@), value) && d2.files@ == d.files@,
                None => final(self).checked_out_doc is None,
            },
    {
        match &mut self.checked_out_doc {
            Some(doc) => doc.set_state_int(entity, prop, value),
            None => {},
        }
    }

    /// Read one runtime-state value from the checked-out branch.
    pub fn get_state_int(&self, entity: &str, prop: &str) -> (r: Option<i64>)
        requires
            self.wf(),
        ensures
            match self.checked_out_doc {
                Some(d) => match r {
                    Some(v) => d.state@.contains_key((entity@, prop@)) && v == d.state@[(
                        entity@,
                        prop@,
                    )],
                    None => !d.state@.contains_key((entity@, prop@)),
                },
                None => r is None,
            },
    {
        match &self.checked_out_doc {
            Some(doc) => doc.get_state_int(entity, prop),
            None => None,
        }
    }
}

} // verus!
