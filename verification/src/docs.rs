//! Plain-value models of the CRDT documents.
//!
//! A branch document holds a `files` map from path to file entry and a
//! `state` map from entity and property to an integer; a binary document
//! holds one byte blob.  A file entry holds either inline text or the URL of
//! a linked binary document — by construction never both, which is the
//! file-entry exclusivity invariant.

use vstd::prelude::*;

use crate::ids::parse_url_spec;
use crate::strmap::StrMap;

verus! {

/// A file payload as it crosses the host boundary: UTF-8 text or raw bytes.
pub enum StringOrPackedByteArray {
    Text(String),
    Bytes(Vec<u8>),
}

/// Mathematical value of a file payload.
pub enum ContentView {
    Text(Seq<char>),
    Bytes(Seq<u8>),
}

impl View for StringOrPackedByteArray {
    type V = ContentView;

    open spec fn view(&self) -> ContentView {
        match self {
            StringOrPackedByteArray::Text(s) => ContentView::Text(s@),
            StringOrPackedByteArray::Bytes(b) => ContentView::Bytes(b@),
        }
    }
}

/// One entry of a branch document's `files` map.
pub enum FileEntry {
    /// Inline text, merged character by character by the CRDT.
    Text(String),
    /// URL (`automerge:<id>`) of the linked binary document with the bytes.
    BinaryUrl(String),
}

/// Mathematical value of a file entry.
pub enum FileEntryView {
    Text(Seq<char>),
    BinaryUrl(Seq<char>),
}

impl View for FileEntry {
    type V = FileEntryView;

    open spec fn view(&self) -> FileEntryView {
        match self {
            FileEntry::Text(s) => FileEntryView::Text(s@),
            FileEntry::BinaryUrl(u) => FileEntryView::BinaryUrl(u@),
        }
    }
}

/// A file entry holds inline text or a linked-document URL, never both.
/// This exclusivity is carried by the shape of `FileEntryView` itself.
pub proof fn lemma_file_entry_exclusive(e: FileEntryView)
    ensures
        (e is Text) <==> !(e is BinaryUrl),
{
}

/// Runtime state rows of a branch document: entity id and property name to
/// integer value, each pair bound at most once.
pub struct StateTable {
    rows: Vec<(String, String, i64)>,
}

/// The mathematical map described by state rows; later rows win.
pub open spec fn rows_to_map(s: Seq<(String, String, i64)>) -> Map<(Seq<char>, Seq<char>), i64>
    decreases s.len(),
{
    if s.len() == 0 {
        Map::empty()
    } else {
        rows_to_map(s.drop_last()).insert((s.last().0@, s.last().1@), s.last().2)
    }
}

impl View for StateTable {
    type V = Map<(Seq<char>, Seq<char>), i64>;

    closed spec fn view(&self) -> Map<(Seq<char>, Seq<char>), i64> {
        rows_to_map(self.rows@)
    }
}

proof fn lemma_rows_contains(s: Seq<(String, String, i64)>, i: int)
    requires
        0 <= i < s.len(),
    ensures
        rows_to_map(s).contains_key((s[i].0@, s[i].1@)),
    decreases s.len(),
{
    if i < s.len() - 1 {
        lemma_rows_contains(s.drop_last(), i);
        assert(s.drop_last()[i] == s[i]);
    }
}

proof fn lemma_rows_absent(s: Seq<(String, String, i64)>, k: (Seq<char>, Seq<char>))
    requires
        forall|j: int| 0 <= j < s.len() ==> (#[trigger] s[j].0@, s[j].1@) != k,
    ensures
        !rows_to_map(s).contains_key(k),
    decreases s.len(),
{
    if s.len() > 0 {
        assert forall|j: int| 0 <= j < s.drop_last().len() implies (
        #[trigger] s.drop_last()[j].0@,
        s.drop_last()[j].1@,
        ) != k by {
            assert(s.drop_last()[j] == s[j]);
        }
        lemma_rows_absent(s.drop_last(), k);
        assert((s[s.len() - 1].0@, s[s.len() - 1].1@) != k);
    }
}

proof fn lemma_rows_index(s: Seq<(String, String, i64)>, i: int)
    requires
        0 <= i < s.len(),
        forall|j1: int, j2: int|
            0 <= j1 < j2 < s.len() ==> (#[trigger] s[j1].0@, s[j1].1@) != (
            #[trigger] s[j2].0@,
            s[j2].1@,
            ),
    ensures
        rows_to_map(s).contains_key((s[i].0@, s[i].1@)),
        rows_to_map(s)[(s[i].0@, s[i].1@)] == s[i].2,
    decreases s.len(),
{
    lemma_rows_contains(s, i);
    if i < s.len() - 1 {
        assert((s[i].0@, s[i].1@) != (s.last().0@, s.last().1@));
        assert forall|j1: int, j2: int| 0 <= j1 < j2 < s.drop_last().len() implies (
        #[trigger] s.drop_last()[j1].0@,
        s.drop_last()[j1].1@,
        ) != (#[trigger] s.drop_last()[j2].0@, s.drop_last()[j2].1@) by {
            assert(s.drop_last()[j1] == s[j1] && s.drop_last()[j2] == s[j2]);
        }
        lemma_rows_index(s.drop_last(), i);
        assert(s.drop_last()[i] == s[i]);
    }
}

impl StateTable {
    /// Entity-property pairs are pairwise distinct.
    pub closed spec fn wf(&self) -> bool {
        forall|j1: int, j2: int|
            0 <= j1 < j2 < self.rows@.len() ==> (#[trigger] self.rows@[j1].0@, self.rows@[j1].1@)
                != (#[trigger] self.rows@[j2].0@, self.rows@[j2].1@)
    }

    pub fn new() -> (r: StateTable)
        ensures
            r.wf(),
            r@ == Map::<(Seq<char>, Seq<char>), i64>::empty(),
    {
        StateTable { rows: Vec::new() }
    }

    /// Read one state value; `None` exactly when the pair is absent.
    pub fn get_int(&self, entity: &str, prop: &str) -> (r: Option<i64>)
        requires
            self.wf(),
        ensures
            match r {
                Some(v) => self@.contains_key((entity@, prop@)) && v == self@[(entity@, prop@)],
                None => !self@.contains_key((entity@, prop@)),
            },
    {
        let n = self.rows.len();
        let mut i: usize = 0;
        while i < n
            invariant
                i <= n,
                n == self.rows@.len(),
                self.wf(),
                forall|j: int| 0 <= j < i ==> (#[trigger] self.rows@[j].0@, self.rows@[j].1@) != (
                entity@,
                prop@,
                ),
            decreases n - i,
        {
            if crate::text::str_eq(self.rows[i].0.as_str(), entity) && crate::text::str_eq(
                self.rows[i].1.as_str(),
                prop,
            ) {
                proof {
                    lemma_rows_index(self.rows@, i as int);
                }
                return Some(self.rows[i].2);
            }
            i = i + 1;
        }
        proof {
            lemma_rows_absent(self.rows@, (entity@, prop@));
        }
        None
    }

    /// Write one state value, creating the pair if it is absent.
    pub fn set_int(&mut self, entity: String, prop: String, value: i64)
        requires
            old(self).wf(),
        ensures
            final(self).wf(),
            final(self)@ == old(self)@.insert((entity@, prop@), value),
    {
        let n = self.rows.len();
        let mut i: usize = 0;
        while i < n
            invariant
                i <= n,
                n == self.rows@.len(),
                old(self).wf(),
                self.rows@ == old(self).rows@,
                forall|j: int| 0 <= j < i ==> (#[trigger] self.rows@[j].0@, self.rows@[j].1@) != (
                entity@,
                prop@,
                ),
            decreases n - i,
        {
            if crate::text::str_eq(self.rows[i].0.as_str(), entity.as_str())
                && crate::text::str_eq(self.rows[i].1.as_str(), prop.as_str()) {
                self.rows.set(i, (entity, prop, value));
                proof {
                    lemma_rows_update(old(self).rows@, self.rows@, i as int);
                }
                return ;
            }
            i = i + 1;
        }
        self.rows.push((entity, prop, value));
        proof {
            assert(self.rows@.drop_last() =~= old(self).rows@);
            assert forall|j1: int, j2: int| 0 <= j1 < j2 < self.rows@.len() implies (
            #[trigger] self.rows@[j1].0@,
            self.rows@[j1].1@,
            ) != (#[trigger] self.rows@[j2].0@, self.rows@[j2].1@) by {
                if j2 == self.rows@.len() - 1 {
                    assert((old(self).rows@[j1].0@, old(self).rows@[j1].1@) != (entity@, prop@));
                }
            }
        }
    }
}

proof fn lemma_rows_update(
    s0: Seq<(String, String, i64)>,
    s1: Seq<(String, String, i64)>,
    i: int,
)
    requires
        0 <= i < s0.len(),
        s1.len() == s0.len(),
        forall|j: int| 0 <= j < s0.len() && j != i ==> s1[j] == s0[j],
        (s1[i].0@, s1[i].1@) == (s0[i].0@, s0[i].1@),
        forall|j1: int, j2: int|
            0 <= j1 < j2 < s0.len() ==> (#[trigger] s0[j1].0@, s0[j1].1@) != (
            #[trigger] s0[j2].0@,
            s0[j2].1@,
            ),
    ensures
        forall|j1: int, j2: int|
            0 <= j1 < j2 < s1.len() ==> (#[trigger] s1[j1].0@, s1[j1].1@) != (
            #[trigger] s1[j2].0@,
            s1[j2].1@,
            ),
        rows_to_map(s1) == rows_to_map(s0).insert((s1[i].0@, s1[i].1@), s1[i].2),
    decreases s0.len(),
{
    assert forall|j1: int, j2: int| 0 <= j1 < j2 < s1.len() implies (
    #[trigger] s1[j1].0@,
    s1[j1].1@,
    ) != (#[trigger] s1[j2].0@, s1[j2].1@) by {
        assert(s1[j1].0@ == s0[j1].0@ && s1[j1].1@ == s0[j1].1@);
        assert(s1[j2].0@ == s0[j2].0@ && s1[j2].1@ == s0[j2].1@);
    }
    if i == s0.len() - 1 {
        assert(s1.drop_last() =~= s0.drop_last());
        assert(rows_to_map(s1) =~= rows_to_map(s0).insert((s1[i].0@, s1[i].1@), s1[i].2));
    } else {
        assert forall|j: int| 0 <= j < s0.drop_last().len() && j != i implies s1.drop_last()[j]
            == s0.drop_last()[j] by {
            assert(s1.drop_last()[j] == s1[j] && s0.drop_last()[j] == s0[j]);
        }
        assert forall|j1: int, j2: int| 0 <= j1 < j2 < s0.drop_last().len() implies (
        #[trigger] s0.drop_last()[j1].0@,
        s0.drop_last()[j1].1@,
        ) != (#[trigger] s0.drop_last()[j2].0@, s0.drop_last()[j2].1@) by {
            assert(s0.drop_last()[j1] == s0[j1] && s0.drop_last()[j2] == s0[j2]);
        }
        assert(s1.drop_last()[i] == s1[i] && s0.drop_last()[i] == s0[i]);
        lemma_rows_update(s0.drop_last(), s1.drop_last(), i);
        assert(s1.last() == s0.last());
        assert((s0[i].0@, s0[i].1@) != (s0.last().0@, s0.last().1@));
        assert(rows_to_map(s0.drop_last()).insert((s1[i].0@, s1[i].1@), s1[i].2).insert(
            (s0.last().0@, s0.last().1@),
            s0.last().2,
        ) =~= rows_to_map(s0).insert((s1[i].0@, s1[i].1@), s1[i].2));
    }
}

/// One branch's document: the file tree and the host-defined runtime state.
pub struct ProjectDoc {
    pub files: StrMap<FileEntry>,
    pub state: StateTable,
}

impl ProjectDoc {
    pub open spec fn wf(&self) -> bool {
        self.files.wf() && self.state.wf()
    }

    /// A fresh branch document with empty `files` and `state`.
    pub fn new() -> (r: ProjectDoc)
        ensures
            r.wf(),
            r.files@ == Map::<Seq<char>, FileEntryView>::empty(),
            r.state@ == Map::<(Seq<char>, Seq<char>), i64>::empty(),
    {
        ProjectDoc { files: StrMap::new(), state: StateTable::new() }
    }

    /// Store text at `path`, replacing any previous entry (and in particular
    /// dropping a linked-document URL).  Returns whether anything changed:
    /// saving the text already stored is a no-op.
    pub fn save_text(&mut self, path: &str, text: String) -> (changed: bool)
        requires
            old(self).wf(),
        ensures
            final(self).wf(),
            changed == !(old(self).files@.contains_key(path@) && old(self).files@[path@]
                == FileEntryView::Text(text@)),
            final(self).files@ == old(self).files@.insert(path@, FileEntryView::Text(text@)),
            final(self).state@ == old(self).state@,
            !changed ==> final(self).files@ == old(self).files@,
    {
        let up_to_date = match self.files.get(path) {
            Some(entry) => match entry {
                FileEntry::Text(t) => crate::text::str_eq(t.as_str(), text.as_str()),
                FileEntry::BinaryUrl(_) => false,
            },
            None => false,
        };
        if up_to_date {
            proof {
                assert(old(self).files@.insert(path@, FileEntryView::Text(text@))
                    =~= old(self).files@);
            }
            return false;
        }
        self.files.insert(path.to_owned(), FileEntry::Text(text));
        true
    }

    /// Point `path` at a linked binary document, replacing any previous
    /// entry (and in particular dropping inline text).
    pub fn set_binary_url(&mut self, path: &str, url: String)
        requires
            old(self).wf(),
        ensures
            final(self).wf(),
            final(self).files@ == old(self).files@.insert(path@, FileEntryView::BinaryUrl(url@)),
            final(self).state@ == old(self).state@,
    {
        self.files.insert(path.to_owned(), FileEntry::BinaryUrl(url));
    }

    /// The stored paths, one `String` each, in no promised order.
    pub fn list_files(&self) -> (r: Vec<String>)
        requires
            self.wf(),
        ensures
            r@.len() == self.files@.dom().len(),
            forall|i: int| 0 <= i < r@.len() ==> self.files@.contains_key(#[trigger] r@[i]@),
            forall|k: Seq<char>|
                self.files@.contains_key(k) ==> exists|i: int|
                    0 <= i < r@.len() && #[trigger] r@[i]@ == k,
            forall|i1: int, i2: int|
                0 <= i1 < i2 < r@.len() ==> #[trigger] r@[i1]@ != #[trigger] r@[i2]@,
    {
        self.files.keys()
    }

    /// Write one runtime-state value, creating the row if it is absent.
    pub fn set_state_int(&mut self, entity: String, prop: String, value: i64)
        requires
            old(self).wf(),
        ensures
            final(self).wf(),
            final(self).state@ == old(self).state@.insert((entity@, prop@), value),
            final(self).files@ == old(self).files@,
    {
        self.state.set_int(entity, prop, value);
    }

    /// Read one runtime-state value; `None` exactly when it was never set.
    pub fn get_state_int(&self, entity: &str, prop: &str) -> (r: Option<i64>)
        requires
            self.wf(),
        ensures
            match r {
                Some(v) => self.state@.contains_key((entity@, prop@)) && v == self.state@[(
                    entity@,
                    prop@,
                )],
                None => !self.state@.contains_key((entity@, prop@)),
            },
    {
        self.state.get_int(entity, prop)
    }
}

/// What reading `path` yields, given the branch's files and the locally
/// materialized binary documents: inline text directly; a linked entry only
/// if its URL parses and the binary document is present.
pub open spec fn get_file_spec(
    files: Map<Seq<char>, FileEntryView>,
    binaries: Map<Seq<char>, Seq<u8>>,
    path: Seq<char>,
) -> Option<ContentView> {
    if !files.contains_key(path) {
        None
    } else {
        match files[path] {
            FileEntryView::Text(t) => Some(ContentView::Text(t)),
            FileEntryView::BinaryUrl(u) => match parse_url_spec(u) {
                Some(id) => if binaries.contains_key(id) {
                    Some(ContentView::Bytes(binaries[id]))
                } else {
                    None
                },
                None => None,
            },
        }
    }
}

/// Read a file from a branch document, following a linked-document URL into
/// the local binary store when the entry is not inline text.
pub fn get_file(project: &ProjectDoc, binaries: &StrMap<Vec<u8>>, path: &str) -> (r: Option<
    StringOrPackedByteArray,
>)
    requires
        project.wf(),
        binaries.wf(),
    ensures
        r matches Some(c) ==> get_file_spec(project.files@, binaries@, path@) == Some(c@),
        r is None ==> get_file_spec(project.files@, binaries@, path@) is None,
{
    match project.files.get(path) {
        None => None,
        Some(entry) => match entry {
            FileEntry::Text(t) => Some(StringOrPackedByteArray::Text(t.as_str().to_owned())),
            FileEntry::BinaryUrl(u) => match crate::ids::parse_automerge_url(u.as_str()) {
                None => None,
                Some(id) => match binaries.get(id.as_str()) {
                    None => None,
                    Some(bytes) => {
                        let mut copy: Vec<u8> = Vec::new();
                        let n = bytes.len();
                        let mut i: usize = 0;
                        while i < n
                            invariant
                                i <= n,
                                n == bytes@.len(),
                                copy@ == bytes@.subrange(0, i as int),
                            decreases n - i,
                        {
                            copy.push(bytes[i]);
                            i = i + 1;
                            proof {
                                assert(copy@ =~= bytes@.subrange(0, i as int));
                            }
                        }
                        proof {
                            assert(copy@ =~= bytes@);
                        }
                        Some(StringOrPackedByteArray::Bytes(copy))
                    },
                },
            },
        },
    }
}

/// The linked-document id an entry points at, if any: a binary entry whose
/// URL carries a well-formed document id.
pub open spec fn entry_linked_id(e: FileEntryView) -> Option<Seq<char>> {
    match e {
        FileEntryView::BinaryUrl(u) => parse_url_spec(u),
        FileEntryView::Text(_) => None,
    }
}

/// The ids of every linked binary document a branch depends on: one for each
/// file entry whose URL parses to a well-formed document id.
pub open spec fn linked_ids(files: Map<Seq<char>, FileEntryView>) -> Set<Seq<char>> {
    Set::new(
        |id: Seq<char>|
            exists|path: Seq<char>|
                #[trigger] files.contains_key(path) && entry_linked_id(files[path]) == Some(id),
    )
}

/// Whether some element of the list views to the given id.
pub open spec fn has_id(s: Seq<String>, id: Seq<char>) -> bool {
    exists|m: int| 0 <= m < s.len() && #[trigger] s[m]@ == id
}

proof fn lemma_has_id_grow(s0: Seq<String>, s1: Seq<String>)
    requires
        s1.len() == s0.len() + 1,
        forall|m: int| 0 <= m < s0.len() ==> s1[m] == s0[m],
    ensures
        forall|id: Seq<char>| #[trigger] has_id(s0, id) ==> has_id(s1, id),
        has_id(s1, s1.last()@),
{
    assert forall|id: Seq<char>| #[trigger] has_id(s0, id) implies has_id(s1, id) by {
        let m = choose|m: int| 0 <= m < s0.len() && #[trigger] s0[m]@ == id;
        assert(s1[m]@ == id);
    }
    assert(s1[s1.len() - 1]@ == s1.last()@);
}

/// Walk a branch document and collect the ids of all linked binary
/// documents.  This is the one place that defines what a branch depends on.
pub fn get_linked_docs_of_branch(project: &ProjectDoc) -> (r: Vec<String>)
    requires
        project.wf(),
    ensures
        forall|i: int| 0 <= i < r@.len() ==> linked_ids(project.files@).contains(#[trigger] r@[i]@),
        forall|id: Seq<char>| linked_ids(project.files@).contains(id) ==> has_id(r@, id),
{
    let paths = project.files.keys();
    let mut r: Vec<String> = Vec::new();
    let n = paths.len();
    let mut i: usize = 0;
    while i < n
        invariant
            i <= n,
            n == paths@.len(),
            project.wf(),
            forall|j: int| 0 <= j < n ==> project.files@.contains_key(#[trigger] paths@[j]@),
            forall|k: Seq<char>|
                project.files@.contains_key(k) ==> exists|j: int|
                    0 <= j < n && #[trigger] paths@[j]@ == k,
            forall|j: int|
                0 <= j < r@.len() ==> linked_ids(project.files@).contains(#[trigger] r@[j]@),
            forall|j: int|
                0 <= j < i ==> (entry_linked_id(project.files@[#[trigger] paths@[j]@]) matches Some(
                    idv,
                ) ==> has_id(r@, idv)),
        decreases n - i,
    {
        let path = &paths[i];
        match project.files.get(path.as_str()) {
            Some(entry) => match entry {
                FileEntry::BinaryUrl(u) => match crate::ids::parse_automerge_url(u.as_str()) {
                    Some(id) => {
                        proof {
                            assert(project.files@.contains_key(paths@[i as int]@)
                                && entry_linked_id(project.files@[paths@[i as int]@]) == Some(id@));
                            assert(linked_ids(project.files@).contains(id@));
                        }
                        let ghost r0 = r@;
                        r.push(id);
                        proof {
                            lemma_has_id_grow(r0, r@);
                        }
                    },
                    None => {},
                },
                FileEntry::Text(_) => {},
            },
            None => {},
        }
        i = i + 1;
    }
    proof {
        assert forall|id: Seq<char>| linked_ids(project.files@).contains(id) implies has_id(
            r@,
            id,
        ) by {
            let path = choose|path: Seq<char>|
                #[trigger] project.files@.contains_key(path) && entry_linked_id(
                    project.files@[path],
                ) == Some(id);
            let j = choose|j: int| 0 <= j < n && #[trigger] paths@[j]@ == path;
            assert(entry_linked_id(project.files@[paths@[j]@]) == Some(id));
        }
    }
    r
}

/// Byte-for-byte equality of two byte vectors.
pub fn bytes_eq(a: &Vec<u8>, b: &Vec<u8>) -> (r: bool)
    ensures
        r == (a@ == b@),
{
    let na = a.len();
    let nb = b.len();
    if na != nb {
        proof {
            assert(a@.len() != b@.len());
        }
        return false;
    }
    let mut i: usize = 0;
    while i < na
        invariant
            i <= na,
            na == a@.len(),
            na == b@.len(),
            forall|j: int| 0 <= j < i ==> a@[j] == b@[j],
        decreases na - i,
    {
        if a[i] != b[i] {
            return false;
        }
        i = i + 1;
    }
    proof {
        assert(a@ =~= b@);
    }
    true
}

/// What one save request did.
pub enum SaveOutcome {
    /// The file already held this content; nothing was written.
    NoChange,
    /// The text was written into the branch document.
    SavedText,
    /// A binary document was created and linked from the branch document.
    SavedBinary,
    /// Binary content needs a freshly allocated document id; the caller
    /// allocates one and calls again.
    NeedsBinaryDoc,
}

/// Save a file into a branch document.  Text goes inline; bytes go into a
/// new binary document (under `fresh_binary_doc_id`) linked by URL.  Saving
/// what the file already holds is a no-op.
pub fn save_file(
    doc: &mut ProjectDoc,
    binaries: &mut StrMap<Vec<u8>>,
    path: &str,
    content: StringOrPackedByteArray,
    fresh_binary_doc_id: Option<String>,
) -> (r: SaveOutcome)
    requires
        old(doc).wf(),
        old(binaries).wf(),
    ensures
        final(doc).wf(),
        final(binaries).wf(),
        final(doc).state@ == old(doc).state@,
        content matches StringOrPackedByteArray::Text(t) ==> {
            &&& final(binaries)@ == old(binaries)@
            &&& old(doc).files@.contains_key(path@) && old(doc).files@[path@]
                == FileEntryView::Text(t@) ==> r is NoChange && final(doc).files@ == old(
                doc,
            ).files@
            &&& !(old(doc).files@.contains_key(path@) && old(doc).files@[path@]
                == FileEntryView::Text(t@)) ==> r is SavedText && final(doc).files@ == old(
                doc,
            ).files@.insert(path@, FileEntryView::Text(t@))
        },
        content matches StringOrPackedByteArray::Bytes(b) ==> {
            &&& get_file_spec(old(doc).files@, old(binaries)@, path@) == Some(
                ContentView::Bytes(b@),
            ) ==> r is NoChange && final(doc).files@ == old(doc).files@ && final(binaries)@
                == old(binaries)@
            &&& get_file_spec(old(doc).files@, old(binaries)@, path@) != Some(
                ContentView::Bytes(b@),
            ) ==> match fresh_binary_doc_id {
                None => r is NeedsBinaryDoc && final(doc).files@ == old(doc).files@
                    && final(binaries)@ == old(binaries)@,
                Some(id) => r is SavedBinary && final(binaries)@ == old(binaries)@.insert(id@, b@)
                    && final(doc).files@ == old(doc).files@.insert(
                    path@,
                    FileEntryView::BinaryUrl("automerge:"@ + id@),
                ),
            }
        },
{
    match content {
        StringOrPackedByteArray::Text(t) => {
            let changed = doc.save_text(path, t);
            if changed {
                SaveOutcome::SavedText
            } else {
                SaveOutcome::NoChange
            }
        },
        StringOrPackedByteArray::Bytes(b) => {
            let same = match get_file(doc, binaries, path) {
                Some(StringOrPackedByteArray::Bytes(cur)) => bytes_eq(&cur, &b),
                Some(StringOrPackedByteArray::Text(_)) => false,
                None => false,
            };
            if same {
                SaveOutcome::NoChange
            } else {
                match fresh_binary_doc_id {
                    None => SaveOutcome::NeedsBinaryDoc,
                    Some(id) => {
                        let url = crate::ids::make_automerge_url(id.as_str());
                        binaries.insert(id, b);
                        doc.set_binary_url(path, url);
                        SaveOutcome::SavedBinary
                    },
                }
            }
        },
    }
}

/// Saving the same text twice changes the document at most once: after one
/// save the entry already equals the text, so the second save is a no-op.
pub proof fn lemma_save_text_idempotent(files: Map<Seq<char>, FileEntryView>, path: Seq<char>, text: Seq<char>)
    ensures
        files.insert(path, FileEntryView::Text(text)).contains_key(path),
        files.insert(path, FileEntryView::Text(text))[path] == FileEntryView::Text(text),
{
}

/// Saves to distinct paths commute: applying them in either order yields the
/// same files map, the model-level core of branch convergence for disjoint
/// concurrent edits.
pub proof fn lemma_disjoint_saves_commute(
    files: Map<Seq<char>, FileEntryView>,
    p1: Seq<char>,
    e1: FileEntryView,
    p2: Seq<char>,
    e2: FileEntryView,
)
    requires
        p1 != p2,
    ensures
        files.insert(p1, e1).insert(p2, e2) == files.insert(p2, e2).insert(p1, e1),
{
    assert(files.insert(p1, e1).insert(p2, e2) =~= files.insert(p2, e2).insert(p1, e1));
}

/// State writes to distinct entity-property pairs commute as well, so the
/// same convergence argument covers the runtime-state map.
pub proof fn lemma_disjoint_state_writes_commute(
    state: Map<(Seq<char>, Seq<char>), i64>,
    k1: (Seq<char>, Seq<char>),
    v1: i64,
    k2: (Seq<char>, Seq<char>),
    v2: i64,
)
    requires
        k1 != k2,
    ensures
        state.insert(k1, v1).insert(k2, v2) == state.insert(k2, v2).insert(k1, v1),
{
    assert(state.insert(k1, v1).insert(k2, v2) =~= state.insert(k2, v2).insert(k1, v1));
}

} // verus!
