//! Parser for the sectioned scene text format.
//!
//! The grammar this library depends on is the sectioned structure: a scene
//! file is a sequence of lines; a line whose trimmed text is wrapped in
//! `[` and `]` opens a section with an identifier and `key=value` header
//! attributes (values either `"`-quoted or bare tokens); a `key = value`
//! line below a header adds a body property; blank and unrecognized lines
//! are skipped.  `node` sections are filed under their computed path,
//! `ext_resource` sections under their unquoted `id` attribute, and property
//! values of form `ExtResource("<id>")` are replaced by the referenced
//! resource's path.  The whole grammar is written down in spec functions and
//! the executable parser is proved to follow them exactly.

use vstd::prelude::*;

use crate::scene::GodotSceneNode;
use crate::scene::NodeView;
use crate::scene::PackedGodotScene;
use crate::scene::SceneView;
use crate::scene::ext_resource_path_spec;
use crate::scene::node_path_spec;
use crate::scene::unquote_spec;
use crate::strmap::StrMap;
use crate::text::subvec;

verus! {

/// Spacing characters inside and around lines: space, tab, and the carriage
/// return left by CRLF line endings.
pub open spec fn is_blank(c: char) -> bool {
    c == ' ' || c == '\t' || c == '\r'
}

/// Executable form of `is_blank`.
pub fn blank(c: char) -> (r: bool)
    ensures
        r == is_blank(c),
{
    c == ' ' || c == '\t' || c == '\r'
}

/// Index of the first occurrence of `c` at or after `i`, or the length.
pub open spec fn find_char_spec(s: Seq<char>, i: int, c: char) -> int
    decreases s.len() - i,
{
    if i >= s.len() {
        s.len() as int
    } else if s[i] == c {
        i
    } else {
        find_char_spec(s, i + 1, c)
    }
}

pub proof fn lemma_find_char(s: Seq<char>, i: int, c: char)
    requires
        i <= s.len(),
    ensures
        i <= find_char_spec(s, i, c) <= s.len(),
        find_char_spec(s, i, c) < s.len() ==> s[find_char_spec(s, i, c)] == c,
    decreases s.len() - i,
{
    if i < s.len() && s[i] != c {
        lemma_find_char(s, i + 1, c);
    }
}

/// Index of the first non-blank character at or after `i`, or the length.
pub open spec fn skip_blanks_spec(s: Seq<char>, i: int) -> int
    decreases s.len() - i,
{
    if i >= s.len() {
        s.len() as int
    } else if is_blank(s[i]) {
        skip_blanks_spec(s, i + 1)
    } else {
        i
    }
}

pub proof fn lemma_skip_blanks(s: Seq<char>, i: int)
    requires
        i <= s.len(),
    ensures
        i <= skip_blanks_spec(s, i) <= s.len(),
    decreases s.len() - i,
{
    if i < s.len() && is_blank(s[i]) {
        lemma_skip_blanks(s, i + 1);
    }
}

/// Index of the first blank character at or after `i`, or the length.
pub open spec fn find_blank_spec(s: Seq<char>, i: int) -> int
    decreases s.len() - i,
{
    if i >= s.len() {
        s.len() as int
    } else if is_blank(s[i]) {
        i
    } else {
        find_blank_spec(s, i + 1)
    }
}

pub proof fn lemma_find_blank(s: Seq<char>, i: int)
    requires
        i <= s.len(),
    ensures
        i <= find_blank_spec(s, i) <= s.len(),
    decreases s.len() - i,
{
    if i < s.len() && !is_blank(s[i]) {
        lemma_find_blank(s, i + 1);
    }
}

/// The end of the text once trailing blanks before `e` are dropped.
pub open spec fn trim_end_spec(s: Seq<char>, e: int) -> int
    decreases e,
{
    if e <= 0 {
        0
    } else if is_blank(s[e - 1]) {
        trim_end_spec(s, e - 1)
    } else {
        e
    }
}

pub proof fn lemma_trim_end(s: Seq<char>, e: int)
    requires
        0 <= e <= s.len(),
    ensures
        0 <= trim_end_spec(s, e) <= e,
    decreases e,
{
    if e > 0 && is_blank(s[e - 1]) {
        lemma_trim_end(s, e - 1);
    }
}

/// The text with leading and trailing blanks removed.
pub open spec fn trim_spec(s: Seq<char>) -> Seq<char> {
    let a = skip_blanks_spec(s, 0);
    let b = trim_end_spec(s, s.len() as int);
    if a <= b {
        s.subrange(a, b)
    } else {
        Seq::empty()
    }
}

pub fn find_char(s: &Vec<char>, i: usize, c: char) -> (r: usize)
    requires
        i <= s@.len(),
    ensures
        r as int == find_char_spec(s@, i as int, c),
        i <= r <= s@.len(),
    decreases s@.len() - i,
{
    if i >= s.len() {
        s.len()
    } else if s[i] == c {
        i
    } else {
        find_char(s, i + 1, c)
    }
}

pub fn skip_blanks(s: &Vec<char>, i: usize) -> (r: usize)
    requires
        i <= s@.len(),
    ensures
        r as int == skip_blanks_spec(s@, i as int),
        i <= r <= s@.len(),
    decreases s@.len() - i,
{
    if i >= s.len() {
        s.len()
    } else if blank(s[i]) {
        skip_blanks(s, i + 1)
    } else {
        i
    }
}

pub fn find_blank(s: &Vec<char>, i: usize) -> (r: usize)
    requires
        i <= s@.len(),
    ensures
        r as int == find_blank_spec(s@, i as int),
        i <= r <= s@.len(),
    decreases s@.len() - i,
{
    if i >= s.len() {
        s.len()
    } else if blank(s[i]) {
        i
    } else {
        find_blank(s, i + 1)
    }
}

pub fn trim_end(s: &Vec<char>, e: usize) -> (r: usize)
    requires
        e <= s@.len(),
    ensures
        r as int == trim_end_spec(s@, e as int),
        r <= e,
    decreases e,
{
    if e == 0 {
        0
    } else if blank(s[e - 1]) {
        trim_end(s, e - 1)
    } else {
        e
    }
}

/// Drop leading and trailing blanks.
pub fn trim(s: &Vec<char>) -> (r: Vec<char>)
    ensures
        r@ == trim_spec(s@),
{
    let a = skip_blanks(s, 0);
    let b = trim_end(s, s.len());
    if a <= b {
        subvec(s, a, b)
    } else {
        Vec::new()
    }
}

/// Header attributes from `i` on: blank-separated `key=value` pairs, the
/// value either `"`-quoted (quotes kept) or a bare token.  `None` marks a
/// malformed header: a stray token without `=`, an empty key, or an
/// unterminated quote.  Later pairs overwrite earlier ones in `m`.
pub open spec fn parse_attrs_spec(
    s: Seq<char>,
    i: int,
    m: Map<Seq<char>, Seq<char>>,
) -> Option<Map<Seq<char>, Seq<char>>>
    decreases s.len() - i,
    via parse_attrs_spec_dec
{
    let j = skip_blanks_spec(s, i);
    if j >= s.len() {
        Some(m)
    } else {
        let e = find_char_spec(s, j, '=');
        if e >= s.len() || e == j || find_blank_spec(s, j) < e {
            None
        } else {
            let key = s.subrange(j, e);
            let v = e + 1;
            if v < s.len() && s[v] == '"' {
                let close = find_char_spec(s, v + 1, '"');
                if close >= s.len() {
                    None
                } else {
                    parse_attrs_spec(s, close + 1, m.insert(key, s.subrange(v, close + 1)))
                }
            } else {
                let w = find_blank_spec(s, v);
                parse_attrs_spec(s, w, m.insert(key, s.subrange(v, w)))
            }
        }
    }
}

#[via_fn]
proof fn parse_attrs_spec_dec(s: Seq<char>, i: int, m: Map<Seq<char>, Seq<char>>) {
    if i <= s.len() {
        lemma_skip_blanks(s, i);
        let j = skip_blanks_spec(s, i);
        if j < s.len() {
            lemma_find_char(s, j, '=');
            let e = find_char_spec(s, j, '=');
            if e < s.len() {
                let v = e + 1;
                if v < s.len() && s[v] == '"' {
                    lemma_find_char(s, v + 1, '"');
                } else {
                    lemma_find_blank(s, v);
                }
            }
        }
    }
}

/// Parse header attributes into `m`; returns whether the header text from
/// `i` on is well formed, and on success leaves exactly the parsed map.
pub fn parse_attrs(s: &Vec<char>, i: usize, m: &mut StrMap<String>) -> (ok: bool)
    requires
        i <= s@.len(),
        old(m).wf(),
    ensures
        final(m).wf(),
        match parse_attrs_spec(s@, i as int, old(m)@) {
            Some(m2) => ok && final(m)@ == m2,
            None => !ok,
        },
    decreases s@.len() - i,
{
    let j = skip_blanks(s, i);
    if j >= s.len() {
        return true;
    }
    let e = find_char(s, j, '=');
    if e >= s.len() || e == j || find_blank(s, j) < e {
        return false;
    }
    let key = crate::text::chars_to_string(&subvec(s, j, e));
    let v = e + 1;
    if v < s.len() && s[v] == '"' {
        let close = find_char(s, v + 1, '"');
        if close >= s.len() {
            return false;
        }
        let value = crate::text::chars_to_string(&subvec(s, v, close + 1));
        m.insert(key, value);
        parse_attrs(s, close + 1, m)
    } else {
        let w = find_blank(s, v);
        let value = crate::text::chars_to_string(&subvec(s, v, w));
        m.insert(key, value);
        parse_attrs(s, w, m)
    }
}

/// A section header line (already trimmed): identifier and attributes
/// wrapped in `[` and `]`.
pub open spec fn parse_header_spec(t: Seq<char>) -> Option<
    (Seq<char>, Map<Seq<char>, Seq<char>>),
> {
    if t.len() < 2 || t[t.len() - 1] != ']' {
        None
    } else {
        let inner = t.subrange(1, t.len() - 1);
        let j = skip_blanks_spec(inner, 0);
        let e = find_blank_spec(inner, j);
        let id = inner.subrange(j, e);
        if id.len() == 0 {
            None
        } else {
            match parse_attrs_spec(inner, e, Map::empty()) {
                Some(attrs) => Some((id, attrs)),
                None => None,
            }
        }
    }
}

/// Parse a trimmed header line into its identifier and attribute map.
pub fn parse_header(t: &Vec<char>) -> (r: Option<(String, StrMap<String>)>)
    ensures
        match r {
            Some(pair) => parse_header_spec(t@) matches Some(sp) && sp.0 == pair.0@ && sp.1
                == pair.1@ && pair.1.wf(),
            None => parse_header_spec(t@) is None,
        },
{
    let n = t.len();
    if n < 2 || t[n - 1] != ']' {
        return None;
    }
    let inner = subvec(t, 1, n - 1);
    let j = skip_blanks(&inner, 0);
    let e = find_blank(&inner, j);
    if e == j {
        proof {
            assert(parse_header_spec(t@) is None);
        }
        return None;
    }
    let id = crate::text::chars_to_string(&subvec(&inner, j, e));
    let mut attrs: StrMap<String> = StrMap::new();
    if parse_attrs(&inner, e, &mut attrs) {
        Some((id, attrs))
    } else {
        None
    }
}

/// Parser state: the scene collected so far and the open section, if any.
#[verifier::ext_equal]
pub struct ParseState {
    pub scene: SceneView,
    pub cur: Option<(Seq<char>, NodeView)>,
}

/// The open section as the specification sees it.
pub open spec fn cur_view(c: Option<(String, GodotSceneNode)>) -> Option<(Seq<char>, NodeView)> {
    match c {
        Some(p) => Some((p.0@, p.1@)),
        None => None,
    }
}

/// The open section's node is well formed.
pub open spec fn cur_wf(c: Option<(String, GodotSceneNode)>) -> bool {
    match c {
        Some(p) => p.1.wf(),
        None => true,
    }
}

/// The parser state described by the executable scene and section.
pub open spec fn st_of(scene: PackedGodotScene, cur: Option<(String, GodotSceneNode)>) -> ParseState {
    ParseState { scene: scene@, cur: cur_view(cur) }
}

/// A property value with any `ExtResource("<id>")` reference resolved to the
/// referenced resource's path; other values pass through unchanged.
pub open spec fn subst_value_spec(ext: Map<Seq<char>, NodeView>, v: Seq<char>) -> Seq<char> {
    match ext_resource_path_spec(ext, v) {
        Some(p) => p,
        None => v,
    }
}

/// Header attributes with the `instance` attribute resolved the same way.
pub open spec fn subst_instance_spec(
    ext: Map<Seq<char>, NodeView>,
    attrs: Map<Seq<char>, Seq<char>>,
) -> Map<Seq<char>, Seq<char>> {
    if attrs.contains_key("instance"@) {
        match ext_resource_path_spec(ext, attrs["instance"@]) {
            Some(p) => attrs.insert("instance"@, p),
            None => attrs,
        }
    } else {
        attrs
    }
}

/// Close the open section: a `node` section is filed under its computed
/// path (dropped when it has no name), an `ext_resource` section under its
/// unquoted `id` attribute (dropped without one), any other section is
/// discarded.
pub open spec fn flush_spec(st: ParseState) -> SceneView {
    match st.cur {
        None => st.scene,
        Some((id, nv)) => {
            if id == "node"@ {
                match node_path_spec(st.scene.nodes, nv) {
                    Some(p) => SceneView {
                        nodes: st.scene.nodes.insert(p, nv),
                        external_resources: st.scene.external_resources,
                    },
                    None => st.scene,
                }
            } else if id == "ext_resource"@ {
                if nv.attributes.contains_key("id"@) {
                    SceneView {
                        nodes: st.scene.nodes,
                        external_resources: st.scene.external_resources.insert(
                            unquote_spec(nv.attributes["id"@]),
                            nv,
                        ),
                    }
                } else {
                    st.scene
                }
            } else {
                st.scene
            }
        },
    }
}

/// One line of input applied to the state.  A header line closes the open
/// section and opens a new one (with the `instance` attribute of a `node`
/// section resolved against the resources collected so far); a `key = value`
/// line adds a property to the open section, its value resolved the same
/// way; anything else is skipped.  `None` marks a malformed header.
pub open spec fn step_line_spec(st: ParseState, line: Seq<char>) -> Option<ParseState> {
    let t = trim_spec(line);
    if t.len() == 0 {
        Some(st)
    } else if t[0] == '[' {
        match parse_header_spec(t) {
            None => None,
            Some(pair) => {
                let scene1 = flush_spec(st);
                let attrs2 = if pair.0 == "node"@ {
                    subst_instance_spec(scene1.external_resources, pair.1)
                } else {
                    pair.1
                };
                Some(
                    ParseState {
                        scene: scene1,
                        cur: Some(
                            (
                                pair.0,
                                NodeView {
                                    attributes: attrs2,
                                    properties: Map::<Seq<char>, Seq<char>>::empty(),
                                },
                            ),
                        ),
                    },
                )
            },
        }
    } else {
        let e = find_char_spec(t, 0, '=');
        if e < t.len() {
            let key = trim_spec(t.subrange(0, e));
            let value = trim_spec(t.subrange(e + 1, t.len() as int));
            if key.len() == 0 {
                Some(st)
            } else {
                match st.cur {
                    None => Some(st),
                    Some(open_section) => Some(
                        ParseState {
                            scene: st.scene,
                            cur: Some(
                                (
                                    open_section.0,
                                    NodeView {
                                        attributes: open_section.1.attributes,
                                        properties: open_section.1.properties.insert(
                                            key,
                                            subst_value_spec(
                                                st.scene.external_resources,
                                                value,
                                            ),
                                        ),
                                    },
                                ),
                            ),
                        },
                    ),
                }
            }
        } else {
            Some(st)
        }
    }
}

/// The scene described by the input from position `i` on, starting from
/// state `st`: lines are split at `\n` and applied one by one, and the last
/// open section is closed at the end.  `None` marks a malformed header.
pub open spec fn parse_lines_spec(st: ParseState, s: Seq<char>, i: int) -> Option<SceneView>
    decreases s.len() - i + 1,
    via parse_lines_spec_dec
{
    if i >= s.len() {
        Some(flush_spec(st))
    } else {
        let e = find_char_spec(s, i, '\n');
        match step_line_spec(st, s.subrange(i, e)) {
            None => None,
            Some(st2) => parse_lines_spec(st2, s, e + 1),
        }
    }
}

#[via_fn]
proof fn parse_lines_spec_dec(st: ParseState, s: Seq<char>, i: int) {
    if i <= s.len() {
        lemma_find_char(s, i, '\n');
    }
}

/// The scene a whole input describes.
pub open spec fn parse_scene_spec(s: Seq<char>) -> Option<SceneView> {
    parse_lines_spec(
        ParseState {
            scene: SceneView {
                nodes: Map::<Seq<char>, NodeView>::empty(),
                external_resources: Map::<Seq<char>, NodeView>::empty(),
            },
            cur: None,
        },
        s,
        0,
    )
}

/// Close the open section into the scene.
fn flush(scene: &mut PackedGodotScene, cur: Option<(String, GodotSceneNode)>)
    requires
        old(scene).wf(),
        cur_wf(cur),
    ensures
        final(scene).wf(),
        final(scene)@ == flush_spec(st_of(*old(scene), cur)),
{
    match cur {
        None => {},
        Some((id, node)) => {
            if crate::text::str_eq(id.as_str(), "node") {
                match crate::scene::get_node_path(scene, &node) {
                    Some(p) => {
                        scene.insert_node(p, node);
                        proof {
                            assert(scene@ =~~= flush_spec(st_of(*old(scene), cur)));
                        }
                    },
                    None => {},
                }
            } else if crate::text::str_eq(id.as_str(), "ext_resource") {
                let key_opt = match node.get_attribute("id") {
                    Some(v) => Some(crate::scene::unquote(v.as_str())),
                    None => None,
                };
                match key_opt {
                    Some(k) => {
                        scene.insert_external_resource(k, node);
                        proof {
                            assert(scene@ =~~= flush_spec(st_of(*old(scene), cur)));
                        }
                    },
                    None => {},
                }
            }
        },
    }
}

/// Parse a scene text into its structured form.  Succeeds exactly when
/// every header line is well formed, and then returns precisely the scene
/// the grammar ascribes to the text.
pub fn parse(source: &str) -> (r: Result<PackedGodotScene, String>)
    ensures
        r matches Ok(sc) ==> parse_scene_spec(source@) == Some(sc@) && sc.wf(),
        r is Err <==> parse_scene_spec(source@) is None,
{
    let chars = crate::text::str_to_chars(source);
    let mut scene = PackedGodotScene::empty();
    let mut cur: Option<(String, GodotSceneNode)> = None;
    let n = chars.len();
    let mut i: usize = 0;
    proof {
        assert(st_of(scene, cur) =~~= ParseState {
            scene: SceneView {
                nodes: Map::<Seq<char>, NodeView>::empty(),
                external_resources: Map::<Seq<char>, NodeView>::empty(),
            },
            cur: None,
        });
    }
    while i < n
        invariant
            i <= n,
            n == chars@.len(),
            chars@ == source@,
            scene.wf(),
            cur_wf(cur),
            parse_lines_spec(st_of(scene, cur), chars@, i as int) == parse_scene_spec(source@),
        decreases n - i,
    {
        let ghost st0 = st_of(scene, cur);
        let e = find_char(&chars, i, '\n');
        let line = subvec(&chars, i, e);
        let t = trim(&line);
        if t.len() == 0 {
        } else if t[0] == '[' {
            match parse_header(&t) {
                None => {
                    proof {
                        assert(step_line_spec(st0, line@) is None);
                        assert(parse_scene_spec(source@) is None);
                    }
                    return Err("failed to parse scene file".to_owned());
                },
                Some((id, mut attrs)) => {
                    let ghost attrs0 = attrs@;
                    flush(&mut scene, cur);
                    let is_node = crate::text::str_eq(id.as_str(), "node");
                    let inst_path: Option<String> = if is_node {
                        match attrs.get("instance") {
                            Some(vstr) => crate::scene::external_resource_to_path(
                                vstr.as_str(),
                                &scene,
                            ),
                            None => None,
                        }
                    } else {
                        None
                    };
                    match inst_path {
                        Some(p) => {
                            attrs.insert("instance".to_owned(), p);
                        },
                        None => {},
                    }
                    proof {
                        assert(attrs@ == if id@ == "node"@ {
                            subst_instance_spec(scene@.external_resources, attrs0)
                        } else {
                            attrs0
                        });
                    }
                    cur = Some((id, GodotSceneNode::from_maps(attrs, StrMap::new())));
                    proof {
                        assert(step_line_spec(st0, line@) matches Some(st2) && st2 =~~= st_of(
                            scene,
                            cur,
                        ));
                    }
                },
            }
        } else {
            let e2 = find_char(&t, 0, '=');
            if e2 < t.len() {
                let key_chars = trim(&subvec(&t, 0, e2));
                let value_chars = trim(&subvec(&t, e2 + 1, t.len()));
                if key_chars.len() > 0 {
                    match &mut cur {
                        Some(pair) => {
                            let vs = crate::text::chars_to_string(&value_chars);
                            let v2 = match crate::scene::external_resource_to_path(
                                vs.as_str(),
                                &scene,
                            ) {
                                Some(p) => p,
                                None => vs,
                            };
                            let ks = crate::text::chars_to_string(&key_chars);
                            pair.1.set_property(ks, v2);
                        },
                        None => {},
                    }
                    proof {
                        assert(step_line_spec(st0, line@) matches Some(st2) && st2 =~~= st_of(
                            scene,
                            cur,
                        ));
                    }
                }
            }
        }
        proof {
            assert(step_line_spec(st0, line@) matches Some(st2) && st2 =~~= st_of(scene, cur));
            if e as int + 1 > chars@.len() {
                assert(parse_lines_spec(st_of(scene, cur), chars@, e as int + 1)
                    == parse_lines_spec(st_of(scene, cur), chars@, chars@.len() as int));
            }
        }
        if e < n {
            i = e + 1;
        } else {
            i = n;
        }
    }
    flush(&mut scene, cur);
    proof {
        assert(parse_lines_spec(st_of(scene, None), chars@, i as int) == Some(flush_spec(st_of(
            scene,
            None,
        ))));
    }
    Ok(scene)
}

/// Whether a saved path is the scene file this projection tracks.
pub open spec fn is_scene_path(p: Seq<char>) -> bool {
    p.len() >= 9 && p.subrange(p.len() - 9, p.len() as int) == "main.tscn"@
}

/// Executable form of `is_scene_path`.
pub fn path_is_scene(path: &str) -> (r: bool)
    ensures
        r == is_scene_path(path@),
{
    let n = path.unicode_len();
    if n < 9 {
        return false;
    }
    let tail = path.substring_char(n - 9, n);
    crate::text::str_eq(tail, "main.tscn")
}

/// Save scene text into the scene document: a path other than the tracked
/// scene file is ignored; otherwise the text is parsed and the parsed scene
/// reconciled into the document, with a parse failure reported and the
/// document left untouched.
pub fn save_scene(doc: &mut PackedGodotScene, path: &str, source: &str) -> (r: Result<
    bool,
    String,
>)
    requires
        old(doc).wf(),
    ensures
        final(doc).wf(),
        !is_scene_path(path@) ==> (r matches Ok(b) && b == false && final(doc)@ == old(doc)@),
        is_scene_path(path@) ==> match parse_scene_spec(source@) {
            Some(sv) => r matches Ok(b) && b == true && crate::scene::reconcile_post(
                old(doc)@,
                sv,
                final(doc)@,
            ),
            None => r is Err && final(doc)@ == old(doc)@,
        },
{
    if !path_is_scene(path) {
        return Ok(false);
    }
    match parse(source) {
        Ok(scene) => {
            crate::scene::reconcile_scene(doc, &scene);
            Ok(true)
        },
        Err(e) => Err(e),
    }
}

} // verus!
