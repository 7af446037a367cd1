use crate::config::MAX_JOINT_COUNT;
use crate::model::graph::{build_graph_run_indices, graph_run_order, is_forest, is_node_forest};
use crate::model::names::{
    collision_key, has_no_separator, has_word, lemma_name_words_split, lemma_name_words_whole, name_words,
};
use crate::text::{one_of, same_text, split_pieces};
use vstd::prelude::*;

verus! {

/// What a glTF file says about the structure of a model, as plain values:
/// each node's children, the nodes of the default scene (if the file has
/// one), each skin's joint nodes, which nodes carry a light, and each mesh's
/// name. Entries are in the file's index order.
#[derive(Debug)]
pub struct GltfOutline {
    pub node_children: Vec<Vec<usize>>,
    pub scene_roots: Option<Vec<usize>>,
    pub skin_joints: Vec<Vec<usize>>,
    pub node_lights: Vec<bool>,
    pub mesh_names: Vec<Option<String>>,
}

/// The outline that `gltf::Gltf::from_slice` (which parses and validates
/// the document and resolves no URI) reads from a file's bytes, or nothing
/// when it rejects them.
pub uninterp spec fn gltf_outline_of(bytes: Seq<u8>) -> Option<GltfOutline>;

/// Accessor references of a glTF document: for each mesh and each of its
/// primitives, the accessor indices of its attributes; and how many
/// accessors the document has.
#[derive(Debug)]
pub struct AttributeRefs {
    pub primitives: Vec<Vec<Vec<usize>>>,
    pub accessor_count: usize,
}

/// The accessor references that `gltf::Gltf::from_slice_without_validation`
/// reads from a file's bytes, or nothing when it cannot parse them.
pub uninterp spec fn gltf_attribute_refs_of(bytes: Seq<u8>) -> Option<AttributeRefs>;

/// The bytes do not start with a binary glTF header whose length field is
/// below the header's own 12 bytes (`gltf` subtracts 12 from that field
/// without a check).
pub open spec fn glb_length_sound(b: Seq<u8>) -> bool {
    !(b.len() >= 12 && b[0] == 0x67u8 && b[1] == 0x6cu8 && b[2] == 0x54u8 && b[3] == 0x46u8
        && b[8] < 12u8 && b[9] == 0u8 && b[10] == 0u8 && b[11] == 0u8)
}

/// Every attribute refers to an existing accessor.
pub open spec fn refs_in_range(a: AttributeRefs) -> bool {
    forall|m: int, p: int, k: int|
        0 <= m < a.primitives@.len() && 0 <= p < a.primitives@[m]@.len() && 0 <= k < a.primitives@[m]@[p]@.len()
            ==> (#[trigger] a.primitives@[m]@[p]@[k]) < a.accessor_count
}

/// Trusted: `gltf::Gltf::from_slice_without_validation`, then the accessor
/// indices of each primitive's attributes and the number of accessors, read
/// from the parsed JSON. It neither validates nor resolves URIs. The contract
/// only names the result; `requires` leaves out the binary header on which
/// the length subtraction overflows.
#[verifier::external_body]
fn read_attribute_refs(bytes: &[u8]) -> (r: Option<AttributeRefs>)
    requires
        glb_length_sound(bytes@),
    ensures
        r == gltf_attribute_refs_of(bytes@),
{
    let gltf = gltf::Gltf::from_slice_without_validation(bytes).ok()?;
    let root = gltf.as_json();
    Some(AttributeRefs {
        primitives: root.meshes.iter().map(|m| m.primitives.iter().map(|p| p.attributes.values().map(|a| a.value()).collect()).collect()).collect(),
        accessor_count: root.accessors.len(),
    })
}

/// Trusted: `gltf::Gltf::from_slice` (parse, then validation; no URI is
/// resolved), then the structure of the validated document, converted index
/// by index. The contract only names the result. `requires` leaves out the
/// inputs on which the call panics: the binary header above, and a
/// primitive whose `POSITION` accessor index is out of range (validation
/// indexes the accessors with it unchecked); the second call parses the same
/// bytes as `read_attribute_refs`, so its references are those.
#[verifier::external_body]
fn import_outline(bytes: &[u8]) -> (r: Option<GltfOutline>)
    requires
        glb_length_sound(bytes@),
        gltf_attribute_refs_of(bytes@) matches Some(a) ==> refs_in_range(a),
    ensures
        r == gltf_outline_of(bytes@),
{
    let doc = gltf::Gltf::from_slice(bytes).ok()?;
    Some(GltfOutline {
        node_children: doc.nodes().map(|n| n.children().map(|c| c.index()).collect()).collect(),
        scene_roots: doc.default_scene().map(|s| s.nodes().map(|n| n.index()).collect()),
        skin_joints: doc.skins().map(|s| s.joints().map(|j| j.index()).collect()).collect(),
        node_lights: doc.nodes().map(|n| n.light().is_some()).collect(),
        mesh_names: doc.meshes().map(|m| m.name().map(String::from)).collect(),
    })
}

/// The bytes begin with the binary glTF magic `glTF` and hold a whole
/// 12-byte header.
pub open spec fn starts_as_glb(b: Seq<u8>) -> bool {
    b.len() >= 12 && b.take(4) == seq![0x67u8, 0x6cu8, 0x54u8, 0x46u8]
}

/// The header's length field: the little-endian 32-bit number in bytes 8 to 11.
pub open spec fn glb_length_field(b: Seq<u8>) -> int {
    b[8] as int + 256 * (b[9] as int) + 65536 * (b[10] as int) + 16777216 * (b[11] as int)
}

/// The only bytes turned away before the parser sees them are binary glTF
/// headers whose length field is below 12. Every other file is read as the
/// parser reads it: its outline when all attributes refer to existing
/// accessors, nothing otherwise.
pub proof fn lemma_only_short_glb_headers_refused(b: Seq<u8>)
    ensures
        glb_length_sound(b) <==> !(starts_as_glb(b) && glb_length_field(b) < 12),
        !(starts_as_glb(b) && glb_length_field(b) < 12) ==> (gltf_attribute_refs_of(b) matches Some(a)
            && refs_in_range(a) ==> readable_outline(b) == gltf_outline_of(b)),
        !(starts_as_glb(b) && glb_length_field(b) < 12) ==> (gltf_attribute_refs_of(b) matches Some(a)
            && !refs_in_range(a) ==> readable_outline(b) is None),
        gltf_attribute_refs_of(b) is None ==> readable_outline(b) is None,
{
    if b.len() >= 12 {
        let magic = seq![0x67u8, 0x6cu8, 0x54u8, 0x46u8];
        if b.take(4) == magic {
            assert(b[0] == b.take(4)[0] && b[1] == b.take(4)[1] && b[2] == b.take(4)[2] && b[3] == b.take(4)[3]);
        }
        if b[0] == 0x67u8 && b[1] == 0x6cu8 && b[2] == 0x54u8 && b[3] == 0x46u8 {
            assert(b.take(4) =~= magic);
        }
    }
}

/// Checks the binary glTF header's length field.
fn glb_length_ok(bytes: &[u8]) -> (r: bool)
    ensures
        r == glb_length_sound(bytes@),
{
    !(bytes.len() >= 12 && bytes[0] == 0x67u8 && bytes[1] == 0x6cu8 && bytes[2] == 0x54u8 && bytes[3] == 0x46u8
        && bytes[8] < 12u8 && bytes[9] == 0u8 && bytes[10] == 0u8 && bytes[11] == 0u8)
}

/// Checks that every attribute refers to an existing accessor.
fn refs_ok(a: &AttributeRefs) -> (r: bool)
    ensures
        r == refs_in_range(*a),
{
    let mut m: usize = 0;
    while m < a.primitives.len()
        invariant
            m <= a.primitives@.len(),
            forall|m2: int, p: int, k: int|
                0 <= m2 < m && 0 <= p < a.primitives@[m2]@.len() && 0 <= k < a.primitives@[m2]@[p]@.len()
                    ==> (#[trigger] a.primitives@[m2]@[p]@[k]) < a.accessor_count,
        decreases a.primitives@.len() - m,
    {
        let mut p: usize = 0;
        while p < a.primitives[m].len()
            invariant
                m < a.primitives@.len(),
                p <= a.primitives@[m as int]@.len(),
                forall|m2: int, p2: int, k: int|
                    0 <= m2 < m && 0 <= p2 < a.primitives@[m2]@.len() && 0 <= k < a.primitives@[m2]@[p2]@.len()
                        ==> (#[trigger] a.primitives@[m2]@[p2]@[k]) < a.accessor_count,
                forall|p2: int, k: int|
                    0 <= p2 < p && 0 <= k < a.primitives@[m as int]@[p2]@.len()
                        ==> (#[trigger] a.primitives@[m as int]@[p2]@[k]) < a.accessor_count,
            decreases a.primitives@[m as int]@.len() - p,
        {
            let mut k: usize = 0;
            while k < a.primitives[m][p].len()
                invariant
                    m < a.primitives@.len(),
                    p < a.primitives@[m as int]@.len(),
                    k <= a.primitives@[m as int]@[p as int]@.len(),
                    forall|m2: int, p2: int, k2: int|
                        0 <= m2 < m && 0 <= p2 < a.primitives@[m2]@.len() && 0 <= k2 < a.primitives@[m2]@[p2]@.len()
                            ==> (#[trigger] a.primitives@[m2]@[p2]@[k2]) < a.accessor_count,
                    forall|p2: int, k2: int|
                        0 <= p2 < p && 0 <= k2 < a.primitives@[m as int]@[p2]@.len()
                            ==> (#[trigger] a.primitives@[m as int]@[p2]@[k2]) < a.accessor_count,
                    forall|k2: int| 0 <= k2 < k
                        ==> (#[trigger] a.primitives@[m as int]@[p as int]@[k2]) < a.accessor_count,
                decreases a.primitives@[m as int]@[p as int]@.len() - k,
            {
                if a.primitives[m][p][k] >= a.accessor_count {
                    return false;
                }
                k = k + 1;
            }
            p = p + 1;
        }
        m = m + 1;
    }
    true
}

/// The outline of a file whose structure can be read: the binary header is
/// sound, every attribute refers to an existing accessor, and the document
/// parses and validates. Otherwise nothing.
pub open spec fn readable_outline(b: Seq<u8>) -> Option<GltfOutline> {
    if !glb_length_sound(b) {
        None
    } else {
        match gltf_attribute_refs_of(b) {
            Some(a) => if refs_in_range(a) { gltf_outline_of(b) } else { None },
            None => None,
        }
    }
}

/// Why a model cannot be set up.
#[derive(Clone, Copy, Debug, PartialEq, Eq, Structural)]
pub enum ModelError {
    /// The bytes are not a glTF file.
    ImportFailed,
    /// Skin `skin` has `count` joints, more than `MAX_JOINT_COUNT`.
    TooManyJoints { skin: usize, count: usize },
    /// The file has no default scene.
    NoDefaultScene,
    /// The nodes below the scene do not form a forest.
    NotAForest,
    /// A mesh without a name comes before a named mesh.
    UnnamedMeshBeforeNamed,
}

/// How the parts of a model are set up.
#[derive(Debug)]
pub struct ModelPlan {
    /// Nodes in the order their transforms are computed, with their parents.
    pub transform_order: Vec<(usize, Option<usize>)>,
    /// Nodes that carry a light, in index order.
    pub light_nodes: Vec<usize>,
    /// Keys of the collision outlines, in order of first appearance.
    pub collision_keys: Vec<String>,
    /// For each key, its collision meshes in index order.
    pub collision_meshes: Vec<Vec<usize>>,
    /// Meshes that are particle emitters, in index order.
    pub emitter_meshes: Vec<usize>,
    /// Meshes that are placeholders, in index order.
    pub placeholder_meshes: Vec<usize>,
}

/// `r` lists, in increasing order, exactly the indices below `n` that
/// satisfy `pred`.
pub open spec fn lists_exactly(r: Seq<usize>, n: int, pred: spec_fn(int) -> bool) -> bool {
    &&& forall|j: int| 0 <= j < r.len() ==> (#[trigger] r[j]) < n && pred(r[j] as int)
    &&& forall|j1: int, j2: int| 0 <= j1 < j2 < r.len() ==> r[j1] < r[j2]
    &&& forall|k: int| 0 <= k < n && #[trigger] pred(k) ==> r.contains(k as usize)
}

/// Mesh `i` has a name with `word` among its words.
pub open spec fn mesh_has_word(names: Seq<Option<String>>, i: int, word: Seq<char>) -> bool {
    names[i] matches Some(n) && name_words(n@).contains(word)
}

/// Only whole words count: a mesh whose name has no `_` or `.` has `word`
/// exactly when the name is `word` (so `column` is no collision outline and
/// `emitter` no emitter).
pub proof fn lemma_mesh_word_whole_name(names: Seq<Option<String>>, i: int, word: Seq<char>)
    requires
        0 <= i < names.len(),
        names[i] matches Some(n) && has_no_separator(n@),
    ensures
        mesh_has_word(names, i, word) <==> names[i]->Some_0@ == word,
{
    let n = names[i]->Some_0@;
    lemma_name_words_whole(n);
    if name_words(n).contains(word) {
        let k = choose|k: int| 0 <= k < name_words(n).len() && name_words(n)[k] == word;
        assert(k == 0);
    }
    if n == word {
        assert(name_words(n)[0] == word);
    }
}

/// A mesh whose name is split at a `_` or `.` into `x` and `y` has `word`
/// exactly when `word` is a word of `x` or a word of `y`; unnamed meshes
/// have no word.
pub proof fn lemma_mesh_word_across_separator(
    names: Seq<Option<String>>,
    i: int,
    word: Seq<char>,
    x: Seq<char>,
    c: char,
    y: Seq<char>,
)
    requires
        0 <= i < names.len(),
        names[i] matches Some(n) && n@ == x + seq![c] + y,
        c == '_' || c == '.',
    ensures
        mesh_has_word(names, i, word) <==> (name_words(x).contains(word) || name_words(y).contains(word)),
{
    lemma_name_words_split(x, c, y);
    let wx = name_words(x);
    let wy = name_words(y);
    let w = wx + wy;
    if w.contains(word) {
        let k = choose|k: int| 0 <= k < w.len() && w[k] == word;
        if k < wx.len() {
            assert(wx[k] == word);
        } else {
            assert(wy[k - wx.len()] == word);
        }
    }
    if wx.contains(word) {
        let k = choose|k: int| 0 <= k < wx.len() && wx[k] == word;
        assert(w[k] == word);
    }
    if wy.contains(word) {
        let k = choose|k: int| 0 <= k < wy.len() && wy[k] == word;
        assert(w[wx.len() + k] == word);
    }
}

/// Unnamed meshes have no words.
pub proof fn lemma_unnamed_mesh_has_no_word(names: Seq<Option<String>>, i: int, word: Seq<char>)
    requires
        0 <= i < names.len(),
        names[i] is None,
    ensures
        !mesh_has_word(names, i, word),
{
}

/// Collision key of mesh `i`: its name up to the first `_`.
pub open spec fn mesh_key(names: Seq<Option<String>>, i: int) -> Seq<char> {
    split_pieces(names[i]->Some_0@, one_of(seq!['_']))[0]
}

/// `keys` and `lists` group the collision meshes (`col` in their name) by key:
/// keys are distinct and in order of first appearance, each list holds, in
/// index order, every collision mesh with its key.
pub open spec fn groups_collisions(names: Seq<Option<String>>, keys: Seq<String>, lists: Seq<Vec<usize>>) -> bool {
    &&& keys.len() == lists.len()
    &&& forall|g: int| 0 <= g < lists.len() ==> (#[trigger] lists[g])@.len() > 0
    &&& forall|g: int, j1: int, j2: int| #![trigger lists[g]@[j1], lists[g]@[j2]]
        0 <= g < lists.len() && 0 <= j1 < j2 < lists[g]@.len() ==> lists[g]@[j1] < lists[g]@[j2]
    &&& forall|g: int, j: int| 0 <= g < lists.len() && 0 <= j < lists[g]@.len() ==> {
        let m = (#[trigger] lists[g]@[j]) as int;
        &&& m < names.len()
        &&& mesh_has_word(names, m, "col"@)
        &&& mesh_key(names, m) == keys[g]@
    }
    &&& forall|g1: int, g2: int| 0 <= g1 < g2 < keys.len() ==> (#[trigger] keys[g1])@ != (#[trigger] keys[g2])@
    &&& forall|g1: int, g2: int| #![trigger lists[g1]@[0], lists[g2]@[0]]
        0 <= g1 < g2 < lists.len() ==> lists[g1]@[0] < lists[g2]@[0]
    &&& forall|i: int| 0 <= i < names.len() && #[trigger] mesh_has_word(names, i, "col"@)
        ==> exists|g: int| 0 <= g < lists.len() && (#[trigger] lists[g])@.contains(i as usize)
}

/// Index of the first skin with more than `MAX_JOINT_COUNT` joints.
pub open spec fn first_oversized_skin(skins: Seq<Vec<usize>>) -> Option<int>
    decreases skins.len(),
{
    if skins.len() == 0 {
        None
    } else {
        match first_oversized_skin(skins.drop_last()) {
            Some(i) => Some(i),
            None => if skins.last()@.len() > MAX_JOINT_COUNT { Some(skins.len() - 1) } else { None },
        }
    }
}

/// No unnamed mesh comes before a named one.
pub open spec fn named_meshes_first(names: Seq<Option<String>>) -> bool {
    forall|a: int, b: int| 0 <= a < b < names.len() && names[a] is None ==> names[b] is None
}

/// The first reason, in the order the checks are made, why an outline
/// cannot be set up.
pub open spec fn model_error(o: GltfOutline) -> Option<ModelError> {
    match first_oversized_skin(o.skin_joints@) {
        Some(i) => Some(ModelError::TooManyJoints { skin: i as usize, count: o.skin_joints@[i]@.len() as usize }),
        None => match o.scene_roots {
            None => Some(ModelError::NoDefaultScene),
            Some(roots) => if !is_forest(o.node_children@, roots@) {
                Some(ModelError::NotAForest)
            } else if !named_meshes_first(o.mesh_names@) {
                Some(ModelError::UnnamedMeshBeforeNamed)
            } else {
                None
            },
        },
    }
}

/// `p` is the plan of outline `o`.
pub open spec fn is_plan_of(o: GltfOutline, p: ModelPlan) -> bool {
    let names = o.mesh_names@;
    &&& o.scene_roots matches Some(roots) && p.transform_order@ == graph_run_order(o.node_children@, roots@)
    &&& lists_exactly(p.light_nodes@, o.node_lights@.len() as int, |i: int| o.node_lights@[i])
    &&& lists_exactly(p.emitter_meshes@, names.len() as int, |i: int| mesh_has_word(names, i, "emit"@))
    &&& lists_exactly(p.placeholder_meshes@, names.len() as int, |i: int| mesh_has_word(names, i, "place"@))
    &&& groups_collisions(names, p.collision_keys@, p.collision_meshes@)
}

proof fn lemma_first_oversized_prefix(s: Seq<Vec<usize>>, k: int)
    requires
        0 <= k <= s.len(),
        first_oversized_skin(s.take(k)) is Some,
    ensures
        first_oversized_skin(s) == first_oversized_skin(s.take(k)),
    decreases s.len(),
{
    if k == s.len() {
        assert(s.take(k) =~= s);
    } else {
        assert(s.drop_last().take(k) =~= s.take(k));
        lemma_first_oversized_prefix(s.drop_last(), k);
    }
}

/// Indices of the nodes that carry a light.
fn lit_nodes(flags: &Vec<bool>) -> (r: Vec<usize>)
    ensures
        lists_exactly(r@, flags@.len() as int, |i: int| flags@[i]),
{
    let ghost pred = |i: int| flags@[i];
    let mut r: Vec<usize> = Vec::new();
    let mut i: usize = 0;
    while i < flags.len()
        invariant
            pred == (|i: int| flags@[i]),
            i <= flags@.len(),
            forall|j: int| 0 <= j < r@.len() ==> (#[trigger] r@[j]) < i && pred(r@[j] as int),
            forall|j1: int, j2: int| 0 <= j1 < j2 < r@.len() ==> r@[j1] < r@[j2],
            forall|k: int| 0 <= k < i && #[trigger] pred(k) ==> r@.contains(k as usize),
        decreases flags@.len() - i,
    {
        let ghost before = r@;
        if flags[i] {
            r.push(i);
            assert(r@[r@.len() - 1] == i);
            assert forall|k: int| 0 <= k < i + 1 && #[trigger] pred(k) implies r@.contains(k as usize) by {
                if k < i {
                    let j = choose|j: int| 0 <= j < before.len() && before[j] == k as usize;
                    assert(r@[j] == before[j]);
                }
            }
        }
        i = i + 1;
    }
    r
}

/// Indices of the named meshes that have `word` among the words of their name.
fn meshes_with_word(names: &Vec<Option<String>>, word: &str) -> (r: Vec<usize>)
    ensures
        lists_exactly(r@, names@.len() as int, |i: int| mesh_has_word(names@, i, word@)),
{
    let ghost pred = |i: int| mesh_has_word(names@, i, word@);
    let mut r: Vec<usize> = Vec::new();
    let mut i: usize = 0;
    while i < names.len()
        invariant
            pred == (|i: int| mesh_has_word(names@, i, word@)),
            i <= names@.len(),
            forall|j: int| 0 <= j < r@.len() ==> (#[trigger] r@[j]) < i && pred(r@[j] as int),
            forall|j1: int, j2: int| 0 <= j1 < j2 < r@.len() ==> r@[j1] < r@[j2],
            forall|k: int| 0 <= k < i && #[trigger] pred(k) ==> r@.contains(k as usize),
        decreases names@.len() - i,
    {
        let ghost before = r@;
        let hit = match &names[i] {
            Some(n) => has_word(n.as_str(), word),
            None => false,
        };
        assert(hit == pred(i as int));
        if hit {
            r.push(i);
            assert(r@[r@.len() - 1] == i);
            assert forall|k: int| 0 <= k < i + 1 && #[trigger] pred(k) implies r@.contains(k as usize) by {
                if k < i {
                    let j = choose|j: int| 0 <= j < before.len() && before[j] == k as usize;
                    assert(r@[j] == before[j]);
                }
            }
        } else {
            assert forall|k: int| 0 <= k < i + 1 && #[trigger] pred(k) implies r@.contains(k as usize) by {
                assert(k != i);
            }
        }
        i = i + 1;
    }
    r
}

/// Groups the collision meshes by key, keys in order of first appearance.
fn group_collisions(names: &Vec<Option<String>>) -> (r: (Vec<String>, Vec<Vec<usize>>))
    ensures
        groups_collisions(names@, r.0@, r.1@),
{
    let mut keys: Vec<String> = Vec::new();
    let mut lists: Vec<Vec<usize>> = Vec::new();
    let mut i: usize = 0;
    while i < names.len()
        invariant
            i <= names@.len(),
            keys@.len() == lists@.len(),
            forall|g: int| 0 <= g < lists@.len() ==> (#[trigger] lists@[g])@.len() > 0,
            forall|g: int, j1: int, j2: int| #![trigger lists@[g]@[j1], lists@[g]@[j2]]
                0 <= g < lists@.len() && 0 <= j1 < j2 < lists@[g]@.len() ==> lists@[g]@[j1] < lists@[g]@[j2],
            forall|g: int, j: int| 0 <= g < lists@.len() && 0 <= j < lists@[g]@.len() ==> {
                let m = (#[trigger] lists@[g]@[j]) as int;
                &&& m < i
                &&& mesh_has_word(names@, m, "col"@)
                &&& mesh_key(names@, m) == keys@[g]@
            },
            forall|g1: int, g2: int| 0 <= g1 < g2 < keys@.len() ==> (#[trigger] keys@[g1])@ != (#[trigger] keys@[g2])@,
            forall|g1: int, g2: int| #![trigger lists@[g1]@[0], lists@[g2]@[0]]
                0 <= g1 < g2 < lists@.len() ==> lists@[g1]@[0] < lists@[g2]@[0],
            forall|k: int| 0 <= k < i && #[trigger] mesh_has_word(names@, k, "col"@)
                ==> exists|g: int| 0 <= g < lists@.len() && (#[trigger] lists@[g])@.contains(k as usize),
        decreases names@.len() - i,
    {
        let is_col = match &names[i] {
            Some(n) => has_word(n.as_str(), "col"),
            None => false,
        };
        assert(is_col == mesh_has_word(names@, i as int, "col"@));
        if is_col {
            let key = match &names[i] {
                Some(n) => collision_key(n.as_str()),
                None => String::new(),
            };
            assert(key@ == mesh_key(names@, i as int));
            let mut found: Option<usize> = None;
            let mut g: usize = 0;
            while g < keys.len()
                invariant
                    g <= keys@.len(),
                    found matches Some(f) ==> f < keys@.len() && keys@[f as int]@ == key@,
                    found is None ==> forall|h: int| 0 <= h < g ==> keys@[h]@ != key@,
                decreases keys@.len() - g,
            {
                if found.is_none() && same_text(keys[g].as_str(), key.as_str()) {
                    found = Some(g);
                }
                g = g + 1;
            }
            let ghost old_lists = lists@;
            let ghost old_keys = keys@;
            match found {
                Some(f) => {
                    let mut list: Vec<usize> = Vec::new();
                    std::mem::swap(&mut list, &mut lists[f]);
                    let ghost old_list = list@;
                    list.push(i);
                    std::mem::swap(&mut list, &mut lists[f]);
                    assert(lists@[f as int]@ == old_list.push(i));
                    assert(old_list == old_lists[f as int]@);
                    assert forall|h: int| 0 <= h < lists@.len() && h != f implies lists@[h] == old_lists[h] by {}
                    assert forall|k: int| 0 <= k < i + 1 && #[trigger] mesh_has_word(names@, k, "col"@)
                        implies exists|g: int| 0 <= g < lists@.len() && (#[trigger] lists@[g])@.contains(k as usize) by {
                        if k == i {
                            assert(lists@[f as int]@[old_list.len() as int] == i);
                        } else {
                            let g2 = choose|g: int| 0 <= g < old_lists.len() && (#[trigger] old_lists[g])@.contains(k as usize);
                            let j = choose|j: int| 0 <= j < old_lists[g2]@.len() && old_lists[g2]@[j] == k as usize;
                            if g2 == f {
                                assert(lists@[g2]@[j] == k as usize);
                            } else {
                                assert(lists@[g2] == old_lists[g2]);
                            }
                        }
                    }
                },
                None => {
                    let ghost k_at = key@;
                    keys.push(key);
                    let mut list: Vec<usize> = Vec::new();
                    list.push(i);
                    lists.push(list);
                    assert(keys@[keys@.len() - 1]@ == k_at);
                    assert forall|h: int| 0 <= h < old_lists.len() implies lists@[h] == old_lists[h] && keys@[h] == old_keys[h] by {}
                    assert forall|k: int| 0 <= k < i + 1 && #[trigger] mesh_has_word(names@, k, "col"@)
                        implies exists|g: int| 0 <= g < lists@.len() && (#[trigger] lists@[g])@.contains(k as usize) by {
                        if k == i {
                            assert(lists@[old_lists.len() as int]@[0] == i);
                        } else {
                            let g2 = choose|g: int| 0 <= g < old_lists.len() && (#[trigger] old_lists[g])@.contains(k as usize);
                            assert(lists@[g2] == old_lists[g2]);
                        }
                    }
                },
            }
        }
        i = i + 1;
    }
    (keys, lists)
}

/// Sets up a model from its outline, making the checks in the order the
/// model loader makes them: skins of at most `MAX_JOINT_COUNT` joints, a
/// default scene, a forest of nodes below it, named meshes before unnamed
/// ones. On success it gives the transform order, the light nodes, the
/// collision meshes grouped by key, and the emitter and placeholder meshes.
pub fn plan_model(o: &GltfOutline) -> (r: Result<ModelPlan, ModelError>)
    ensures
        model_error(*o) matches Some(e) ==> r == Err::<ModelPlan, ModelError>(e),
        model_error(*o) is None ==> (r matches Ok(p) && is_plan_of(*o, p)),
{
    let mut s: usize = 0;
    while s < o.skin_joints.len()
        invariant
            s <= o.skin_joints@.len(),
            first_oversized_skin(o.skin_joints@.take(s as int)) is None,
        decreases o.skin_joints@.len() - s,
    {
        assert(o.skin_joints@.take(s + 1).drop_last() =~= o.skin_joints@.take(s as int));
        let count = o.skin_joints[s].len();
        if count > MAX_JOINT_COUNT {
            proof {
                lemma_first_oversized_prefix(o.skin_joints@, s + 1);
            }
            return Err(ModelError::TooManyJoints { skin: s, count });
        }
        s = s + 1;
    }
    assert(o.skin_joints@.take(o.skin_joints@.len() as int) =~= o.skin_joints@);
    let roots = match &o.scene_roots {
        Some(roots) => roots,
        None => {
            return Err(ModelError::NoDefaultScene);
        },
    };
    if !is_node_forest(roots.as_slice(), &o.node_children) {
        return Err(ModelError::NotAForest);
    }
    let mut seen_unnamed = false;
    let mut i: usize = 0;
    while i < o.mesh_names.len()
        invariant
            i <= o.mesh_names@.len(),
            first_oversized_skin(o.skin_joints@) is None,
            o.scene_roots == Some(*roots),
            is_forest(o.node_children@, roots@),
            seen_unnamed == exists|k: int| 0 <= k < i && (#[trigger] o.mesh_names@[k]) is None,
            forall|a: int, b: int| 0 <= a < b < i && o.mesh_names@[a] is None ==> o.mesh_names@[b] is None,
        decreases o.mesh_names@.len() - i,
    {
        let named = o.mesh_names[i].is_some();
        if named && seen_unnamed {
            assert(!named_meshes_first(o.mesh_names@)) by {
                let k = choose|k: int| 0 <= k < i && (#[trigger] o.mesh_names@[k]) is None;
                assert(o.mesh_names@[k] is None && o.mesh_names@[i as int] is Some);
            }
            return Err(ModelError::UnnamedMeshBeforeNamed);
        }
        if !named {
            seen_unnamed = true;
        }
        i = i + 1;
    }
    let transform_order = build_graph_run_indices(roots.as_slice(), &o.node_children);
    let light_nodes = lit_nodes(&o.node_lights);
    let emitter_meshes = meshes_with_word(&o.mesh_names, "emit");
    let placeholder_meshes = meshes_with_word(&o.mesh_names, "place");
    let (collision_keys, collision_meshes) = group_collisions(&o.mesh_names);
    Ok(ModelPlan { transform_order, light_nodes, collision_keys, collision_meshes, emitter_meshes, placeholder_meshes })
}

/// Reads a model file's structure and sets the model up. Bytes whose
/// structure cannot be read (see `readable_outline`) fail with
/// `ImportFailed`; buffers and images are not loaded here.
pub fn load_model_plan(bytes: &[u8]) -> (r: Result<(GltfOutline, ModelPlan), ModelError>)
    ensures
        readable_outline(bytes@) is None ==> r == Err::<(GltfOutline, ModelPlan), ModelError>(ModelError::ImportFailed),
        readable_outline(bytes@) matches Some(o) ==> {
            &&& model_error(o) matches Some(e) ==> r == Err::<(GltfOutline, ModelPlan), ModelError>(e)
            &&& model_error(o) is None ==> (r matches Ok(op) && op.0 == o && is_plan_of(o, op.1))
        },
{
    if !glb_length_ok(bytes) {
        return Err(ModelError::ImportFailed);
    }
    let refs = match read_attribute_refs(bytes) {
        None => {
            return Err(ModelError::ImportFailed);
        },
        Some(refs) => refs,
    };
    if !refs_ok(&refs) {
        return Err(ModelError::ImportFailed);
    }
    match import_outline(bytes) {
        None => Err(ModelError::ImportFailed),
        Some(o) => match plan_model(&o) {
            Ok(p) => Ok((o, p)),
            Err(e) => Err(e),
        },
    }
}

} // verus!
