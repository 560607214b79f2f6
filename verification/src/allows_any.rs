//! Whether the type of an element admits arbitrary XML elements, found by a
//! walk over the type graph that visits every type at most once.

use vstd::prelude::*;

verus! {

/// What an element of a group holds.
#[derive(Debug, Clone, Copy, PartialEq, Eq)]
pub enum ElementKind {
    /// Text content.
    Text,
    /// Any element (an `xs:any` wildcard).
    Any,
    /// An element of the type with the given index.
    Type(usize),
}

/// The shape of a type, with the other types it refers to given by index.
#[derive(Debug)]
pub enum MetaTypeKind {
    /// An `xs:all` group.
    All(Vec<ElementKind>),
    /// An `xs:choice` group.
    Choice(Vec<ElementKind>),
    /// An `xs:sequence` group.
    Sequence(Vec<ElementKind>),
    /// A complex type, with the type of its content if it has one.
    ComplexType { content: Option<usize> },
    /// A user provided type that says itself whether it admits any element.
    Custom { allow_any: bool },
    /// Any other type (simple types, unions, references ...).
    Other,
}

/// The types of a schema, indexed by their position.
#[derive(Debug)]
pub struct MetaTypes {
    pub types: Vec<MetaTypeKind>,
}

/// The number of types that are not visited yet.
pub open spec fn unvisited(vis: Seq<bool>) -> nat
    decreases vis.len(),
{
    if vis.len() == 0 {
        0
    } else {
        unvisited(vis.drop_last()) + if vis.last() {
            0nat
        } else {
            1nat
        }
    }
}

/// Marking an unvisited type lowers the number of unvisited types by one.
pub proof fn lemma_unvisited_mark(vis: Seq<bool>, id: int)
    requires
        0 <= id < vis.len(),
        !vis[id],
    ensures
        unvisited(vis.update(id, true)) + 1 == unvisited(vis),
    decreases vis.len(),
{
    if id < vis.len() - 1 {
        lemma_unvisited_mark(vis.drop_last(), id);
        assert(vis.update(id, true).drop_last() =~= vis.drop_last().update(id, true));
    } else {
        assert(vis.update(id, true).drop_last() =~= vis.drop_last());
    }
}

/// A visited set that only grew has no more unvisited types.
proof fn lemma_unvisited_monotone(a: Seq<bool>, b: Seq<bool>)
    requires
        a.len() == b.len(),
        forall|j: int| 0 <= j < a.len() && a[j] ==> b[j],
    ensures
        unvisited(b) <= unvisited(a),
    decreases a.len(),
{
    if a.len() > 0 {
        lemma_unvisited_monotone(a.drop_last(), b.drop_last());
    }
}

/// The walk from the type `id` with the visited set `vis`: its answer and the
/// visited set afterwards. A visited or unknown type gives `false`; `all` and
/// `choice` groups are searched element by element; a sequence is decided by
/// its first element; a complex type by its content; a custom type by itself.
pub open spec fn walk(types: Seq<MetaTypeKind>, vis: Seq<bool>, id: int) -> (bool, Seq<bool>)
    decreases unvisited(vis), 0nat,
{
    if !(0 <= id < types.len()) || vis.len() != types.len() || vis[id] {
        (false, vis)
    } else {
        let v1 = vis.update(id, true);
        proof {
            lemma_unvisited_mark(vis, id);
        }
        match types[id] {
            MetaTypeKind::All(els) => walk_group(types, v1, els@, 0),
            MetaTypeKind::Choice(els) => walk_group(types, v1, els@, 0),
            MetaTypeKind::Sequence(els) => if els@.len() == 0 {
                (false, v1)
            } else {
                match els@[0] {
                    ElementKind::Any => (true, v1),
                    ElementKind::Text => (false, v1),
                    ElementKind::Type(t) => walk(types, v1, t as int),
                }
            },
            MetaTypeKind::ComplexType { content: Some(c) } => walk(types, v1, c as int),
            MetaTypeKind::Custom { allow_any } => (allow_any, v1),
            _ => (false, v1),
        }
    }
}

/// The search of the elements `els[i..]` of a group: text stops it with
/// `false`, a wildcard with `true`, and a typed element is walked.
pub open spec fn walk_group(types: Seq<MetaTypeKind>, vis: Seq<bool>, els: Seq<ElementKind>, i: int) -> (
    bool,
    Seq<bool>,
)
    decreases unvisited(vis), els.len() - i + 1,
{
    if i < 0 || i >= els.len() {
        (false, vis)
    } else {
        match els[i] {
            ElementKind::Text => (false, vis),
            ElementKind::Any => (true, vis),
            ElementKind::Type(t) => {
                let (b, v2) = walk(types, vis, t as int);
                if b {
                    (true, v2)
                } else if unvisited(v2) <= unvisited(vis) {
                    walk_group(types, v2, els, i + 1)
                } else {
                    (false, v2)
                }
            },
        }
    }
}

/// Whether an element of kind `element` admits arbitrary elements.
pub open spec fn allows_any(element: ElementKind, types: Seq<MetaTypeKind>) -> bool {
    match element {
        ElementKind::Any => true,
        ElementKind::Text => false,
        ElementKind::Type(t) => walk(types, Seq::new(types.len(), |i: int| false), t as int).0,
    }
}

fn walk_exec(types: &Vec<MetaTypeKind>, vis: &mut Vec<bool>, id: usize) -> (r: bool)
    requires
        old(vis)@.len() == types@.len(),
    ensures
        (r, final(vis)@) == walk(types@, old(vis)@, id as int),
        final(vis)@.len() == old(vis)@.len(),
        forall|j: int| 0 <= j < old(vis)@.len() && old(vis)@[j] ==> final(vis)@[j],
    decreases unvisited(old(vis)@),
{
    if id >= types.len() {
        return false;
    }
    if vis[id] {
        return false;
    }
    let ghost v0 = vis@;
    vis.set(id, true);
    proof {
        lemma_unvisited_mark(v0, id as int);
    }
    let ghost v1 = vis@;
    match &types[id] {
        MetaTypeKind::All(els) => walk_group_exec(types, vis, els, Ghost(v0), id),
        MetaTypeKind::Choice(els) => walk_group_exec(types, vis, els, Ghost(v0), id),
        MetaTypeKind::Sequence(els) => {
            if els.len() == 0 {
                false
            } else {
                match els[0] {
                    ElementKind::Any => true,
                    ElementKind::Text => false,
                    ElementKind::Type(t) => walk_exec(types, vis, t),
                }
            }
        },
        MetaTypeKind::ComplexType { content: Some(c) } => walk_exec(types, vis, *c),
        MetaTypeKind::Custom { allow_any } => *allow_any,
        _ => false,
    }
}

fn walk_group_exec(
    types: &Vec<MetaTypeKind>,
    vis: &mut Vec<bool>,
    els: &Vec<ElementKind>,
    Ghost(v0): Ghost<Seq<bool>>,
    id: usize,
) -> (r: bool)
    requires
        old(vis)@.len() == types@.len(),
        v0.len() == types@.len(),
        0 <= id < v0.len(),
        !v0[id as int],
        old(vis)@ == v0.update(id as int, true),
    ensures
        (r, final(vis)@) == walk_group(types@, old(vis)@, els@, 0),
        final(vis)@.len() == old(vis)@.len(),
        forall|j: int| 0 <= j < old(vis)@.len() && old(vis)@[j] ==> final(vis)@[j],
    decreases unvisited(v0), 1nat,
{
    let ghost v1 = vis@;
    proof {
        lemma_unvisited_mark(v0, id as int);
    }
    let mut i: usize = 0;
    while i < els.len()
        invariant
            i <= els@.len(),
            vis@.len() == types@.len(),
            v1.len() == types@.len(),
            v1 == old(vis)@,
            unvisited(v1) < unvisited(v0),
            unvisited(vis@) <= unvisited(v1),
            forall|j: int| 0 <= j < v1.len() && v1[j] ==> vis@[j],
            walk_group(types@, v1, els@, 0) == walk_group(types@, vis@, els@, i as int),
        decreases els@.len() - i,
    {
        match els[i] {
            ElementKind::Text => {
                return false;
            },
            ElementKind::Any => {
                return true;
            },
            ElementKind::Type(t) => {
                let ghost before = vis@;
                let b = walk_exec(types, vis, t);
                proof {
                    lemma_unvisited_monotone(before, vis@);
                }
                if b {
                    return true;
                }
                i = i + 1;
            },
        }
    }
    false
}

/// Whether the type of an element admits arbitrary XML elements, so that
/// unknown elements met while deserializing it may be skipped.
pub fn target_type_allows_any(element: ElementKind, types: &MetaTypes) -> (r: bool)
    ensures
        r == allows_any(element, types.types@),
{
    match element {
        ElementKind::Any => true,
        ElementKind::Text => false,
        ElementKind::Type(t) => {
            let n = types.types.len();
            let mut vis: Vec<bool> = Vec::new();
            let mut i: usize = 0;
            while i < n
                invariant
                    i <= n,
                    n == types.types@.len(),
                    vis@ == Seq::new(i as nat, |k: int| false),
                decreases n - i,
            {
                vis.push(false);
                i = i + 1;
                assert(vis@ =~= Seq::new(i as nat, |k: int| false));
            }
            walk_exec(&types.types, &mut vis, t)
        },
    }
}

/// The type `id` admits any element by itself: a group with a wildcard, a
/// sequence that starts with a wildcard, or a custom type that says so.
pub open spec fn directly_allows_any(types: Seq<MetaTypeKind>, id: int) -> bool {
    &&& 0 <= id < types.len()
    &&& match types[id] {
        MetaTypeKind::All(els) => exists|j: int| 0 <= j < els@.len() && #[trigger] els@[j] is Any,
        MetaTypeKind::Choice(els) => exists|j: int| 0 <= j < els@.len() && #[trigger] els@[j] is Any,
        MetaTypeKind::Sequence(els) => els@.len() > 0 && els@[0] is Any,
        MetaTypeKind::Custom { allow_any } => allow_any,
        _ => false,
    }
}

/// The element `e` is of the type `c`.
pub open spec fn is_of_type(e: ElementKind, c: int) -> bool {
    e matches ElementKind::Type(t) && t as int == c
}

/// The type `id` refers to the type `c`: as the type of an element of a
/// group, of the first element of a sequence, or as the content of a complex type.
pub open spec fn refers_to(types: Seq<MetaTypeKind>, id: int, c: int) -> bool {
    &&& 0 <= id < types.len()
    &&& match types[id] {
        MetaTypeKind::All(els) => exists|j: int| 0 <= j < els@.len() && is_of_type(#[trigger] els@[j], c),
        MetaTypeKind::Choice(els) => exists|j: int| 0 <= j < els@.len() && is_of_type(#[trigger] els@[j], c),
        MetaTypeKind::Sequence(els) => els@.len() > 0 && is_of_type(els@[0], c),
        MetaTypeKind::ComplexType { content: Some(t) } => t as int == c,
        _ => false,
    }
}

/// `path` leads along references from its first type to a type that admits
/// any element by itself.
pub open spec fn leads_to_any(types: Seq<MetaTypeKind>, path: Seq<int>) -> bool {
    &&& path.len() > 0
    &&& forall|i: int| 0 <= i < path.len() - 1 ==> refers_to(types, #[trigger] path[i], path[i + 1])
    &&& directly_allows_any(types, path.last())
}

/// Some path leads from the type `id` to a type that admits any element.
pub open spec fn reaches_any(types: Seq<MetaTypeKind>, id: int) -> bool {
    exists|path: Seq<int>| path.len() > 0 && path[0] == id && #[trigger] leads_to_any(types, path)
}

proof fn lemma_reaches_via(types: Seq<MetaTypeKind>, id: int, c: int)
    requires
        refers_to(types, id, c),
        reaches_any(types, c),
    ensures
        reaches_any(types, id),
{
    let path = choose|path: Seq<int>| path.len() > 0 && path[0] == c && #[trigger] leads_to_any(types, path);
    let p2 = seq![id] + path;
    assert forall|i: int| 0 <= i < p2.len() - 1 implies refers_to(types, #[trigger] p2[i], p2[i + 1]) by {
        if i > 0 {
            assert(p2[i] == path[i - 1]);
            assert(p2[i + 1] == path[i]);
        }
    }
    assert(p2.last() == path.last());
    assert(leads_to_any(types, p2));
}

proof fn lemma_reaches_directly(types: Seq<MetaTypeKind>, id: int)
    requires
        directly_allows_any(types, id),
    ensures
        reaches_any(types, id),
{
    let p = seq![id];
    assert(leads_to_any(types, p));
}

proof fn lemma_walk_sound(types: Seq<MetaTypeKind>, vis: Seq<bool>, id: int)
    ensures
        walk(types, vis, id).0 ==> reaches_any(types, id),
    decreases unvisited(vis), 0nat,
{
    if !(0 <= id < types.len()) || vis.len() != types.len() || vis[id] {
    } else {
        let v1 = vis.update(id, true);
        lemma_unvisited_mark(vis, id);
        match types[id] {
            MetaTypeKind::All(els) => {
                lemma_group_sound(types, v1, els@, 0);
                if walk(types, vis, id).0 {
                    let j = choose|j: int| 0 <= j < els@.len() && group_hit(types, els@[j]);
                    if els@[j] is Any {
                        lemma_reaches_directly(types, id);
                    } else {
                        let t = els@[j]->Type_0 as int;
                        assert(is_of_type(els@[j], t));
                        lemma_reaches_via(types, id, t);
                    }
                }
            },
            MetaTypeKind::Choice(els) => {
                lemma_group_sound(types, v1, els@, 0);
                if walk(types, vis, id).0 {
                    let j = choose|j: int| 0 <= j < els@.len() && group_hit(types, els@[j]);
                    if els@[j] is Any {
                        lemma_reaches_directly(types, id);
                    } else {
                        let t = els@[j]->Type_0 as int;
                        assert(is_of_type(els@[j], t));
                        lemma_reaches_via(types, id, t);
                    }
                }
            },
            MetaTypeKind::Sequence(els) => {
                if els@.len() > 0 {
                    if let ElementKind::Type(t) = els@[0] {
                        lemma_walk_sound(types, v1, t as int);
                        if walk(types, vis, id).0 {
                            lemma_reaches_via(types, id, t as int);
                        }
                    } else if els@[0] is Any {
                        lemma_reaches_directly(types, id);
                    }
                }
            },
            MetaTypeKind::ComplexType { content: Some(c) } => {
                lemma_walk_sound(types, v1, c as int);
                if walk(types, vis, id).0 {
                    lemma_reaches_via(types, id, c as int);
                }
            },
            MetaTypeKind::Custom { allow_any } => {
                if allow_any {
                    lemma_reaches_directly(types, id);
                }
            },
            _ => {},
        }
    }
}

/// An element that ends a group search with `true`: a wildcard, or a typed
/// element whose type reaches a type that admits any element.
pub open spec fn group_hit(types: Seq<MetaTypeKind>, e: ElementKind) -> bool {
    e is Any || (e matches ElementKind::Type(t) && reaches_any(types, t as int))
}

proof fn lemma_group_sound(types: Seq<MetaTypeKind>, vis: Seq<bool>, els: Seq<ElementKind>, i: int)
    ensures
        walk_group(types, vis, els, i).0 ==> exists|j: int| i <= j < els.len() && group_hit(types, #[trigger] els[j]),
    decreases unvisited(vis), els.len() - i + 1,
{
    if i < 0 || i >= els.len() {
    } else {
        match els[i] {
            ElementKind::Text => {},
            ElementKind::Any => {
                assert(group_hit(types, els[i]));
            },
            ElementKind::Type(t) => {
                lemma_walk_sound(types, vis, t as int);
                let (b, v2) = walk(types, vis, t as int);
                if b {
                    assert(group_hit(types, els[i]));
                } else if unvisited(v2) <= unvisited(vis) {
                    lemma_group_sound(types, v2, els, i + 1);
                }
            },
        }
    }
}

/// Soundness of the walk: when an element is found to admit any element, it
/// is a wildcard or its type reaches, along references, a type that admits
/// any element by itself.
pub proof fn lemma_allows_any_sound(element: ElementKind, types: Seq<MetaTypeKind>)
    requires
        allows_any(element, types),
    ensures
        element is Any || (element matches ElementKind::Type(t) && reaches_any(types, t as int)),
{
    if let ElementKind::Type(t) = element {
        lemma_walk_sound(types, Seq::new(types.len(), |i: int| false), t as int);
    }
}

/// The type `id` refers to `c` in the first place the walk looks: as the
/// content of a complex type, or as the type of the first element of a group.
pub open spec fn first_ref(types: Seq<MetaTypeKind>, id: int, c: int) -> bool {
    &&& 0 <= id < types.len()
    &&& match types[id] {
        MetaTypeKind::ComplexType { content: Some(x) } => x as int == c,
        MetaTypeKind::Sequence(els) => els@.len() > 0 && is_of_type(els@[0], c),
        MetaTypeKind::All(els) => els@.len() > 0 && is_of_type(els@[0], c),
        MetaTypeKind::Choice(els) => els@.len() > 0 && is_of_type(els@[0], c),
        _ => false,
    }
}

/// The type `id` admits any element in the first place the walk looks: a
/// group whose first element is a wildcard, or a custom type that says so.
pub open spec fn first_allows_any(types: Seq<MetaTypeKind>, id: int) -> bool {
    &&& 0 <= id < types.len()
    &&& match types[id] {
        MetaTypeKind::Sequence(els) => els@.len() > 0 && els@[0] is Any,
        MetaTypeKind::All(els) => els@.len() > 0 && els@[0] is Any,
        MetaTypeKind::Choice(els) => els@.len() > 0 && els@[0] is Any,
        MetaTypeKind::Custom { allow_any } => allow_any,
        _ => false,
    }
}

/// `path` is a chain of distinct types, each referring to the next in the
/// first place the walk looks, ending at a type that admits any element there.
pub open spec fn first_chain(types: Seq<MetaTypeKind>, path: Seq<int>) -> bool {
    &&& path.len() > 0
    &&& forall|i: int| 0 <= i < path.len() ==> 0 <= #[trigger] path[i] < types.len()
    &&& forall|a: int, b: int| 0 <= a < b < path.len() ==> path[a] != path[b]
    &&& forall|i: int| 0 <= i < path.len() - 1 ==> first_ref(types, #[trigger] path[i], path[i + 1])
    &&& first_allows_any(types, path.last())
}

proof fn lemma_chain_walk(types: Seq<MetaTypeKind>, path: Seq<int>, i: int, vis: Seq<bool>)
    requires
        first_chain(types, path),
        0 <= i < path.len(),
        vis.len() == types.len(),
        forall|k: int| i <= k < path.len() ==> !vis[#[trigger] path[k]],
    ensures
        walk(types, vis, path[i]).0,
    decreases path.len() - i,
{
    let id = path[i];
    assert(0 <= id < types.len());
    let v1 = vis.update(id, true);
    if i < path.len() - 1 {
        let c = path[i + 1];
        assert(first_ref(types, path[i], path[i + 1]));
        assert forall|k: int| i + 1 <= k < path.len() implies !v1[#[trigger] path[k]] by {
            assert(path[k] != path[i]);
            assert(0 <= path[k] < types.len());
        }
        lemma_chain_walk(types, path, i + 1, v1);
        assert(walk(types, v1, c).0);
        match types[id] {
            MetaTypeKind::All(els) => {
                assert(walk_group(types, v1, els@, 0).0);
            },
            MetaTypeKind::Choice(els) => {
                assert(walk_group(types, v1, els@, 0).0);
            },
            _ => {},
        }
    } else {
        assert(first_allows_any(types, path.last()));
        match types[id] {
            MetaTypeKind::All(els) => {
                assert(walk_group(types, v1, els@, 0).0);
            },
            MetaTypeKind::Choice(els) => {
                assert(walk_group(types, v1, els@, 0).0);
            },
            _ => {},
        }
    }
}

/// Completeness of the walk along first places: an element whose type leads,
/// through complex type contents and first elements of groups over distinct
/// types, to a group starting with a wildcard or a custom type that allows
/// any element, admits any element. In particular an element of a complex
/// type whose content is such a group admits any element.
pub proof fn lemma_allows_any_complete(types: Seq<MetaTypeKind>, path: Seq<int>)
    requires
        types.len() <= usize::MAX,
        first_chain(types, path),
    ensures
        allows_any(ElementKind::Type(path[0] as usize), types),
{
    assert(0 <= path[0] < types.len());
    lemma_chain_walk(types, path, 0, Seq::new(types.len(), |i: int| false));
}

/// An element of a complex type whose content is a sequence starting with a
/// wildcard (or any group or custom type that admits any element in the first
/// place) admits any element.
pub proof fn lemma_complex_content_allows_any(types: Seq<MetaTypeKind>, t: int, c: int)
    requires
        types.len() <= usize::MAX,
        0 <= t < types.len(),
        t != c,
        types[t] matches MetaTypeKind::ComplexType { content: Some(x) } && x as int == c,
        first_allows_any(types, c),
    ensures
        allows_any(ElementKind::Type(t as usize), types),
{
    let path = seq![t, c];
    assert(first_ref(types, path[0], path[1]));
    assert(first_chain(types, path));
    lemma_allows_any_complete(types, path);
}

} // verus!
