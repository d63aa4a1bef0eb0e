//! The accessibility UI tree: its elements, the search for elements by role
//! and title, and the decisions that the platform readers of the tree take
//! on what the operating system reports.

use vstd::prelude::*;

use crate::error::Error;
use crate::text::{
    chars_of, contains_chars, eq_ignore_ascii_case, eq_ignore_ascii_case_chars, has_substring,
    index_of, index_of_char, joined, lemma_index_of, parse_i32, parse_i32_chars, string_from_chars,
    sub_chars, trim, trim_chars, IntErrorKind,
};
use vstd::string::StringExecFns;

verus! {

/// Bounding rectangle of a UI element. Each field holds the IEEE-754 bit
/// pattern of the `f64` coordinate that the platform reports, so the value
/// travels through the library unchanged.
#[derive(Clone, Copy, Debug, PartialEq, Eq, Structural)]
pub struct Bounds {
    pub x_bits: u64,
    pub y_bits: u64,
    pub width_bits: u64,
    pub height_bits: u64,
}

/// A UI element from the accessibility tree.
#[derive(Debug)]
pub struct UIElement {
    pub role: String,
    pub title: Option<String>,
    pub value: Option<String>,
    pub description: Option<String>,
    pub bounds: Option<Bounds>,
    pub children: Vec<UIElement>,
    pub actions: Option<Vec<String>>,
}

/// The characters of an optional string.
pub open spec fn opt_text(o: Option<String>) -> Option<Seq<char>> {
    match o {
        Some(s) => Some(s@),
        None => None,
    }
}

/// The characters of each string of an optional list.
pub open spec fn opt_texts(o: Option<Vec<String>>) -> Option<Seq<Seq<char>>> {
    match o {
        Some(v) => Some(v@.map_values(|s: String| s@)),
        None => None,
    }
}

/// `copy` holds the attributes of `source` and no children.
pub open spec fn is_flat_copy(copy: UIElement, source: UIElement) -> bool {
    &&& copy.role@ == source.role@
    &&& opt_text(copy.title) == opt_text(source.title)
    &&& opt_text(copy.value) == opt_text(source.value)
    &&& opt_text(copy.description) == opt_text(source.description)
    &&& copy.bounds == source.bounds
    &&& copy.children@.len() == 0
    &&& opt_texts(copy.actions) == opt_texts(source.actions)
}

/// `e` is selected by the optional role and title: its role equals `role`
/// up to ASCII case, and its title holds `title` as a substring.
pub open spec fn element_matches(
    e: UIElement,
    role: Option<Seq<char>>,
    title: Option<Seq<char>>,
) -> bool {
    &&& (role matches Some(r) ==> eq_ignore_ascii_case(e.role@, r))
    &&& (title matches Some(t) ==> (e.title matches Some(et) && has_substring(et@, t)))
}

/// The elements of the tree under `e` that match, in pre-order: an element
/// before its children, children in their order.
pub open spec fn matching(
    e: UIElement,
    role: Option<Seq<char>>,
    title: Option<Seq<char>>,
) -> Seq<UIElement>
    decreases e,
{
    let own = if element_matches(e, role, title) {
        seq![e]
    } else {
        Seq::empty()
    };
    own + matching_all(e.children@, role, title)
}

/// The matching elements of the trees in `s`, one tree after the other.
pub open spec fn matching_all(
    s: Seq<UIElement>,
    role: Option<Seq<char>>,
    title: Option<Seq<char>>,
) -> Seq<UIElement>
    decreases s,
{
    if s.len() == 0 {
        Seq::empty()
    } else {
        matching(s[0], role, title) + matching_all(s.drop_first(), role, title)
    }
}

/// All elements of the tree under `e`, in pre-order.
pub open spec fn nodes(e: UIElement) -> Seq<UIElement>
    decreases e,
{
    seq![e] + nodes_all(e.children@)
}

/// All elements of the trees in `s`, one tree after the other.
pub open spec fn nodes_all(s: Seq<UIElement>) -> Seq<UIElement>
    decreases s,
{
    if s.len() == 0 {
        Seq::empty()
    } else {
        nodes(s[0]) + nodes_all(s.drop_first())
    }
}


/// A copy of an optional string.
pub fn copy_opt_text(o: &Option<String>) -> (r: Option<String>)
    ensures
        opt_text(r) == opt_text(*o),
{
    match o {
        Some(s) => Some(s.clone()),
        None => None,
    }
}

/// A copy of a list of strings.
pub fn copy_texts(v: &Vec<String>) -> (r: Vec<String>)
    ensures
        r@.map_values(|s: String| s@) == v@.map_values(|s: String| s@),
{
    let mut r: Vec<String> = Vec::new();
    let mut i: usize = 0;
    while i < v.len()
        invariant
            i <= v.len(),
            r@.len() == i,
            forall|k: int| 0 <= k < i ==> (#[trigger] r@[k])@ == v@[k]@,
        decreases v.len() - i,
    {
        r.push(v[i].clone());
        i = i + 1;
    }
    assert(r@.map_values(|s: String| s@) =~= v@.map_values(|s: String| s@));
    r
}

/// A copy of an optional list of strings.
pub fn copy_opt_texts(o: &Option<Vec<String>>) -> (r: Option<Vec<String>>)
    ensures
        opt_texts(r) == opt_texts(*o),
{
    match o {
        Some(v) => Some(copy_texts(v)),
        None => None,
    }
}

/// A copy of `e` with its attributes and without its children.
pub fn flat_copy(e: &UIElement) -> (r: UIElement)
    ensures
        is_flat_copy(r, *e),
{
    UIElement {
        role: e.role.clone(),
        title: copy_opt_text(&e.title),
        value: copy_opt_text(&e.value),
        description: copy_opt_text(&e.description),
        bounds: e.bounds,
        children: Vec::new(),
        actions: copy_opt_texts(&e.actions),
    }
}

/// Whether `e` is selected by the optional role and title.
fn matches_element(e: &UIElement, role: Option<&Vec<char>>, title: Option<&Vec<char>>) -> (r: bool)
    ensures
        r == element_matches(
            *e,
            match role {
                Some(v) => Some(v@),
                None => None,
            },
            match title {
                Some(v) => Some(v@),
                None => None,
            },
        ),
{
    let role_match = match role {
        Some(r) => {
            let own = chars_of(e.role.as_str());
            eq_ignore_ascii_case_chars(&own, r)
        },
        None => true,
    };
    let title_match = match title {
        Some(t) => match &e.title {
            Some(et) => {
                let own = chars_of(et.as_str());
                contains_chars(&own, t)
            },
            None => false,
        },
        None => true,
    };
    role_match && title_match
}

/// The characters of an optional character list.
pub open spec fn opt_chars(o: Option<&Vec<char>>) -> Option<Seq<char>> {
    match o {
        Some(v) => Some(v@),
        None => None,
    }
}

/// Matching over a list of trees splits at its last tree.
pub proof fn lemma_matching_all_push(
    s: Seq<UIElement>,
    x: UIElement,
    role: Option<Seq<char>>,
    title: Option<Seq<char>>,
)
    ensures
        matching_all(s.push(x), role, title) == matching_all(s, role, title) + matching(
            x,
            role,
            title,
        ),
    decreases s.len(),
{
    if s.len() == 0 {
        assert(s.push(x).drop_first() =~= Seq::<UIElement>::empty());
        assert(s.push(x)[0] == x);
        assert(matching_all(Seq::<UIElement>::empty(), role, title) =~= Seq::<UIElement>::empty());
        assert(matching_all(s.push(x), role, title) =~= matching(x, role, title));
    } else {
        assert(s.push(x).drop_first() =~= s.drop_first().push(x));
        lemma_matching_all_push(s.drop_first(), x, role, title);
        assert(matching_all(s.push(x), role, title) =~= matching_all(s, role, title) + matching(
            x,
            role,
            title,
        ));
    }
}

/// Appends to `results` a flat copy of each element of the tree under
/// `element` that matches, in pre-order.
fn collect_matching(
    element: &UIElement,
    role: Option<&Vec<char>>,
    title: Option<&Vec<char>>,
    results: &mut Vec<UIElement>,
)
    ensures
        final(results)@.len() == old(results)@.len() + matching(
            *element,
            opt_chars(role),
            opt_chars(title),
        ).len(),
        final(results)@.subrange(0, old(results)@.len() as int) == old(results)@,
        forall|i: int|
            0 <= i < matching(*element, opt_chars(role), opt_chars(title)).len() ==> is_flat_copy(
                #[trigger] final(results)@[old(results)@.len() + i],
                matching(*element, opt_chars(role), opt_chars(title))[i],
            ),
    decreases element,
{
    let ghost r = opt_chars(role);
    let ghost t = opt_chars(title);
    let ghost base = results@;
    let ghost own = if element_matches(*element, r, t) {
        seq![*element]
    } else {
        Seq::empty()
    };
    if matches_element(element, role, title) {
        results.push(flat_copy(element));
    }
    let mut i: usize = 0;
    assert(element.children@.take(0) =~= Seq::<UIElement>::empty());
    while i < element.children.len()
        invariant
            i <= element.children.len(),
            r == opt_chars(role),
            t == opt_chars(title),
            own == (if element_matches(*element, r, t) {
                seq![*element]
            } else {
                Seq::empty()
            }),
            results@.len() == base.len() + (own + matching_all(element.children@.take(i as int), r, t)).len(),
            results@.subrange(0, base.len() as int) == base,
            forall|k: int|
                0 <= k < (own + matching_all(element.children@.take(i as int), r, t)).len()
                    ==> is_flat_copy(
                    #[trigger] results@[base.len() + k],
                    (own + matching_all(element.children@.take(i as int), r, t))[k],
                ),
        decreases element.children.len() - i,
    {
        let ghost before = results@;
        let ghost done = own + matching_all(element.children@.take(i as int), r, t);
        collect_matching(&element.children[i], role, title, results);
        proof {
            let child = element.children@[i as int];
            assert(element.children@.take(i + 1) =~= element.children@.take(i as int).push(child));
            lemma_matching_all_push(element.children@.take(i as int), child, r, t);
            let next = own + matching_all(element.children@.take(i + 1), r, t);
            assert(next =~= done + matching(child, r, t));
            assert forall|k: int| 0 <= k < next.len() implies is_flat_copy(
                #[trigger] results@[base.len() + k],
                next[k],
            ) by {
                if k < done.len() {
                    assert(results@[base.len() + k] == results@.subrange(0, before.len() as int)[base.len() + k]);
                } else {
                    let j = k - done.len();
                    assert(results@[before.len() + j] == results@[base.len() + k]);
                }
            }
            assert(results@.subrange(0, base.len() as int) =~= before.subrange(0, base.len() as int));
        }
        i = i + 1;
    }
    assert(element.children@.take(element.children.len() as int) =~= element.children@);
}


/// Appends to `results` a flat copy of each element of the tree under
/// `element` whose role equals `role` up to ASCII case (when a role is given)
/// and whose title contains `title` (when a title is given), in pre-order.
pub fn find_matching(
    element: &UIElement,
    role: Option<&str>,
    title: Option<&str>,
    results: &mut Vec<UIElement>,
)
    ensures
        final(results)@.len() == old(results)@.len() + matching(
            *element,
            opt_str(role),
            opt_str(title),
        ).len(),
        final(results)@.subrange(0, old(results)@.len() as int) == old(results)@,
        forall|i: int|
            0 <= i < matching(*element, opt_str(role), opt_str(title)).len() ==> is_flat_copy(
                #[trigger] final(results)@[old(results)@.len() + i],
                matching(*element, opt_str(role), opt_str(title))[i],
            ),
{
    let role_chars = match role {
        Some(r) => Some(chars_of(r)),
        None => None,
    };
    let title_chars = match title {
        Some(t) => Some(chars_of(t)),
        None => None,
    };
    collect_matching(element, role_chars.as_ref(), title_chars.as_ref(), results);
}

/// The characters of an optional string slice.
pub open spec fn opt_str(o: Option<&str>) -> Option<Seq<char>> {
    match o {
        Some(s) => Some(s@),
        None => None,
    }
}

/// Flat copies of the elements of `tree` that match the optional role and
/// title, in pre-order (the search that `find_ui_element` runs on the tree
/// of the focused window).
pub fn find_ui_element(tree: &UIElement, role: Option<&str>, title: Option<&str>) -> (r: Vec<
    UIElement,
>)
    ensures
        r@.len() == matching(*tree, opt_str(role), opt_str(title)).len(),
        forall|i: int|
            0 <= i < r@.len() ==> is_flat_copy(
                #[trigger] r@[i],
                matching(*tree, opt_str(role), opt_str(title))[i],
            ),
{
    let mut results: Vec<UIElement> = Vec::new();
    find_matching(tree, role, title, &mut results);
    proof {
        assert forall|i: int| 0 <= i < results@.len() implies is_flat_copy(
            #[trigger] results@[i],
            matching(*tree, opt_str(role), opt_str(title))[i],
        ) by {
            assert(results@[0 + i] == results@[i]);
        }
    }
    results
}

/// The test that selects elements for a role and a title.
pub open spec fn selector(role: Option<Seq<char>>, title: Option<Seq<char>>) -> spec_fn(
    UIElement,
) -> bool {
    |n: UIElement| element_matches(n, role, title)
}

/// The search selects, in pre-order, exactly the elements of the tree that
/// match the role and the title.
pub proof fn lemma_matching_is_filter(e: UIElement, role: Option<Seq<char>>, title: Option<Seq<char>>)
    ensures
        matching(e, role, title) == nodes(e).filter(selector(role, title)),
    decreases e,
{
    let pred = selector(role, title);
    lemma_matching_all_is_filter(e.children@, role, title);
    Seq::filter_distributes_over_add(seq![e], nodes_all(e.children@), pred);
    reveal_with_fuel(Seq::filter, 2);
    assert(seq![e].drop_last() =~= Seq::<UIElement>::empty());
    if element_matches(e, role, title) {
        assert(seq![e].filter(pred) =~= seq![e]);
    } else {
        assert(seq![e].filter(pred) =~= Seq::<UIElement>::empty());
    }
    assert(matching(e, role, title) =~= nodes(e).filter(pred));
}

/// Over a list of trees, the search selects exactly the matching elements.
pub proof fn lemma_matching_all_is_filter(
    s: Seq<UIElement>,
    role: Option<Seq<char>>,
    title: Option<Seq<char>>,
)
    ensures
        matching_all(s, role, title) == nodes_all(s).filter(selector(role, title)),
    decreases s,
{
    let pred = selector(role, title);
    if s.len() == 0 {
        reveal_with_fuel(Seq::filter, 1);
        assert(nodes_all(s).filter(pred) =~= Seq::<UIElement>::empty());
    } else {
        lemma_matching_is_filter(s[0], role, title);
        lemma_matching_all_is_filter(s.drop_first(), role, title);
        Seq::filter_distributes_over_add(nodes(s[0]), nodes_all(s.drop_first()), pred);
    }
}

/// Without a role and a title every element of the tree is selected.
pub proof fn lemma_matching_everything(e: UIElement)
    ensures
        matching(e, None, None) == nodes(e),
    decreases e,
{
    lemma_matching_all_everything(e.children@);
}

/// Without a role and a title every element of each tree is selected.
pub proof fn lemma_matching_all_everything(s: Seq<UIElement>)
    ensures
        matching_all(s, None, None) == nodes_all(s),
    decreases s,
{
    if s.len() > 0 {
        lemma_matching_everything(s[0]);
        lemma_matching_all_everything(s.drop_first());
    }
}

/// What the search selects, in plain terms: the elements of the tree in
/// pre-order whose role, when a role is asked for, has the length of that
/// role and the same characters once ASCII capitals are lowered (so a role
/// that merely starts with it is not selected), and whose title, when a
/// title is asked for, exists and holds it as a contiguous piece.
pub proof fn lemma_search_selects(e: UIElement, role: Option<Seq<char>>, title: Option<Seq<char>>)
    ensures
        matching(e, role, title) == nodes(e).filter(
            (|n: UIElement|
                (role matches Some(r) ==> (n.role@.len() == r.len() && forall|k: int|
                    0 <= k < r.len() ==> (if 65 <= (#[trigger] n.role@[k]) as u32 <= 90 {
                        n.role@[k] as u32 + 32
                    } else {
                        n.role@[k] as u32 + 0
                    }) == (if 65 <= r[k] as u32 <= 90 {
                        r[k] as u32 + 32
                    } else {
                        r[k] as u32 + 0
                    }))) && (title matches Some(t) ==> (n.title matches Some(et) && exists|j: int|
                    0 <= j && j + t.len() <= et@.len() && #[trigger] et@.subrange(j, j + t.len())
                        == t))),
        ),
{
    lemma_matching_is_filter(e, role, title);
    let plain = |n: UIElement|
        (role matches Some(r) ==> (n.role@.len() == r.len() && forall|k: int|
            0 <= k < r.len() ==> (if 65 <= (#[trigger] n.role@[k]) as u32 <= 90 {
                n.role@[k] as u32 + 32
            } else {
                n.role@[k] as u32 + 0
            }) == (if 65 <= r[k] as u32 <= 90 {
                r[k] as u32 + 32
            } else {
                r[k] as u32 + 0
            }))) && (title matches Some(t) ==> (n.title matches Some(et) && exists|j: int|
            0 <= j && j + t.len() <= et@.len() && #[trigger] et@.subrange(j, j + t.len()) == t));
    assert forall|n: UIElement| #[trigger] selector(role, title)(n) == plain(n) by {
        if let Some(r) = role {
            if n.role@.len() == r.len() {
                assert(eq_ignore_ascii_case(n.role@, r) == (forall|k: int|
                    0 <= k < r.len() ==> (if 65 <= (#[trigger] n.role@[k]) as u32 <= 90 {
                        n.role@[k] as u32 + 32
                    } else {
                        n.role@[k] as u32 + 0
                    }) == (if 65 <= r[k] as u32 <= 90 {
                        r[k] as u32 + 32
                    } else {
                        r[k] as u32 + 0
                    })));
            }
        }
    }
    assert(selector(role, title) =~= plain);
}

/// Filtering by a test and then by a stricter one is filtering by the
/// stricter one alone.
proof fn lemma_filter_then_stricter(s: Seq<UIElement>, p: spec_fn(UIElement) -> bool, q: spec_fn(UIElement) -> bool)
    requires
        forall|x: UIElement| #[trigger] q(x) ==> p(x),
    ensures
        s.filter(p).filter(q) == s.filter(q),
    decreases s.len(),
{
    if s.len() == 0 {
        reveal_with_fuel(Seq::filter, 1);
        assert(s.filter(p) =~= s);
    } else {
        let d = s.drop_last();
        let x = s.last();
        lemma_filter_then_stricter(d, p, q);
        assert(s =~= d.push(x));
        d.lemma_filter_push(x, p);
        d.lemma_filter_push(x, q);
        d.filter(p).lemma_filter_push(x, q);
    }
}

/// Narrowing the search adds no element and keeps the order: when every
/// element selected by `role2` and `title2` is also selected by `role` and
/// `title`, the narrower search gives the wider one's results filtered by
/// the narrower test, a subsequence of them.
pub proof fn lemma_narrower_search_is_subsequence(
    e: UIElement,
    role: Option<Seq<char>>,
    title: Option<Seq<char>>,
    role2: Option<Seq<char>>,
    title2: Option<Seq<char>>,
)
    requires
        forall|n: UIElement| #[trigger] element_matches(n, role2, title2) ==> element_matches(n, role, title),
    ensures
        matching(e, role2, title2) == matching(e, role, title).filter(selector(role2, title2)),
{
    lemma_matching_is_filter(e, role, title);
    lemma_matching_is_filter(e, role2, title2);
    let p = selector(role, title);
    let q = selector(role2, title2);
    assert forall|x: UIElement| #[trigger] q(x) implies p(x) by {
        assert(element_matches(x, role2, title2));
    }
    lemma_filter_then_stricter(nodes(e), p, q);
}

/// Adding a title to a search keeps a subsequence of the results found
/// without it, for the same role.
pub proof fn lemma_title_filter_narrows(e: UIElement, role: Option<Seq<char>>, t: Seq<char>)
    ensures
        matching(e, role, Some(t)) == matching(e, role, None).filter(selector(role, Some(t))),
{
    lemma_narrower_search_is_subsequence(e, role, None, role, Some(t));
}

/// Adding a role to a search keeps a subsequence of the results found
/// without it, for the same title.
pub proof fn lemma_role_filter_narrows(e: UIElement, r: Seq<char>, title: Option<Seq<char>>)
    ensures
        matching(e, Some(r), title) == matching(e, None, title).filter(selector(Some(r), title)),
{
    lemma_narrower_search_is_subsequence(e, None, title, Some(r), title);
}


// ---------------------------------------------------------------------------
// Decisions of the platform readers
// ---------------------------------------------------------------------------

/// Whether the tree reader descends below an element at `current_depth` when
/// the depth is limited to `max_depth` (`None`: no limit).
pub fn should_descend(current_depth: u32, max_depth: Option<u32>) -> (r: bool)
    ensures
        r == (max_depth matches Some(d) ==> current_depth < d),
{
    match max_depth {
        Some(d) => current_depth < d,
        None => true,
    }
}

/// No path from `t` down to a leaf is longer than `d` levels: `t` has no
/// children, or `d` is positive and each child is at most `d - 1` deep.
pub open spec fn depth_at_most(t: UIElement, d: nat) -> bool
    decreases t,
{
    t.children@.len() == 0 || (d > 0 && all_depth_at_most(t.children@, (d - 1) as nat))
}

/// Each tree of `s` is at most `d` levels deep.
pub open spec fn all_depth_at_most(s: Seq<UIElement>, d: nat) -> bool
    decreases s,
{
    s.len() == 0 || (depth_at_most(s[0], d) && all_depth_at_most(s.drop_first(), d))
}

/// The levels that the tree reader may still add below an element at
/// `current_depth` when the depth is limited to `max_depth`.
pub open spec fn levels_left(current_depth: int, max_depth: int) -> nat {
    if current_depth < max_depth {
        (max_depth - current_depth) as nat
    } else {
        0
    }
}

/// `a` and `b` carry the same attributes (children aside).
pub open spec fn same_attributes(a: UIElement, b: UIElement) -> bool {
    &&& a.role@ == b.role@
    &&& opt_text(a.title) == opt_text(b.title)
    &&& opt_text(a.value) == opt_text(b.value)
    &&& opt_text(a.description) == opt_text(b.description)
    &&& a.bounds == b.bounds
    &&& opt_texts(a.actions) == opt_texts(b.actions)
}

/// The levels still to read below an element: one fewer than above it.
pub open spec fn next_left(left: Option<nat>) -> Option<nat> {
    match left {
        Some(n) => Some((n - 1) as nat),
        None => None,
    }
}

/// The levels that the reader may still add below an element at
/// `current_depth` (`None`: no limit).
pub open spec fn left_of(current_depth: int, max_depth: Option<u32>) -> Option<nat> {
    match max_depth {
        Some(d) => Some(levels_left(current_depth, d as int)),
        None => None,
    }
}

/// `r` is the tree `t` cut `left` levels below its root (`None`: not cut):
/// the same attributes at every element kept, the same children in the same
/// order, except that the elements `left` levels down have no children.
pub open spec fn pruned_copy(r: UIElement, t: UIElement, left: Option<nat>) -> bool
    decreases r,
{
    &&& same_attributes(r, t)
    &&& if left == Some(0nat) {
        r.children@.len() == 0
    } else {
        all_pruned(r.children@, t.children@, next_left(left))
    }
}

/// Each tree of `rs` is the tree at the same place in `ts`, cut `left`
/// levels below its root.
pub open spec fn all_pruned(rs: Seq<UIElement>, ts: Seq<UIElement>, left: Option<nat>) -> bool
    decreases rs,
{
    &&& rs.len() == ts.len()
    &&& (rs.len() == 0 || (pruned_copy(rs[0], ts[0], left) && all_pruned(
        rs.drop_first(),
        ts.drop_first(),
        left,
    )))
}

/// The element `node` read at `current_depth`, with `children` (read one
/// level further down) under it when the reader descends there, and none
/// otherwise. With a depth limit, an element whose children keep within the
/// levels left below them keeps within the levels left at its own depth, so
/// a tree built from the root at depth 0 is at most `max_depth` deep.
pub fn attach_children(
    node: UIElement,
    current_depth: u32,
    max_depth: Option<u32>,
    children: Vec<UIElement>,
) -> (r: UIElement)
    ensures
        r.role == node.role,
        r.title == node.title,
        r.value == node.value,
        r.description == node.description,
        r.bounds == node.bounds,
        r.actions == node.actions,
        r.children@ == (if (max_depth matches Some(d) ==> current_depth < d) {
            children@
        } else {
            Seq::empty()
        }),
        max_depth matches Some(d) ==> ((current_depth < d ==> all_depth_at_most(
            children@,
            levels_left(current_depth + 1, d as int),
        )) ==> depth_at_most(r, levels_left(current_depth as int, d as int))),
        forall|t: UIElement|
            #![trigger pruned_copy(r, t, left_of(current_depth as int, max_depth))]
            same_attributes(node, t) && ((max_depth matches Some(d) ==> current_depth < d)
                ==> all_pruned(children@, t.children@, left_of(current_depth + 1, max_depth)))
                ==> pruned_copy(r, t, left_of(current_depth as int, max_depth)),
{
    let kept = if should_descend(current_depth, max_depth) {
        children
    } else {
        Vec::new()
    };
    let r = UIElement {
        role: node.role,
        title: node.title,
        value: node.value,
        description: node.description,
        bounds: node.bounds,
        children: kept,
        actions: node.actions,
    };
    proof {
        if let Some(d) = max_depth {
            if current_depth < d {
                assert(levels_left(current_depth + 1, d as int) == (levels_left(
                    current_depth as int,
                    d as int,
                ) - 1) as nat);
            }
        }
        assert forall|t: UIElement|
            same_attributes(node, t) && ((max_depth matches Some(d) ==> current_depth < d)
                ==> all_pruned(children@, t.children@, left_of(current_depth + 1, max_depth)))
                implies #[trigger] pruned_copy(r, t, left_of(current_depth as int, max_depth)) by {
            if let Some(d) = max_depth {
                if current_depth < d {
                    assert(next_left(left_of(current_depth as int, max_depth)) == left_of(
                        current_depth + 1,
                        max_depth,
                    ));
                }
            }
        }
    }
    r
}

/// A tree read with a depth limit of `d` levels is at most `d` deep.
pub proof fn lemma_pruned_within_depth(r: UIElement, t: UIElement, d: nat)
    requires
        pruned_copy(r, t, Some(d)),
    ensures
        depth_at_most(r, d),
    decreases r,
{
    if d > 0 {
        lemma_all_pruned_within_depth(r.children@, t.children@, (d - 1) as nat);
    }
}

/// Trees read with a depth limit of `d` levels are at most `d` deep.
pub proof fn lemma_all_pruned_within_depth(rs: Seq<UIElement>, ts: Seq<UIElement>, d: nat)
    requires
        all_pruned(rs, ts, Some(d)),
    ensures
        all_depth_at_most(rs, d),
    decreases rs,
{
    if rs.len() > 0 {
        lemma_pruned_within_depth(rs[0], ts[0], d);
        lemma_all_pruned_within_depth(rs.drop_first(), ts.drop_first(), d);
    }
}

/// A read of a tree with a depth limit of `d` levels is the read without a
/// limit, cut `d` levels below the root: the same elements down to that
/// depth, with the elements `d` levels down childless.
pub proof fn lemma_limited_read_prunes_full_read(
    limited: UIElement,
    full: UIElement,
    t: UIElement,
    d: nat,
)
    requires
        pruned_copy(full, t, None),
        pruned_copy(limited, t, Some(d)),
    ensures
        pruned_copy(limited, full, Some(d)),
    decreases limited,
{
    if d > 0 {
        lemma_all_limited_reads_prune_full_reads(
            limited.children@,
            full.children@,
            t.children@,
            (d - 1) as nat,
        );
    }
}

/// Over lists of trees, reads with a depth limit of `d` levels are the reads
/// without a limit, cut `d` levels below their roots.
pub proof fn lemma_all_limited_reads_prune_full_reads(
    limited: Seq<UIElement>,
    full: Seq<UIElement>,
    t: Seq<UIElement>,
    d: nat,
)
    requires
        all_pruned(full, t, None),
        all_pruned(limited, t, Some(d)),
    ensures
        all_pruned(limited, full, Some(d)),
    decreases limited,
{
    if limited.len() > 0 {
        lemma_limited_read_prunes_full_read(limited[0], full[0], t[0], d);
        lemma_all_limited_reads_prune_full_reads(
            limited.drop_first(),
            full.drop_first(),
            t.drop_first(),
            d,
        );
    }
}

/// The role of an element, "unknown" when the platform reports none.
pub fn role_or_unknown(role: Option<String>) -> (r: String)
    ensures
        r@ == match role {
            Some(s) => s@,
            None => "unknown"@,
        },
{
    match role {
        Some(s) => s,
        None => "unknown".to_owned(),
    }
}

/// An attribute text, or `None` when the platform reports it empty.
pub fn non_empty_text(s: String) -> (r: Option<String>)
    ensures
        s@.len() == 0 ==> r is None,
        s@.len() > 0 ==> (r matches Some(t) && t@ == s@),
{
    if s.as_str().is_empty() {
        None
    } else {
        Some(s)
    }
}

/// The action names of an element, or `None` when it has none.
pub fn non_empty_actions(names: Vec<String>) -> (r: Option<Vec<String>>)
    ensures
        names@.len() == 0 ==> r is None,
        names@.len() > 0 ==> r == Some(names),
{
    if names.len() == 0 {
        None
    } else {
        Some(names)
    }
}

/// The pid that one line of `lsappinfo` output names: the line, trimmed,
/// contains "pid" and an '=', and what follows the first '=', trimmed, is a
/// decimal `i32`.
pub open spec fn line_pid(line: Seq<char>) -> Option<i32> {
    let t = trim(line);
    let k = index_of(t, '=');
    if has_substring(t, "pid"@) && k < t.len() {
        match parse_i32(trim(t.skip(k + 1))) {
            Ok(v) => Some(v),
            Err(_) => None,
        }
    } else {
        None
    }
}

/// The pid named by the first line of `s` that names one (lines end at
/// '\n'; a '\r' before it is white space that trimming removes).
pub open spec fn lsappinfo_pid(s: Seq<char>) -> Option<i32>
    decreases s.len(),
{
    let k = index_of(s, '\n');
    match line_pid(s.take(k)) {
        Some(p) => Some(p),
        None => if 0 <= k < s.len() {
            proof {
                lemma_index_of(s, '\n');
            }
            lsappinfo_pid(s.skip(k + 1))
        } else {
            None
        },
    }
}

fn line_pid_of(line: &Vec<char>) -> (r: Option<i32>)
    ensures
        r == line_pid(line@),
{
    let t = trim_chars(line);
    let k = index_of_char(&t, '=');
    proof {
        lemma_index_of(t@, '=');
    }
    let pid = chars_of("pid");
    if contains_chars(&t, &pid) && k < t.len() {
        let after = sub_chars(&t, k + 1, t.len());
        assert(after@ =~= t@.skip(k + 1));
        let value = trim_chars(&after);
        match parse_i32_chars(&value) {
            Ok(v) => Some(v),
            Err(_) => None,
        }
    } else {
        None
    }
}

/// Parses the pid out of `lsappinfo info -only pid` output such as
/// `"pid"=822`: the value of the first line that holds "pid", an '=' and
/// a decimal number after it.
pub fn parse_lsappinfo_pid(output: &str) -> (r: Option<i32>)
    ensures
        r == lsappinfo_pid(output@),
{
    let s = chars_of(output);
    let len = s.len();
    let mut start: usize = 0;
    assert(s@.skip(0) =~= s@);
    while start <= len
        invariant
            start <= len == s.len(),
            s@ == output@,
            lsappinfo_pid(s@) == lsappinfo_pid(s@.skip(start as int)),
        decreases len - start,
    {
        let rest = sub_chars(&s, start, len);
        assert(rest@ =~= s@.skip(start as int));
        let k = index_of_char(&rest, '\n');
        proof {
            lemma_index_of(rest@, '\n');
        }
        let line = sub_chars(&rest, 0, k);
        assert(line@ =~= rest@.take(k as int));
        match line_pid_of(&line) {
            Some(p) => {
                return Some(p);
            },
            None => {
                if k < rest.len() {
                    assert(rest@.skip(k + 1) =~= s@.skip(start + k + 1));
                    start = start + k + 1;
                } else {
                    return None;
                }
            },
        }
    }
    None
}

/// The application id that `lsappinfo front` printed, or an error when it
/// printed nothing but white space.
pub fn frontmost_asn(stdout: &str) -> (r: Result<String, Error>)
    ensures
        trim(stdout@).len() == 0 ==> (r matches Err(Error::AccessibilityFailed(m)) && m@
            == "No frontmost application found"@),
        trim(stdout@).len() > 0 ==> (r matches Ok(asn) && asn@ == trim(stdout@)),
{
    let s = chars_of(stdout);
    let t = trim_chars(&s);
    if t.len() == 0 {
        Err(Error::AccessibilityFailed("No frontmost application found".to_owned()))
    } else {
        Ok(string_from_chars(&t))
    }
}

/// The text that `str::parse` gives for a failed parse of an integer.
pub open spec fn int_error_text(k: IntErrorKind) -> Seq<char> {
    match k {
        IntErrorKind::Empty => "cannot parse integer from empty string"@,
        IntErrorKind::InvalidDigit => "invalid digit found in string"@,
        IntErrorKind::PosOverflow => "number too large to fit in target type"@,
        IntErrorKind::NegOverflow => "number too small to fit in target type"@,
    }
}

/// The text of a failed parse of an integer.
pub fn int_error_message(k: IntErrorKind) -> (r: String)
    ensures
        r@ == int_error_text(k),
{
    match k {
        IntErrorKind::Empty => "cannot parse integer from empty string".to_owned(),
        IntErrorKind::InvalidDigit => "invalid digit found in string".to_owned(),
        IntErrorKind::PosOverflow => "number too large to fit in target type".to_owned(),
        IntErrorKind::NegOverflow => "number too small to fit in target type".to_owned(),
    }
}

/// The pid that `osascript` printed for the frontmost process: its output,
/// trimmed, read as a decimal `i32`.
pub fn pid_from_osascript(stdout: &str) -> (r: Result<i32, Error>)
    ensures
        parse_i32(trim(stdout@)) matches Ok(v) ==> r == Ok::<i32, Error>(v),
        parse_i32(trim(stdout@)) matches Err(k) ==> (r matches Err(Error::AccessibilityFailed(m))
            && m@ == "Failed to parse PID '"@ + trim(stdout@) + "': "@ + int_error_text(k)),
{
    let s = chars_of(stdout);
    let t = trim_chars(&s);
    match parse_i32_chars(&t) {
        Ok(v) => Ok(v),
        Err(k) => {
            let pid_str = string_from_chars(&t);
            let mut m = joined("Failed to parse PID '", pid_str.as_str());
            m.append("': ");
            let reason = int_error_message(k);
            m.append(reason.as_str());
            Err(Error::AccessibilityFailed(m))
        },
    }
}

/// The pid of the application `name` from `lsappinfo info` output, or the
/// error that reports the application missing.
pub fn app_pid_from_lsappinfo(name: &str, info: &str) -> (r: Result<i32, Error>)
    ensures
        lsappinfo_pid(info@) matches Some(p) ==> r == Ok::<i32, Error>(p),
        lsappinfo_pid(info@) is None ==> (r matches Err(Error::AccessibilityFailed(m)) && m@
            == "App '"@ + name@ + "' not found or not running"@),
{
    match parse_lsappinfo_pid(info) {
        Some(p) => Ok(p),
        None => {
            let mut m = joined("App '", name);
            m.append("' not found or not running");
            Err(Error::AccessibilityFailed(m))
        },
    }
}

/// The first line of `s` (up to the first '\n'), or `None` when `s` is empty.
pub open spec fn first_line(s: Seq<char>) -> Option<Seq<char>> {
    if s.len() == 0 {
        None
    } else {
        Some(s.take(index_of(s, '\n')))
    }
}

/// The window that `xdotool` named: for a named application the first line
/// of the output of `xdotool search --name` (an error when there is none),
/// else the output of `xdotool getactivewindow`; trimmed, and an error
/// when that leaves nothing.
pub fn window_id(app: Option<&str>, stdout: &str) -> (r: Result<String, Error>)
    ensures
        app matches Some(name) ==> (first_line(stdout@) is None ==> (r matches Err(
            Error::AccessibilityFailed(m),
        ) && m@ == "No window found for '"@ + name@ + "'"@)),
        ({
            let id = match app {
                Some(_) => match first_line(stdout@) {
                    Some(l) => Some(trim(l)),
                    None => None,
                },
                None => Some(trim(stdout@)),
            };
            id matches Some(i) ==> if i.len() == 0 {
                (r matches Err(Error::AccessibilityFailed(m)) && m@ == "No active window found"@)
            } else {
                (r matches Ok(w) && w@ == i)
            }
        }),
{
    let s = chars_of(stdout);
    let line = match app {
        Some(name) => {
            if s.len() == 0 {
                let mut m = joined("No window found for '", name);
                m.append("'");
                return Err(Error::AccessibilityFailed(m));
            }
            let k = index_of_char(&s, '\n');
            proof {
                lemma_index_of(s@, '\n');
            }
            let l = sub_chars(&s, 0, k);
            assert(l@ =~= s@.take(k as int));
            l
        },
        None => s,
    };
    let id = trim_chars(&line);
    if id.len() == 0 {
        Err(Error::AccessibilityFailed("No active window found".to_owned()))
    } else {
        Ok(string_from_chars(&id))
    }
}

/// The element that stands for a window on Linux: role "window", the
/// window's name (the output of `xdotool getwindowname`, trimmed) as its
/// title unless that is empty, and its bounds.
pub fn window_element(name_stdout: &str, bounds: Bounds) -> (r: UIElement)
    ensures
        r.role@ == "window"@,
        trim(name_stdout@).len() == 0 ==> r.title is None,
        trim(name_stdout@).len() > 0 ==> (r.title matches Some(t) && t@ == trim(name_stdout@)),
        r.value is None,
        r.description is None,
        r.bounds == Some(bounds),
        r.children@.len() == 0,
        r.actions is None,
{
    let s = chars_of(name_stdout);
    let name = trim_chars(&s);
    let title = if name.len() == 0 {
        None
    } else {
        Some(string_from_chars(&name))
    };
    UIElement {
        role: "window".to_owned(),
        title,
        value: None,
        description: None,
        bounds: Some(bounds),
        children: Vec::new(),
        actions: None,
    }
}

} // verus!
