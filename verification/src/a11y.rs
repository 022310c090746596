//! The accessibility tree of a screen: looking a node up by its label, and
//! rendering the tree as compact text.

use crate::text::{
    after_last, append_chars, append_escaped, append_joined, append_repeated,
    append_signed_decimal, append_str, buffers_view, chars_of, escaped_newlines, joined,
    last_segment, repeated, same_chars, signed_decimal, string_of,
};
use std::collections::HashMap;
use vstd::prelude::*;

verus! {

broadcast use vstd::std_specs::hash::group_hash_axioms;

/// One snapshot of everything on a screen: its windows, front to back as dumped.
#[derive(Clone, Debug)]
pub struct A11yTree {
    pub windows: Vec<A11yWindow>,
}

/// The nodes of one window, in the order of the dump.
#[derive(Clone, Debug)]
pub struct A11yWindow {
    pub nodes: Vec<A11yNode>,
}

/// The rectangle that a node covers, in device pixels.
#[derive(Clone, Copy, Debug)]
pub struct Bounds {
    pub left: i32,
    pub top: i32,
    pub right: i32,
    pub bottom: i32,
}

/// One node of a window. A node without `parent_id` is the root of its window.
#[derive(Clone, Debug)]
pub struct A11yNode {
    pub id: i32,
    pub parent_id: Option<i32>,
    pub class_name: Option<String>,
    pub text: Option<String>,
    pub content_desc: Option<String>,
    pub hint: Option<String>,
    pub checkable: bool,
    pub checked: bool,
    pub clickable: bool,
    pub focused: bool,
    pub scrollable: bool,
    pub long_clickable: bool,
    pub selected: bool,
    pub password: bool,
    pub bounds: Bounds,
}

/// What a node holds, with its strings as character sequences.
pub struct NodeView {
    pub id: i32,
    pub parent_id: Option<i32>,
    pub class_name: Option<Seq<char>>,
    pub text: Option<Seq<char>>,
    pub content_desc: Option<Seq<char>>,
    pub hint: Option<Seq<char>>,
    pub checkable: bool,
    pub checked: bool,
    pub clickable: bool,
    pub focused: bool,
    pub scrollable: bool,
    pub long_clickable: bool,
    pub selected: bool,
    pub password: bool,
    pub bounds: Bounds,
}

/// The characters of an optional string.
pub open spec fn opt_chars(s: Option<String>) -> Option<Seq<char>> {
    match s {
        Some(t) => Some(t@),
        None => None,
    }
}

impl View for A11yNode {
    type V = NodeView;

    open spec fn view(&self) -> NodeView {
        NodeView {
            id: self.id,
            parent_id: self.parent_id,
            class_name: opt_chars(self.class_name),
            text: opt_chars(self.text),
            content_desc: opt_chars(self.content_desc),
            hint: opt_chars(self.hint),
            checkable: self.checkable,
            checked: self.checked,
            clickable: self.clickable,
            focused: self.focused,
            scrollable: self.scrollable,
            long_clickable: self.long_clickable,
            selected: self.selected,
            password: self.password,
            bounds: self.bounds,
        }
    }
}

/// The views of a sequence of nodes.
pub open spec fn nodes_view(nodes: Seq<A11yNode>) -> Seq<NodeView> {
    nodes.map_values(|n: A11yNode| n@)
}

impl View for A11yWindow {
    type V = Seq<NodeView>;

    open spec fn view(&self) -> Seq<NodeView> {
        nodes_view(self.nodes@)
    }
}

impl View for A11yTree {
    type V = Seq<Seq<NodeView>>;

    open spec fn view(&self) -> Seq<Seq<NodeView>> {
        self.windows@.map_values(|w: A11yWindow| w@)
    }
}

/// An optional string with the empty string taken as absent.
pub open spec fn non_empty(s: Option<Seq<char>>) -> Option<Seq<char>> {
    match s {
        Some(t) => if t.len() == 0 {
            None
        } else {
            Some(t)
        },
        None => None,
    }
}

/// Normalises an optional string of a dump: the empty string counts as absent.
pub fn empty_as_none(s: Option<String>) -> (r: Option<String>)
    ensures
        opt_chars(r) == non_empty(opt_chars(s)),
{
    match s {
        Some(t) => {
            if t.as_str().unicode_len() == 0 {
                None
            } else {
                Some(t)
            }
        },
        None => None,
    }
}

// ---------------------------------------------------------------------------
// Lookup by label
// ---------------------------------------------------------------------------

/// Whether the text or the content description of `n` is exactly `query`.
pub open spec fn has_label(n: NodeView, query: Seq<char>) -> bool {
    n.text == Some(query) || n.content_desc == Some(query)
}

/// The position of the first node of `nodes`, at or behind `from`, whose label
/// is `query`.
pub open spec fn first_labelled_from(nodes: Seq<NodeView>, query: Seq<char>, from: int) -> Option<
    int,
>
    decreases nodes.len() - from,
{
    if from < 0 || from >= nodes.len() {
        None
    } else if has_label(nodes[from], query) {
        Some(from)
    } else {
        first_labelled_from(nodes, query, from + 1)
    }
}

/// The window and the position in it of the first node whose label is `query`,
/// searching the windows at or behind `from` in order, and each window's nodes
/// in order.
pub open spec fn first_labelled(tree: Seq<Seq<NodeView>>, query: Seq<char>, from: int) -> Option<
    (int, int),
>
    decreases tree.len() - from,
{
    if from < 0 || from >= tree.len() {
        None
    } else {
        match first_labelled_from(tree[from], query, 0) {
            Some(i) => Some((from, i)),
            None => first_labelled(tree, query, from + 1),
        }
    }
}

/// Whether position `(w, i)` comes before position `(v, j)` when the windows
/// are walked in order, and each window's nodes in order.
pub open spec fn comes_before(w: int, i: int, v: int, j: int) -> bool {
    w < v || (w == v && i < j)
}

/// Whether the optional string `s` is exactly `query`.
fn is_exactly(s: &Option<String>, query: &Vec<char>) -> (r: bool)
    ensures
        r == (opt_chars(*s) == Some(query@)),
{
    match s {
        Some(t) => {
            let v = chars_of(t.as_str());
            same_chars(&v, query)
        },
        None => false,
    }
}

/// The first node whose text or content description is exactly `query`,
/// walking the windows in order and each window's nodes in order.
pub fn find_node<'a>(tree: &'a A11yTree, query: &str) -> (r: Option<&'a A11yNode>)
    ensures
        match first_labelled(tree@, query@, 0) {
            Some((w, i)) => r == Some(&tree.windows@[w].nodes@[i]),
            None => r is None,
        },
{
    let q = chars_of(query);
    let mut w: usize = 0;
    while w < tree.windows.len()
        invariant
            w <= tree.windows.len(),
            q@ == query@,
            first_labelled(tree@, query@, 0) == first_labelled(tree@, query@, w as int),
        decreases tree.windows.len() - w,
    {
        let window = &tree.windows[w];
        assert(tree@[w as int] == window@);
        let mut i: usize = 0;
        while i < window.nodes.len()
            invariant
                i <= window.nodes.len(),
                q@ == query@,
                w < tree.windows.len(),
                window == &tree.windows@[w as int],
                tree@[w as int] == window@,
                first_labelled(tree@, query@, 0) == first_labelled(tree@, query@, w as int),
                first_labelled_from(window@, query@, 0) == first_labelled_from(
                    window@,
                    query@,
                    i as int,
                ),
            decreases window.nodes.len() - i,
        {
            let node = &window.nodes[i];
            assert(window@[i as int] == node@);
            if is_exactly(&node.text, &q) || is_exactly(&node.content_desc, &q) {
                return Some(node);
            }
            i += 1;
        }
        w += 1;
    }
    None
}

/// Label lookup finds the first match and nothing else: where it finds a node,
/// that node's text or content description is the query, character for
/// character, and no node before it has such a label; where it finds none, no
/// node of the tree has such a label.
pub proof fn lemma_find_node_first_match(tree: Seq<Seq<NodeView>>, query: Seq<char>)
    ensures
        match first_labelled(tree, query, 0) {
            Some((w, i)) => {
                &&& 0 <= w < tree.len()
                &&& 0 <= i < tree[w].len()
                &&& has_label(tree[w][i], query)
                &&& forall|v: int, j: int|
                    0 <= v < tree.len() && 0 <= j < tree[v].len() && comes_before(v, j, w, i)
                        ==> !has_label(#[trigger] tree[v][j], query)
            },
            None => forall|v: int, j: int|
                0 <= v < tree.len() && 0 <= j < tree[v].len() ==> !has_label(
                    #[trigger] tree[v][j],
                    query,
                ),
        },
{
    lemma_first_labelled(tree, query, 0);
}

proof fn lemma_first_labelled_from(nodes: Seq<NodeView>, query: Seq<char>, from: int)
    requires
        0 <= from,
    ensures
        match first_labelled_from(nodes, query, from) {
            Some(i) => {
                &&& from <= i < nodes.len()
                &&& has_label(nodes[i], query)
                &&& forall|j: int| from <= j < i ==> !has_label(#[trigger] nodes[j], query)
            },
            None => forall|j: int| from <= j < nodes.len() ==> !has_label(#[trigger] nodes[j], query),
        },
    decreases nodes.len() - from,
{
    if from < nodes.len() && !has_label(nodes[from], query) {
        lemma_first_labelled_from(nodes, query, from + 1);
    }
}

proof fn lemma_first_labelled(tree: Seq<Seq<NodeView>>, query: Seq<char>, from: int)
    requires
        0 <= from,
    ensures
        match first_labelled(tree, query, from) {
            Some((w, i)) => {
                &&& from <= w < tree.len()
                &&& 0 <= i < tree[w].len()
                &&& has_label(tree[w][i], query)
                &&& forall|v: int, j: int|
                    from <= v < tree.len() && 0 <= j < tree[v].len() && comes_before(v, j, w, i)
                        ==> !has_label(#[trigger] tree[v][j], query)
            },
            None => forall|v: int, j: int|
                from <= v < tree.len() && 0 <= j < tree[v].len() ==> !has_label(
                    #[trigger] tree[v][j],
                    query,
                ),
        },
    decreases tree.len() - from,
{
    if from < tree.len() {
        lemma_first_labelled_from(tree[from], query, 0);
        if first_labelled_from(tree[from], query, 0) is None {
            lemma_first_labelled(tree, query, from + 1);
        }
    }
}

// ---------------------------------------------------------------------------
// Rendering: what a node contributes
// ---------------------------------------------------------------------------

/// Whether a node is worth a line of its own: it carries a text, a content
/// description or a hint, or one of the flags that say what can be done with
/// it or in what state it is.
pub open spec fn interesting(n: NodeView) -> bool {
    ||| n.text is Some
    ||| n.content_desc is Some
    ||| n.hint is Some
    ||| n.clickable
    ||| n.scrollable
    ||| n.checkable
    ||| n.long_clickable
    ||| n.focused
    ||| n.selected
}

/// Whether a node is worth a line of its own.
pub fn is_interesting(node: &A11yNode) -> (r: bool)
    ensures
        r == interesting(node@),
{
    node.text.is_some() || node.content_desc.is_some() || node.hint.is_some() || node.clickable
        || node.scrollable || node.checkable || node.long_clickable || node.focused
        || node.selected
}

/// Whether a node carries a text and nothing else that would make it
/// interesting.
pub open spec fn label_only(n: NodeView) -> bool {
    &&& n.text is Some
    &&& n.content_desc is None
    &&& n.hint is None
    &&& !n.clickable
    &&& !n.scrollable
    &&& !n.checkable
    &&& !n.long_clickable
    &&& !n.focused
    &&& !n.selected
}

/// The labels that a node hands down to its children: its own text and its own
/// content description.
pub open spec fn own_labels(n: NodeView) -> Set<Seq<char>> {
    Set::new(|s: Seq<char>| has_label(n, s))
}

/// Whether a node only repeats a label that the line above it already shows.
pub open spec fn redundant_label(n: NodeView, inherited: Option<Set<Seq<char>>>) -> bool {
    label_only(n) && inherited is Some && inherited->0.contains(n.text->0)
}

/// Whether `name` is the class of a plain container.
pub open spec fn is_container_name(name: Seq<char>) -> bool {
    ||| name == "ViewGroup"@
    ||| name == "FrameLayout"@
    ||| name == "LinearLayout"@
    ||| name == "RelativeLayout"@
    ||| name == "ConstraintLayout"@
}

/// The last segment of a dotted class name; none for a node without a class
/// and for the plain containers.
pub open spec fn short_class_of(class: Option<Seq<char>>) -> Option<Seq<char>> {
    match class {
        Some(c) => if is_container_name(after_last(c, '.')) {
            None
        } else {
            Some(after_last(c, '.'))
        },
        None => None,
    }
}

/// The class name that a line shows.
pub open spec fn shown_class(class: Option<Seq<char>>) -> Seq<char> {
    match short_class_of(class) {
        Some(name) => name,
        None => "View"@,
    }
}

/// The characters of an optional buffer.
pub open spec fn opt_buffer(b: Option<Vec<char>>) -> Option<Seq<char>> {
    match b {
        Some(v) => Some(v@),
        None => None,
    }
}

fn is_literal(name: &Vec<char>, literal: &str) -> (r: bool)
    ensures
        r == (name@ == literal@),
{
    let l = chars_of(literal);
    same_chars(name, &l)
}

fn short_class_chars(class: &Option<String>) -> (r: Option<Vec<char>>)
    ensures
        opt_buffer(r) == short_class_of(opt_chars(*class)),
{
    match class {
        Some(c) => {
            let full = chars_of(c.as_str());
            let name = last_segment(&full, '.');
            if is_literal(&name, "ViewGroup") || is_literal(&name, "FrameLayout") || is_literal(
                &name,
                "LinearLayout",
            ) || is_literal(&name, "RelativeLayout") || is_literal(&name, "ConstraintLayout") {
                None
            } else {
                Some(name)
            }
        },
        None => None,
    }
}

/// The last segment of a dotted class name; none for a node without a class
/// and for the plain containers.
pub fn short_class(class: &Option<String>) -> (r: Option<String>)
    ensures
        opt_chars(r) == short_class_of(opt_chars(*class)),
{
    match short_class_chars(class) {
        Some(name) => Some(string_of(&name)),
        None => None,
    }
}

/// The flags that a line shows, in the order in which it shows them. A button
/// is taken to be clickable, so for a button only the opposite is said.
pub open spec fn flag_tokens(n: NodeView) -> Seq<Seq<char>> {
    let button = shown_class(n.class_name) == "Button"@;
    let t0 = Seq::<Seq<char>>::empty();
    let t1 = if n.clickable && !button {
        t0.push("clickable"@)
    } else {
        t0
    };
    let t2 = if !n.clickable && button {
        t1.push("NOT-clickable"@)
    } else {
        t1
    };
    let t3 = if n.long_clickable {
        t2.push("long-clickable"@)
    } else {
        t2
    };
    let t4 = if n.scrollable {
        t3.push("scrollable"@)
    } else {
        t3
    };
    let t5 = if n.checkable {
        t4.push("checkable"@)
    } else {
        t4
    };
    let t6 = if n.checked {
        t5.push("checked"@)
    } else {
        t5
    };
    let t7 = if n.focused {
        t6.push("focused"@)
    } else {
        t6
    };
    let t8 = if n.selected {
        t7.push("selected"@)
    } else {
        t7
    };
    if n.password {
        t8.push("password"@)
    } else {
        t8
    }
}

/// The text of a node as its line shows it: in double quotes, line feeds escaped.
pub open spec fn text_part(text: Option<Seq<char>>) -> Seq<char> {
    match text {
        Some(t) => " \""@ + escaped_newlines(t) + "\""@,
        None => Seq::empty(),
    }
}

/// The content description of a node as its line shows it: in square brackets.
pub open spec fn desc_part(desc: Option<Seq<char>>) -> Seq<char> {
    match desc {
        Some(d) => " ["@ + escaped_newlines(d) + "]"@,
        None => Seq::empty(),
    }
}

/// The hint of a node as its line shows it.
pub open spec fn hint_part(hint: Option<Seq<char>>) -> Seq<char> {
    match hint {
        Some(h) => " hint=\""@ + escaped_newlines(h) + "\""@,
        None => Seq::empty(),
    }
}

/// The flags of a node as its line shows them: separated by single spaces.
pub open spec fn flags_part(n: NodeView) -> Seq<char> {
    if flag_tokens(n).len() == 0 {
        Seq::empty()
    } else {
        " "@ + joined(flag_tokens(n), " "@)
    }
}

/// The bounds of a node as its line shows them.
pub open spec fn bounds_part(b: Bounds) -> Seq<char> {
    " ("@ + signed_decimal(b.left as int) + ","@ + signed_decimal(b.top as int) + ","@
        + signed_decimal(b.right as int) + ","@ + signed_decimal(b.bottom as int) + ")"@
}

/// The line of an interesting node at nesting depth `depth`: two spaces for
/// each level, the class, then text, content description, hint, flags and
/// bounds as far as the node has them.
pub open spec fn rendered_line(n: NodeView, depth: nat) -> Seq<char> {
    repeated("  "@, depth) + shown_class(n.class_name) + text_part(n.text) + desc_part(
        n.content_desc,
    ) + hint_part(n.hint) + flags_part(n) + bounds_part(n.bounds)
}

fn push_token(tokens: &mut Vec<Vec<char>>, literal: &str)
    ensures
        buffers_view(final(tokens)@) == buffers_view(old(tokens)@).push(literal@),
{
    tokens.push(chars_of(literal));
    assert(buffers_view(tokens@) =~= buffers_view(old(tokens)@).push(literal@));
}

fn flags_of(node: &A11yNode, button: bool) -> (tokens: Vec<Vec<char>>)
    requires
        button == (shown_class(node@.class_name) == "Button"@),
    ensures
        buffers_view(tokens@) == flag_tokens(node@),
{
    let mut tokens: Vec<Vec<char>> = Vec::new();
    assert(buffers_view(tokens@) =~= Seq::<Seq<char>>::empty());
    if node.clickable && !button {
        push_token(&mut tokens, "clickable");
    }
    if !node.clickable && button {
        push_token(&mut tokens, "NOT-clickable");
    }
    if node.long_clickable {
        push_token(&mut tokens, "long-clickable");
    }
    if node.scrollable {
        push_token(&mut tokens, "scrollable");
    }
    if node.checkable {
        push_token(&mut tokens, "checkable");
    }
    if node.checked {
        push_token(&mut tokens, "checked");
    }
    if node.focused {
        push_token(&mut tokens, "focused");
    }
    if node.selected {
        push_token(&mut tokens, "selected");
    }
    if node.password {
        push_token(&mut tokens, "password");
    }
    tokens
}

fn append_quoted(line: &mut Vec<char>, open: &str, value: &Option<String>, close: &str)
    ensures
        final(line)@ == old(line)@ + (match opt_chars(*value) {
            Some(v) => open@ + escaped_newlines(v) + close@,
            None => Seq::empty(),
        }),
{
    match value {
        Some(v) => {
            let chars = chars_of(v.as_str());
            append_str(line, open);
            append_escaped(line, &chars);
            append_str(line, close);
            assert(line@ =~= old(line)@ + (open@ + escaped_newlines(v@) + close@));
        },
        None => {
            assert(line@ =~= old(line)@ + Seq::<char>::empty());
        },
    }
}

fn append_bounds(line: &mut Vec<char>, b: &Bounds)
    ensures
        final(line)@ == old(line)@ + bounds_part(*b),
{
    append_str(line, " (");
    append_signed_decimal(line, b.left);
    append_str(line, ",");
    append_signed_decimal(line, b.top);
    append_str(line, ",");
    append_signed_decimal(line, b.right);
    append_str(line, ",");
    append_signed_decimal(line, b.bottom);
    append_str(line, ")");
    assert(line@ =~= old(line)@ + bounds_part(*b));
}

/// The line of `node` at nesting depth `depth`.
fn render_line(node: &A11yNode, depth: usize) -> (line: Vec<char>)
    ensures
        line@ == rendered_line(node@, depth as nat),
{
    let mut line: Vec<char> = Vec::new();
    let unit = chars_of("  ");
    append_repeated(&mut line, &unit, depth);
    let class = match short_class_chars(&node.class_name) {
        Some(name) => name,
        None => chars_of("View"),
    };
    assert(class@ == shown_class(node@.class_name));
    append_chars(&mut line, &class);
    append_quoted(&mut line, " \"", &node.text, "\"");
    append_quoted(&mut line, " [", &node.content_desc, "]");
    append_quoted(&mut line, " hint=\"", &node.hint, "\"");
    let button = is_literal(&class, "Button");
    let tokens = flags_of(node, button);
    if tokens.len() > 0 {
        let space = chars_of(" ");
        append_str(&mut line, " ");
        append_joined(&mut line, &tokens, &space);
    }
    assert(line@ =~= repeated("  "@, depth as nat) + shown_class(node@.class_name) + text_part(
        node@.text,
    ) + desc_part(node@.content_desc) + hint_part(node@.hint) + flags_part(node@));
    append_bounds(&mut line, &node.bounds);
    line
}

// ---------------------------------------------------------------------------
// Rendering: the shape of a window
// ---------------------------------------------------------------------------

/// The positions, among the first `k` nodes, of those whose parent is `id`, in
/// ascending order.
pub open spec fn children_upto(nodes: Seq<NodeView>, id: i32, k: int) -> Seq<usize>
    decreases k,
{
    if k <= 0 {
        Seq::empty()
    } else if nodes[k - 1].parent_id == Some(id) {
        children_upto(nodes, id, k - 1).push((k - 1) as usize)
    } else {
        children_upto(nodes, id, k - 1)
    }
}

/// The positions of the nodes whose parent is `id`, in ascending order.
pub open spec fn children_of(nodes: Seq<NodeView>, id: i32) -> Seq<usize> {
    children_upto(nodes, id, nodes.len() as int)
}

/// The position of the last node without a parent among the first `k` nodes.
pub open spec fn root_upto(nodes: Seq<NodeView>, k: int) -> Option<usize>
    decreases k,
{
    if k <= 0 {
        None
    } else if nodes[k - 1].parent_id is None {
        Some((k - 1) as usize)
    } else {
        root_upto(nodes, k - 1)
    }
}

/// The position of the root of a window: its node without a parent, and the
/// last of them where a dump holds several.
pub open spec fn root_of(nodes: Seq<NodeView>) -> Option<usize> {
    root_upto(nodes, nodes.len() as int)
}

/// Every child position is the position of a node.
pub proof fn lemma_children_in_range(nodes: Seq<NodeView>, id: i32, k: int)
    requires
        k <= nodes.len() <= usize::MAX,
    ensures
        forall|j: int|
            0 <= j < children_upto(nodes, id, k).len() ==> (#[trigger] children_upto(
                nodes,
                id,
                k,
            )[j]) < nodes.len(),
    decreases k,
{
    if k > 0 {
        lemma_children_in_range(nodes, id, k - 1);
        let all = children_upto(nodes, id, k);
        let before = children_upto(nodes, id, k - 1);
        assert forall|j: int| 0 <= j < all.len() implies (#[trigger] all[j]) < nodes.len() by {
            if j < before.len() {
                assert(all[j] == before[j]);
            }
        }
    }
}

/// The position of the root is the position of a node.
pub proof fn lemma_root_in_range(nodes: Seq<NodeView>, k: int)
    requires
        k <= nodes.len() <= usize::MAX,
    ensures
        root_upto(nodes, k) is Some ==> root_upto(nodes, k)->0 < nodes.len(),
    decreases k,
{
    if k > 0 {
        lemma_root_in_range(nodes, k - 1);
    }
}

/// The lines of the node at `idx` and of everything below it.
///
/// A node that only repeats a label of the line above it gives no line: its
/// children take its place, at its depth, and inherit no labels. An
/// interesting node gives its line, and below it its children, one level
/// deeper, which inherit its labels. Any other node gives no line: its
/// children take its place, at its depth, and inherit no labels.
///
/// `fuel` is the number of levels, the one of `idx` included, that the walk
/// may still descend: a window is walked no deeper than it has nodes. That
/// is deep enough for every window whose nodes have distinct identifiers, and
/// for every window in which each node stands behind its parent.
pub open spec fn rendered_node(
    nodes: Seq<NodeView>,
    idx: int,
    depth: nat,
    inherited: Option<Set<Seq<char>>>,
    fuel: nat,
) -> Seq<Seq<char>>
    decreases fuel, 0nat,
{
    if fuel == 0 || idx < 0 || idx >= nodes.len() {
        Seq::empty()
    } else if redundant_label(nodes[idx], inherited) {
        rendered_children(nodes, children_of(nodes, nodes[idx].id), depth, None, (fuel - 1) as nat)
    } else if interesting(nodes[idx]) {
        seq![rendered_line(nodes[idx], depth)] + rendered_children(
            nodes,
            children_of(nodes, nodes[idx].id),
            depth + 1,
            Some(own_labels(nodes[idx])),
            (fuel - 1) as nat,
        )
    } else {
        rendered_children(nodes, children_of(nodes, nodes[idx].id), depth, None, (fuel - 1) as nat)
    }
}

/// The lines of the nodes at the positions `kids`, one after the other.
pub open spec fn rendered_children(
    nodes: Seq<NodeView>,
    kids: Seq<usize>,
    depth: nat,
    inherited: Option<Set<Seq<char>>>,
    fuel: nat,
) -> Seq<Seq<char>>
    decreases fuel, 1 + kids.len(),
{
    if kids.len() == 0 {
        Seq::empty()
    } else {
        rendered_children(nodes, kids.drop_last(), depth, inherited, fuel) + rendered_node(
            nodes,
            kids.last() as int,
            depth,
            inherited,
            fuel,
        )
    }
}

/// The lines of one window: those of its root and of everything below it.
pub open spec fn rendered_window(nodes: Seq<NodeView>) -> Seq<Seq<char>> {
    match root_of(nodes) {
        Some(root) => rendered_node(nodes, root as int, 0, None, nodes.len()),
        None => Seq::empty(),
    }
}

/// The lines of the first `k` windows of a tree.
pub open spec fn rendered_lines(tree: Seq<Seq<NodeView>>, k: int) -> Seq<Seq<char>>
    decreases k,
{
    if k <= 0 {
        Seq::empty()
    } else {
        rendered_lines(tree, k - 1) + rendered_window(tree[k - 1])
    }
}

/// A tree as text: the lines of its windows, each line but the last followed
/// by a line feed.
pub open spec fn rendered_text(tree: Seq<Seq<NodeView>>) -> Seq<char> {
    joined(rendered_lines(tree, tree.len() as int), "\n"@)
}

/// Whether `index` maps each identifier to the positions of the nodes, among
/// the first `k`, whose parent it is, and holds no identifier without such
/// nodes but with an empty list.
pub open spec fn indexes(index: Map<i32, Vec<usize>>, nodes: Seq<NodeView>, k: int) -> bool {
    forall|id: i32| #[trigger]
        children_upto(nodes, id, k) == (if index.contains_key(id) {
            index[id]@
        } else {
            Seq::empty()
        })
}

/// The labels that the children of the node at `parent` inherit.
pub open spec fn inherited_labels(nodes: Seq<NodeView>, parent: Option<usize>) -> Option<
    Set<Seq<char>>,
> {
    match parent {
        Some(p) => Some(own_labels(nodes[p as int])),
        None => None,
    }
}

fn render_children(
    nodes: &Vec<A11yNode>,
    kids: &Vec<usize>,
    depth: usize,
    inherited: Option<usize>,
    children_map: &HashMap<i32, Vec<usize>>,
    fuel: usize,
    lines: &mut Vec<Vec<char>>,
)
    requires
        forall|j: int| 0 <= j < kids@.len() ==> (#[trigger] kids@[j]) < nodes.len(),
        inherited is Some ==> inherited->0 < nodes.len(),
        indexes(children_map@, nodes_view(nodes@), nodes.len() as int),
        depth + fuel <= nodes.len(),
    ensures
        buffers_view(final(lines)@) == buffers_view(old(lines)@) + rendered_children(
            nodes_view(nodes@),
            kids@,
            depth as nat,
            inherited_labels(nodes_view(nodes@), inherited),
            fuel as nat,
        ),
    decreases fuel, 1 + kids.len(),
{
    let ghost nv = nodes_view(nodes@);
    let ghost labels = inherited_labels(nv, inherited);
    let mut j: usize = 0;
    assert(buffers_view(lines@) =~= buffers_view(old(lines)@) + rendered_children(
        nv,
        kids@.take(0),
        depth as nat,
        labels,
        fuel as nat,
    ));
    while j < kids.len()
        invariant
            j <= kids.len(),
            forall|j: int| 0 <= j < kids@.len() ==> (#[trigger] kids@[j]) < nodes.len(),
            inherited is Some ==> inherited->0 < nodes.len(),
            indexes(children_map@, nodes_view(nodes@), nodes.len() as int),
            depth + fuel <= nodes.len(),
            nv == nodes_view(nodes@),
            labels == inherited_labels(nv, inherited),
            buffers_view(lines@) == buffers_view(old(lines)@) + rendered_children(
                nv,
                kids@.take(j as int),
                depth as nat,
                labels,
                fuel as nat,
            ),
        decreases kids.len() - j,
    {
        assert(kids@.take(j + 1).drop_last() =~= kids@.take(j as int));
        render_node(nodes, kids[j], depth, inherited, children_map, fuel, lines);
        assert(buffers_view(lines@) =~= buffers_view(old(lines)@) + rendered_children(
            nv,
            kids@.take(j + 1),
            depth as nat,
            labels,
            fuel as nat,
        ));
        j += 1;
    }
    assert(kids@ =~= kids@.take(j as int));
}

fn render_node(
    nodes: &Vec<A11yNode>,
    idx: usize,
    depth: usize,
    inherited: Option<usize>,
    children_map: &HashMap<i32, Vec<usize>>,
    fuel: usize,
    lines: &mut Vec<Vec<char>>,
)
    requires
        idx < nodes.len(),
        inherited is Some ==> inherited->0 < nodes.len(),
        indexes(children_map@, nodes_view(nodes@), nodes.len() as int),
        depth + fuel <= nodes.len(),
    ensures
        buffers_view(final(lines)@) == buffers_view(old(lines)@) + rendered_node(
            nodes_view(nodes@),
            idx as int,
            depth as nat,
            inherited_labels(nodes_view(nodes@), inherited),
            fuel as nat,
        ),
    decreases fuel, 0nat,
{
    let ghost nv = nodes_view(nodes@);
    if fuel == 0 {
        assert(buffers_view(lines@) =~= buffers_view(old(lines)@) + Seq::<Seq<char>>::empty());
        return ;
    }
    let node = &nodes[idx];
    assert(nv[idx as int] == node@);
    let none: Vec<usize> = Vec::new();
    let kids: &Vec<usize> = match children_map.get(&node.id) {
        Some(k) => k,
        None => &none,
    };
    assert(kids@ == children_of(nv, node.id));
    proof {
        lemma_children_in_range(nv, node.id, nv.len() as int);
    }
    let only_text = node.text.is_some() && node.content_desc.is_none() && node.hint.is_none()
        && !node.clickable && !node.scrollable && !node.checkable && !node.long_clickable
        && !node.focused && !node.selected;
    let mut repeats = false;
    if only_text {
        if let (Some(text), Some(p)) = (&node.text, inherited) {
            let label = chars_of(text.as_str());
            let parent = &nodes[p];
            assert(nv[p as int] == parent@);
            repeats = is_exactly(&parent.text, &label) || is_exactly(&parent.content_desc, &label);
        }
    }
    assert(repeats == redundant_label(node@, inherited_labels(nv, inherited)));
    if repeats {
        render_children(nodes, kids, depth, None, children_map, fuel - 1, lines);
    } else if is_interesting(node) {
        let line = render_line(node, depth);
        lines.push(line);
        let ghost with_line = buffers_view(lines@);
        assert(with_line =~= buffers_view(old(lines)@) + seq![rendered_line(node@, depth as nat)]);
        render_children(nodes, kids, depth + 1, Some(idx), children_map, fuel - 1, lines);
        assert(buffers_view(lines@) =~= buffers_view(old(lines)@) + (seq![
            rendered_line(node@, depth as nat),
        ] + rendered_children(
            nv,
            kids@,
            (depth + 1) as nat,
            Some(own_labels(node@)),
            (fuel - 1) as nat,
        )));
    } else {
        render_children(nodes, kids, depth, None, children_map, fuel - 1, lines);
    }
}

/// Adds the lines of one window at the end of `lines`.
fn render_window(nodes: &Vec<A11yNode>, lines: &mut Vec<Vec<char>>)
    ensures
        buffers_view(final(lines)@) == buffers_view(old(lines)@) + rendered_window(
            nodes_view(nodes@),
        ),
{
    let ghost nv = nodes_view(nodes@);
    let mut children_map: HashMap<i32, Vec<usize>> = HashMap::new();
    let mut root_idx: Option<usize> = None;
    let mut idx: usize = 0;
    while idx < nodes.len()
        invariant
            idx <= nodes.len(),
            nv == nodes_view(nodes@),
            indexes(children_map@, nv, idx as int),
            root_idx == root_upto(nv, idx as int),
        decreases nodes.len() - idx,
    {
        let node = &nodes[idx];
        assert(nv[idx as int] == node@);
        match node.parent_id {
            Some(pid) => {
                let ghost before = children_map@;
                let mut list = match children_map.remove(&pid) {
                    Some(l) => l,
                    None => Vec::new(),
                };
                list.push(idx);
                children_map.insert(pid, list);
                assert forall|id: i32| #[trigger]
                    children_upto(nv, id, idx + 1) == (if children_map@.contains_key(id) {
                        children_map@[id]@
                    } else {
                        Seq::empty()
                    }) by {
                    let prev = children_upto(nv, id, idx as int);
                    assert(prev == (if before.contains_key(id) {
                        before[id]@
                    } else {
                        Seq::empty()
                    }));
                }
            },
            None => {
                root_idx = Some(idx);
                assert forall|id: i32| #[trigger]
                    children_upto(nv, id, idx + 1) == (if children_map@.contains_key(id) {
                        children_map@[id]@
                    } else {
                        Seq::empty()
                    }) by {
                    assert(children_upto(nv, id, idx + 1) == children_upto(nv, id, idx as int));
                }
            },
        }
        idx += 1;
    }
    match root_idx {
        Some(ri) => {
            proof {
                lemma_root_in_range(nv, nv.len() as int);
            }
            render_node(nodes, ri, 0, None, &children_map, nodes.len(), lines);
        },
        None => {
            assert(buffers_view(lines@) =~= buffers_view(old(lines)@) + Seq::<Seq<char>>::empty());
        },
    }
}

/// The tree as text, one line for each interesting node that does not merely
/// repeat a label of the line above it, indented by its nesting depth.
pub fn render_text(tree: &A11yTree) -> (out: String)
    ensures
        out@ == rendered_text(tree@),
{
    let mut lines: Vec<Vec<char>> = Vec::new();
    assert(buffers_view(lines@) =~= rendered_lines(tree@, 0));
    let mut w: usize = 0;
    while w < tree.windows.len()
        invariant
            w <= tree.windows.len(),
            buffers_view(lines@) == rendered_lines(tree@, w as int),
        decreases tree.windows.len() - w,
    {
        assert(tree@[w as int] == tree.windows@[w as int]@);
        render_window(&tree.windows[w].nodes, &mut lines);
        w += 1;
    }
    let feed = chars_of("\n");
    let mut buf: Vec<char> = Vec::new();
    append_joined(&mut buf, &lines, &feed);
    assert(buf@ =~= rendered_text(tree@));
    string_of(&buf)
}

// ---------------------------------------------------------------------------
// Laws of rendering
// ---------------------------------------------------------------------------

/// Rendering depends on the snapshot alone: two trees that hold the same
/// windows, nodes and strings give the same text, character for character.
pub proof fn lemma_render_depends_on_snapshot_only(a: A11yTree, b: A11yTree)
    requires
        a@ == b@,
    ensures
        rendered_text(a@) == rendered_text(b@),
{
}

/// A node that carries a text and nothing else, where that text is among the
/// labels handed down to it, gives no line of its own: what it contributes is
/// what its children contribute at the same depth, with no labels handed
/// down, and nothing where the walk may descend no further.
pub proof fn lemma_redundant_label_collapses(
    nodes: Seq<NodeView>,
    idx: int,
    depth: nat,
    labels: Set<Seq<char>>,
    fuel: nat,
)
    requires
        0 <= idx < nodes.len(),
        label_only(nodes[idx]),
        labels.contains(nodes[idx].text->0),
    ensures
        rendered_node(nodes, idx, depth, Some(labels), fuel) == (if fuel == 0 {
            Seq::<Seq<char>>::empty()
        } else {
            rendered_children(
                nodes,
                children_of(nodes, nodes[idx].id),
                depth,
                None,
                (fuel - 1) as nat,
            )
        }),
{
}

/// Below an interesting node, a child that carries nothing but a text equal to
/// the parent's text or content description gives no line of its own: the
/// parent's line is followed directly by what the child's children contribute,
/// one level below the parent.
pub proof fn lemma_label_repeated_below_parent(
    nodes: Seq<NodeView>,
    parent: int,
    child: int,
    depth: nat,
    fuel: nat,
)
    requires
        0 <= parent < nodes.len(),
        0 <= child < nodes.len() <= usize::MAX,
        fuel > 1,
        interesting(nodes[parent]),
        children_of(nodes, nodes[parent].id) == seq![child as usize],
        label_only(nodes[child]),
        has_label(nodes[parent], nodes[child].text->0),
    ensures
        rendered_node(nodes, parent, depth, None, fuel) == seq![
            rendered_line(nodes[parent], depth),
        ] + rendered_children(
            nodes,
            children_of(nodes, nodes[child].id),
            depth + 1,
            None,
            (fuel - 2) as nat,
        ),
{
    let kids = children_of(nodes, nodes[parent].id);
    let labels = own_labels(nodes[parent]);
    assert(kids.drop_last() =~= Seq::<usize>::empty());
    assert(rendered_children(nodes, kids.drop_last(), depth + 1, Some(labels), (fuel - 1) as nat)
        =~= Seq::<Seq<char>>::empty());
    assert(rendered_children(nodes, kids, depth + 1, Some(labels), (fuel - 1) as nat)
        =~= rendered_node(nodes, child, depth + 1, Some(labels), (fuel - 1) as nat));
    lemma_redundant_label_collapses(nodes, child, depth + 1, labels, (fuel - 1) as nat);
}

/// Whether every node of a window stands behind its parent in the dump.
pub open spec fn parents_come_first(nodes: Seq<NodeView>) -> bool {
    forall|i: int, j: int|
        0 <= i < nodes.len() && 0 <= j < nodes.len() && (#[trigger] nodes[j]).parent_id == Some(
            (#[trigger] nodes[i]).id,
        ) ==> i < j
}

/// Every child position is the position of a node whose parent is `id`.
pub proof fn lemma_children_have_the_parent(nodes: Seq<NodeView>, id: i32, k: int)
    requires
        k <= nodes.len() <= usize::MAX,
    ensures
        forall|j: int|
            0 <= j < children_upto(nodes, id, k).len() ==> nodes[(#[trigger] children_upto(
                nodes,
                id,
                k,
            )[j]) as int].parent_id == Some(id),
    decreases k,
{
    if k > 0 {
        lemma_children_have_the_parent(nodes, id, k - 1);
        lemma_children_in_range(nodes, id, k - 1);
        let all = children_upto(nodes, id, k);
        let before = children_upto(nodes, id, k - 1);
        assert forall|j: int| 0 <= j < all.len() implies nodes[(#[trigger] all[j]) as int].parent_id
            == Some(id) by {
            if j < before.len() {
                assert(all[j] == before[j]);
            }
        }
    }
}

/// In a window where every node stands behind its parent, the walk never runs
/// out of depth: with as much fuel as there are nodes from `idx` on, more fuel
/// gives the same lines.
pub proof fn lemma_fuel_is_enough(
    nodes: Seq<NodeView>,
    idx: int,
    depth: nat,
    inherited: Option<Set<Seq<char>>>,
    fuel: nat,
    more: nat,
)
    requires
        parents_come_first(nodes),
        0 <= idx < nodes.len() <= usize::MAX,
        nodes.len() - idx <= fuel <= more,
    ensures
        rendered_node(nodes, idx, depth, inherited, fuel) == rendered_node(
            nodes,
            idx,
            depth,
            inherited,
            more,
        ),
    decreases nodes.len() - idx, 2 + children_of(nodes, nodes[idx].id).len(),
{
    let kids = children_of(nodes, nodes[idx].id);
    lemma_children_in_range(nodes, nodes[idx].id, nodes.len() as int);
    lemma_children_have_the_parent(nodes, nodes[idx].id, nodes.len() as int);
    assert forall|j: int| 0 <= j < kids.len() implies idx < (#[trigger] kids[j]) < nodes.len() by {
        assert(nodes[kids[j] as int].parent_id == Some(nodes[idx].id));
    }
    let below = (fuel - 1) as nat;
    let below_more = (more - 1) as nat;
    if redundant_label(nodes[idx], inherited) || !interesting(nodes[idx]) {
        lemma_fuel_is_enough_below(nodes, idx, kids, depth, None, below, below_more);
    } else {
        lemma_fuel_is_enough_below(
            nodes,
            idx,
            kids,
            depth + 1,
            Some(own_labels(nodes[idx])),
            below,
            below_more,
        );
    }
}

proof fn lemma_fuel_is_enough_below(
    nodes: Seq<NodeView>,
    parent: int,
    kids: Seq<usize>,
    depth: nat,
    inherited: Option<Set<Seq<char>>>,
    fuel: nat,
    more: nat,
)
    requires
        parents_come_first(nodes),
        0 <= parent < nodes.len() <= usize::MAX,
        forall|j: int| 0 <= j < kids.len() ==> parent < (#[trigger] kids[j]) < nodes.len(),
        nodes.len() - parent - 1 <= fuel <= more,
    ensures
        rendered_children(nodes, kids, depth, inherited, fuel) == rendered_children(
            nodes,
            kids,
            depth,
            inherited,
            more,
        ),
    decreases nodes.len() - parent, 1 + kids.len(),
{
    if kids.len() > 0 {
        let last = kids.last() as int;
        assert(parent < kids[kids.len() - 1] < nodes.len());
        assert forall|j: int| 0 <= j < kids.drop_last().len() implies parent < (
        #[trigger] kids.drop_last()[j]) < nodes.len() by {
            assert(kids.drop_last()[j] == kids[j]);
        }
        lemma_fuel_is_enough_below(nodes, parent, kids.drop_last(), depth, inherited, fuel, more);
        lemma_fuel_is_enough(nodes, last, depth, inherited, fuel, more);
    }
}

/// In a window where every node stands behind its parent, the lines of the
/// window are those of the walk from its root with any fuel from the number of
/// nodes on.
pub proof fn lemma_window_is_walked_to_the_end(nodes: Seq<NodeView>, more: nat)
    requires
        parents_come_first(nodes),
        nodes.len() <= usize::MAX,
        more >= nodes.len(),
    ensures
        rendered_window(nodes) == (match root_of(nodes) {
            Some(root) => rendered_node(nodes, root as int, 0, None, more),
            None => Seq::empty(),
        }),
{
    lemma_root_in_range(nodes, nodes.len() as int);
    if root_of(nodes) is Some {
        lemma_fuel_is_enough(nodes, root_of(nodes)->0 as int, 0, None, nodes.len(), more);
    }
}

/// Whether no two nodes of a window have the same identifier.
pub open spec fn distinct_ids(nodes: Seq<NodeView>) -> bool {
    forall|i: int, j: int|
        0 <= i < j < nodes.len() ==> (#[trigger] nodes[i]).id != (#[trigger] nodes[j]).id
}

/// Whether `path` leads from a node without a parent down to its last entry,
/// each entry being a child of the one before it.
pub open spec fn is_descent(nodes: Seq<NodeView>, path: Seq<int>) -> bool {
    &&& path.len() > 0
    &&& forall|i: int| 0 <= i < path.len() ==> 0 <= #[trigger] path[i] < nodes.len()
    &&& nodes[path[0]].parent_id is None
    &&& forall|i: int|
        0 < i < path.len() ==> nodes[#[trigger] path[i]].parent_id == Some(nodes[path[i - 1]].id)
}

/// A path that visits no node twice is no longer than the window has nodes.
pub proof fn lemma_descent_is_short(nodes: Seq<NodeView>, path: Seq<int>)
    requires
        is_descent(nodes, path),
        path.no_duplicates(),
    ensures
        path.len() <= nodes.len(),
{
    path.unique_seq_to_set();
    vstd::set_lib::lemma_int_range(0, nodes.len() as int);
    assert(path.to_set().subset_of(vstd::set_lib::set_int_range(0, nodes.len() as int))) by {
        assert forall|x: int| path.to_set().contains(x) implies vstd::set_lib::set_int_range(
            0,
            nodes.len() as int,
        ).contains(x) by {
            let i = choose|i: int| 0 <= i < path.len() && path[i] == x;
            assert(0 <= path[i] < nodes.len());
        }
    }
    vstd::set_lib::lemma_len_subset(
        path.to_set(),
        vstd::set_lib::set_int_range(0, nodes.len() as int),
    );
}

/// Where identifiers are distinct, a path that is led on to a child of its
/// last entry still visits no node twice.
pub proof fn lemma_descent_goes_on(nodes: Seq<NodeView>, path: Seq<int>, child: int)
    requires
        distinct_ids(nodes),
        is_descent(nodes, path),
        path.no_duplicates(),
        0 <= child < nodes.len(),
        nodes[child].parent_id == Some(nodes[path.last()].id),
    ensures
        is_descent(nodes, path.push(child)),
        path.push(child).no_duplicates(),
{
    let longer = path.push(child);
    let end = path.len() - 1;
    assert forall|i: int| 0 <= i < path.len() implies path[i] != child by {
        if path[i] == child {
            if i == 0 {
                assert(nodes[path[0]].parent_id is None);
            } else {
                assert(nodes[path[i]].parent_id == Some(nodes[path[i - 1]].id));
                let a = path[i - 1];
                let b = path[end];
                assert(nodes[a].id == nodes[b].id);
                assert(0 <= a < nodes.len() && 0 <= b < nodes.len());
                if a < b {
                    assert(nodes[a].id != nodes[b].id);
                } else if b < a {
                    assert(nodes[b].id != nodes[a].id);
                }
                assert(path[i - 1] == path[end]);
            }
        }
    }
    assert forall|i: int, j: int| 0 <= i < longer.len() && 0 <= j < longer.len() && i
        != j implies longer[i] != longer[j] by {
        if i < path.len() && j < path.len() {
            assert(path[i] != path[j]);
        }
    }
    assert forall|i: int| 0 < i < longer.len() implies nodes[#[trigger] longer[i]].parent_id
        == Some(nodes[longer[i - 1]].id) by {
        if i < path.len() {
            assert(longer[i] == path[i] && longer[i - 1] == path[i - 1]);
        }
    }
    assert forall|i: int| 0 <= i < longer.len() implies 0 <= #[trigger] longer[i]
        < nodes.len() by {
        if i < path.len() {
            assert(longer[i] == path[i]);
        }
    }
}

/// In a window whose nodes have distinct identifiers, the walk from the root
/// never runs out of depth: at the end of a path from a node without a
/// parent, with as much fuel as there are nodes that the path has not visited
/// before, more fuel gives the same lines.
pub proof fn lemma_fuel_is_enough_for_distinct_ids(
    nodes: Seq<NodeView>,
    path: Seq<int>,
    depth: nat,
    inherited: Option<Set<Seq<char>>>,
    fuel: nat,
    more: nat,
)
    requires
        distinct_ids(nodes),
        nodes.len() <= usize::MAX,
        is_descent(nodes, path),
        path.no_duplicates(),
        nodes.len() + 1 - path.len() <= fuel <= more,
    ensures
        rendered_node(nodes, path.last(), depth, inherited, fuel) == rendered_node(
            nodes,
            path.last(),
            depth,
            inherited,
            more,
        ),
    decreases nodes.len() - path.len(), 2 + children_of(nodes, nodes[path.last()].id).len(),
{
    lemma_descent_is_short(nodes, path);
    let idx = path.last();
    assert(0 <= path[path.len() - 1] < nodes.len());
    let kids = children_of(nodes, nodes[idx].id);
    lemma_children_in_range(nodes, nodes[idx].id, nodes.len() as int);
    lemma_children_have_the_parent(nodes, nodes[idx].id, nodes.len() as int);
    let below = (fuel - 1) as nat;
    let below_more = (more - 1) as nat;
    if redundant_label(nodes[idx], inherited) || !interesting(nodes[idx]) {
        lemma_distinct_ids_below(nodes, path, kids, depth, None, below, below_more);
    } else {
        lemma_distinct_ids_below(
            nodes,
            path,
            kids,
            depth + 1,
            Some(own_labels(nodes[idx])),
            below,
            below_more,
        );
    }
}

proof fn lemma_distinct_ids_below(
    nodes: Seq<NodeView>,
    path: Seq<int>,
    kids: Seq<usize>,
    depth: nat,
    inherited: Option<Set<Seq<char>>>,
    fuel: nat,
    more: nat,
)
    requires
        distinct_ids(nodes),
        nodes.len() <= usize::MAX,
        is_descent(nodes, path),
        path.no_duplicates(),
        forall|j: int|
            0 <= j < kids.len() ==> (#[trigger] kids[j]) < nodes.len() && nodes[kids[j] as int].parent_id
                == Some(nodes[path.last()].id),
        nodes.len() - path.len() <= fuel <= more,
    ensures
        rendered_children(nodes, kids, depth, inherited, fuel) == rendered_children(
            nodes,
            kids,
            depth,
            inherited,
            more,
        ),
    decreases nodes.len() - path.len(), 1 + kids.len(),
{
    if kids.len() > 0 {
        let last = kids.last() as int;
        assert(kids[kids.len() - 1] < nodes.len());
        assert forall|j: int| 0 <= j < kids.drop_last().len() implies (#[trigger] kids.drop_last()[j])
            < nodes.len() && nodes[kids.drop_last()[j] as int].parent_id == Some(
            nodes[path.last()].id,
        ) by {
            assert(kids.drop_last()[j] == kids[j]);
        }
        lemma_distinct_ids_below(nodes, path, kids.drop_last(), depth, inherited, fuel, more);
        lemma_descent_goes_on(nodes, path, last);
        let longer = path.push(last);
        lemma_descent_is_short(nodes, longer);
        assert(longer.last() == last);
        lemma_fuel_is_enough_for_distinct_ids(nodes, longer, depth, inherited, fuel, more);
    }
}

/// In a window whose nodes have distinct identifiers, the lines of the window
/// are those of the walk from its root with any fuel from the number of nodes
/// on.
pub proof fn lemma_distinct_ids_are_walked_to_the_end(nodes: Seq<NodeView>, more: nat)
    requires
        distinct_ids(nodes),
        nodes.len() <= usize::MAX,
        more >= nodes.len(),
    ensures
        rendered_window(nodes) == (match root_of(nodes) {
            Some(root) => rendered_node(nodes, root as int, 0, None, more),
            None => Seq::empty(),
        }),
{
    lemma_root_in_range(nodes, nodes.len() as int);
    lemma_root_has_no_parent(nodes, nodes.len() as int);
    if root_of(nodes) is Some {
        let root = root_of(nodes)->0 as int;
        let path = seq![root];
        assert(path[0] == root);
        assert(is_descent(nodes, path));
        assert(path.no_duplicates());
        lemma_fuel_is_enough_for_distinct_ids(nodes, path, 0, None, nodes.len(), more);
    }
}

/// The root of a window has no parent.
pub proof fn lemma_root_has_no_parent(nodes: Seq<NodeView>, k: int)
    requires
        k <= nodes.len() <= usize::MAX,
    ensures
        root_upto(nodes, k) is Some ==> nodes[root_upto(nodes, k)->0 as int].parent_id is None,
    decreases k,
{
    if k > 0 {
        lemma_root_has_no_parent(nodes, k - 1);
    }
}

/// The fuel that the walk of a window has left when it arrives at the end of
/// `path`: as much as the window has nodes at the root, one less at each
/// level below it.
pub open spec fn fuel_at(nodes: Seq<NodeView>, path: Seq<int>) -> nat {
    (nodes.len() + 1 - path.len()) as nat
}

/// In a window whose nodes have distinct identifiers, wherever the walk
/// arrives at a node that carries a text and nothing else, and that text is
/// among the labels handed down to it, the node gives no line of its own: its
/// children take its place, in the order of the dump, at the depth that the
/// node would have had, with no labels handed down. The walk has fuel left
/// there, and with any more fuel the children give the same lines.
pub proof fn lemma_label_collapses_where_the_walk_arrives(
    nodes: Seq<NodeView>,
    path: Seq<int>,
    depth: nat,
    labels: Set<Seq<char>>,
    more: nat,
)
    requires
        distinct_ids(nodes),
        nodes.len() <= usize::MAX,
        is_descent(nodes, path),
        path.no_duplicates(),
        label_only(nodes[path.last()]),
        labels.contains(nodes[path.last()].text->0),
        more >= fuel_at(nodes, path),
    ensures
        fuel_at(nodes, path) > 0,
        rendered_node(nodes, path.last(), depth, Some(labels), fuel_at(nodes, path))
            == rendered_children(
            nodes,
            children_of(nodes, nodes[path.last()].id),
            depth,
            None,
            (more - 1) as nat,
        ),
{
    lemma_descent_is_short(nodes, path);
    let idx = path.last();
    assert(0 <= path[path.len() - 1] < nodes.len());
    lemma_fuel_is_enough_for_distinct_ids(
        nodes,
        path,
        depth,
        Some(labels),
        fuel_at(nodes, path),
        more,
    );
    lemma_redundant_label_collapses(nodes, idx, depth, labels, more);
}

} // verus!
