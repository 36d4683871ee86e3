//! Browsing one of the "what" step's included folders by size, to mark
//! subfolders excluded without leaving the wizard: sizes on every row, and
//! a clear mark for whether a folder is going in whole, left out, or
//! partly one and partly the other.
//!
//! Rooted at a chosen source, not anywhere on disk: excluding is the only
//! thing this does (see [`Mark`]), and excluding only means something
//! relative to a folder that is already included. Folders are known by
//! their path, compared the way `Path` compares: component by component.

use vstd::prelude::*;
use crate::engine::DiskEntry;
use crate::path::{components, path_starts_with, same_path, same_path_chars, starts_with_path};
use crate::profile::texts;
use crate::text::chars_of;

verus! {

/// What reaches the browser.
#[derive(Debug)]
pub enum Message {
    /// Open the browser, rooted at this already-included source.
    Open(String),
    Close,
    /// Expand or collapse a folder row.
    Toggle(String),
    /// `path`'s listing is still going; `scanned` is how many entries have
    /// been sized so far.
    Progress(String, usize),
    /// `path`'s children, sized and sorted largest first.
    Listed(String, Vec<DiskEntry>),
    Failed(String, String),
    /// Mark `path` excluded (`true`) or included (`false`).
    Mark(String, bool),
}

/// What the browser needs the application to do.
#[derive(Debug, PartialEq, Eq)]
pub enum Effect {
    /// List `path`'s immediate children with their sizes.
    List(String),
    /// The user asked to exclude or re-include `path`; the wizard's own
    /// list of exclusions is not this module's to hold, so the change
    /// bubbles up rather than being applied here.
    SetExcluded(String, bool),
}

/// A folder or file in the tree.
#[derive(Debug)]
pub struct Node {
    pub is_dir: bool,
    pub size: Option<u64>,
    /// The child paths in order, once listed.
    pub children: Option<Vec<String>>,
    pub loading: bool,
    pub scanned: usize,
    pub failed: Option<String>,
}

/// A node, as plain values.
pub struct NodeView {
    pub is_dir: bool,
    pub size: Option<u64>,
    pub children: Option<Seq<Seq<char>>>,
    pub loading: bool,
    pub scanned: usize,
    pub failed: Option<Seq<char>>,
}

impl View for Node {
    type V = NodeView;

    open spec fn view(&self) -> NodeView {
        NodeView {
            is_dir: self.is_dir,
            size: self.size,
            children: match self.children {
                Some(c) => Some(texts(c@)),
                None => None,
            },
            loading: self.loading,
            scanned: self.scanned,
            failed: match self.failed {
                Some(f) => Some(f@),
                None => None,
            },
        }
    }
}

impl Node {
    /// A copy of this node.
    pub fn duplicate(&self) -> (r: Node)
        ensures
            r@ == self@,
    {
        Node {
            is_dir: self.is_dir,
            size: self.size,
            children: match &self.children {
                Some(c) => Some(crate::profile::copy_texts(c)),
                None => None,
            },
            loading: self.loading,
            scanned: self.scanned,
            failed: match &self.failed {
                Some(f) => Some(f.clone()),
                None => None,
            },
        }
    }
}

/// Whether a folder is going into the backup, being left out, or a mix.
#[derive(Debug, Clone, Copy, PartialEq, Eq, Structural)]
pub enum Mark {
    Included,
    Excluded,
    /// Included overall, but something inside it is excluded.
    Partial,
}

/// The browser: the source it is rooted at while open, and each folder or
/// file seen so far under its path.
#[derive(Debug)]
pub struct Browse {
    pub root: Option<String>,
    pub nodes: Vec<(String, Node)>,
}

/// The entry `i` of `nodes` is for the path whose components are `key`.
pub open spec fn keyed(nodes: Seq<(String, Node)>, key: Seq<Seq<char>>, i: int) -> bool {
    0 <= i < nodes.len() && components(nodes[i].0@) == key
}

/// No two entries of `nodes` are for the same path.
pub open spec fn unique(nodes: Seq<(String, Node)>) -> bool {
    forall|i: int, j: int|
        0 <= i < nodes.len() && 0 <= j < nodes.len() && i != j ==> components(nodes[i].0@) != components(
            nodes[j].0@,
        )
}

/// The nodes, by the components of their paths.
pub open spec fn tree_of(nodes: Seq<(String, Node)>) -> Map<Seq<Seq<char>>, NodeView> {
    Map::new(
        |key: Seq<Seq<char>>| exists|i: int| keyed(nodes, key, i),
        |key: Seq<Seq<char>>| nodes[choose|i: int| keyed(nodes, key, i)].1@,
    )
}

/// A node of `nodes` is what the tree holds for its path.
proof fn lemma_tree_at(nodes: Seq<(String, Node)>, i: int)
    requires
        unique(nodes),
        0 <= i < nodes.len(),
    ensures
        tree_of(nodes).contains_key(components(nodes[i].0@)),
        tree_of(nodes)[components(nodes[i].0@)] == nodes[i].1@,
{
    let key = components(nodes[i].0@);
    assert(keyed(nodes, key, i));
    let j = choose|j: int| keyed(nodes, key, j);
    assert(j == i);
}

/// Adding to a sum kept modulo 2^64 keeps it modulo 2^64.
proof fn lemma_wrapping_sum(total: int, size: int, sum: int)
    requires
        0 <= total < 0x1_0000_0000_0000_0000,
        0 <= size < 0x1_0000_0000_0000_0000,
        sum >= 0,
        total == sum % 0x1_0000_0000_0000_0000,
    ensures
        (if total + size < 0x1_0000_0000_0000_0000 { total + size } else { total + size - 0x1_0000_0000_0000_0000 })
            == (sum + size) % 0x1_0000_0000_0000_0000,
{
    vstd::arithmetic::div_mod::lemma_add_mod_noop(sum, size, 0x1_0000_0000_0000_0000);
    vstd::arithmetic::div_mod::lemma_small_mod(size as nat, 0x1_0000_0000_0000_0000);
    if total + size < 0x1_0000_0000_0000_0000 {
        vstd::arithmetic::div_mod::lemma_small_mod((total + size) as nat, 0x1_0000_0000_0000_0000);
    } else {
        vstd::arithmetic::div_mod::lemma_mod_sub_multiples_vanish(total + size, 0x1_0000_0000_0000_0000);
        vstd::arithmetic::div_mod::lemma_small_mod((total + size - 0x1_0000_0000_0000_0000) as nat, 0x1_0000_0000_0000_0000);
    }
}

impl Browse {
    /// The nodes, by the components of their paths.
    pub open spec fn tree(&self) -> Map<Seq<Seq<char>>, NodeView> {
        tree_of(self.nodes@)
    }

    /// A browser that is not open and has seen nothing.
    pub fn new() -> (r: Browse)
        ensures
            r.root is None,
            r.nodes@.len() == 0,
    {
        Browse { root: None, nodes: Vec::new() }
    }

    /// Whether the browser is open.
    pub fn is_open(&self) -> (r: bool)
        ensures
            r == self.root is Some,
    {
        self.root.is_some()
    }

    /// The source the browser is rooted at, while it is open.
    pub fn root(&self) -> (r: Option<&str>)
        ensures
            match r {
                Some(p) => self.root matches Some(q) && p@ == q@,
                None => self.root is None,
            },
    {
        match &self.root {
            Some(p) => Some(p.as_str()),
            None => None,
        }
    }

    /// The entry for `path`, if there is one.
    fn find(&self, path: &str) -> (r: Option<usize>)
        ensures
            match r {
                Some(i) => keyed(self.nodes@, components(path@), i as int),
                None => forall|i: int| !keyed(self.nodes@, components(path@), i),
            },
    {
        let p = chars_of(path);
        let mut i: usize = 0;
        while i < self.nodes.len()
            invariant
                i <= self.nodes@.len(),
                p@ == path@,
                forall|j: int| 0 <= j < i ==> !keyed(self.nodes@, components(path@), j),
            decreases self.nodes@.len() - i,
        {
            let q = chars_of(self.nodes[i].0.as_str());
            if same_path_chars(q.as_slice(), p.as_slice()) {
                return Some(i);
            }
            i = i + 1;
        }
        None
    }

    /// Sets the node for `path`, replacing the one already there.
    fn put(&mut self, path: String, node: Node)
        requires
            unique(old(self).nodes@),
        ensures
            unique(final(self).nodes@),
            final(self).tree() == old(self).tree().insert(components(path@), node@),
            final(self).root == old(self).root,
    {
        let ghost key = components(path@);
        let ghost before = self.nodes@;
        match self.find(path.as_str()) {
            Some(i) => {
                let kept = self.nodes[i].0.clone();
                self.nodes.set(i, (kept, node));
                proof {
                    let after = self.nodes@;
                    assert forall|a: int, b: int|
                        0 <= a < after.len() && 0 <= b < after.len() && a != b implies components(
                            after[a].0@,
                        ) != components(after[b].0@) by {
                        assert(components(after[a].0@) == components(before[a].0@));
                        assert(components(after[b].0@) == components(before[b].0@));
                    }
                    assert forall|k: Seq<Seq<char>>|
                        #![trigger tree_of(after).contains_key(k)]
                        tree_of(after).contains_key(k) == tree_of(before).insert(key, node@).contains_key(
                            k,
                        ) by {
                        if tree_of(before).insert(key, node@).contains_key(k) && k != key {
                            let j = choose|j: int| keyed(before, k, j);
                            assert(keyed(after, k, j));
                        }
                        if tree_of(after).contains_key(k) {
                            let j = choose|j: int| keyed(after, k, j);
                            assert(keyed(before, k, j));
                        }
                        if k == key {
                            assert(keyed(after, k, i as int));
                        }
                    }
                    assert forall|k: Seq<Seq<char>>|
                        #![trigger tree_of(after)[k]]
                        tree_of(after).contains_key(k) implies tree_of(after)[k] == tree_of(
                            before,
                        ).insert(key, node@)[k] by {
                        let j = choose|j: int| keyed(after, k, j);
                        lemma_tree_at(after, j);
                        if j != i {
                            lemma_tree_at(before, j);
                        }
                    }
                    assert(tree_of(after) =~= tree_of(before).insert(key, node@));
                }
            },
            None => {
                self.nodes.push((path, node));
                proof {
                    let after = self.nodes@;
                    let n = before.len() as int;
                    assert forall|a: int, b: int|
                        0 <= a < after.len() && 0 <= b < after.len() && a != b implies components(
                            after[a].0@,
                        ) != components(after[b].0@) by {
                        if a == n {
                            assert(!keyed(before, key, b));
                        } else if b == n {
                            assert(!keyed(before, key, a));
                        }
                    }
                    assert forall|k: Seq<Seq<char>>|
                        #![trigger tree_of(after).contains_key(k)]
                        tree_of(after).contains_key(k) == tree_of(before).insert(key, node@).contains_key(
                            k,
                        ) by {
                        if tree_of(before).insert(key, node@).contains_key(k) && k != key {
                            let j = choose|j: int| keyed(before, k, j);
                            assert(keyed(after, k, j));
                        }
                        if tree_of(after).contains_key(k) && k != key {
                            let j = choose|j: int| keyed(after, k, j);
                            assert(keyed(before, k, j));
                        }
                        if k == key {
                            assert(keyed(after, k, n));
                        }
                    }
                    assert forall|k: Seq<Seq<char>>|
                        #![trigger tree_of(after)[k]]
                        tree_of(after).contains_key(k) implies tree_of(after)[k] == tree_of(
                            before,
                        ).insert(key, node@)[k] by {
                        let j = choose|j: int| keyed(after, k, j);
                        lemma_tree_at(after, j);
                        if j != n {
                            lemma_tree_at(before, j);
                        }
                    }
                    assert(tree_of(after) =~= tree_of(before).insert(key, node@));
                }
            },
        }
    }
}

/// A folder as it is when the browser opens at it: being listed.
pub open spec fn opened_node() -> NodeView {
    NodeView { is_dir: true, size: None, children: None, loading: true, scanned: 0, failed: None }
}

/// What a listing tells of an entry: whether it is a folder, and its size.
pub open spec fn entry_node(e: DiskEntry) -> NodeView {
    NodeView { is_dir: e.is_dir, size: Some(e.size), children: None, loading: false, scanned: 0, failed: None }
}

/// `t` with each of `entries` set, in order.
pub open spec fn with_entries(t: Map<Seq<Seq<char>>, NodeView>, entries: Seq<DiskEntry>) -> Map<
    Seq<Seq<char>>,
    NodeView,
>
    decreases entries.len(),
{
    if entries.len() == 0 {
        t
    } else {
        with_entries(t, entries.drop_last()).insert(
            components(entries.last().path@),
            entry_node(entries.last()),
        )
    }
}

/// `t` with the node at `key` changed to `n`, if it has one there.
pub open spec fn changed(
    t: Map<Seq<Seq<char>>, NodeView>,
    key: Seq<Seq<char>>,
    n: NodeView,
) -> Map<Seq<Seq<char>>, NodeView> {
    if t.contains_key(key) {
        t.insert(key, n)
    } else {
        t
    }
}

/// `after` and `effects` are what `message` makes of `before`.
pub open spec fn browsed(before: Browse, message: Message, after: Browse, effects: Seq<Effect>) -> bool {
    let t = before.tree();
    match message {
        Message::Open(root) => {
            &&& after.root == Some(root)
            &&& after.tree() == Map::<Seq<Seq<char>>, NodeView>::empty().insert(components(root@), opened_node())
            &&& effects.len() == 1 && effects[0] == Effect::List(root)
        },
        Message::Close => after.root is None && after.tree() == t && effects.len() == 0,
        Message::Toggle(path) => {
            let key = components(path@);
            let n = t[key];
            &&& after.root == before.root
            &&& if !t.contains_key(key) || (n.children is None && n.loading) {
                after.tree() == t && effects.len() == 0
            } else if n.children is Some {
                after.tree() == t.insert(key, NodeView { children: None, ..n }) && effects.len() == 0
            } else {
                &&& after.tree() == t.insert(key, NodeView { loading: true, failed: None, ..n })
                &&& effects.len() == 1 && effects[0] == Effect::List(path)
            }
        },
        Message::Progress(path, scanned) => {
            let key = components(path@);
            &&& after.root == before.root
            &&& after.tree() == changed(t, key, NodeView { scanned, ..t[key] })
            &&& effects.len() == 0
        },
        Message::Listed(path, entries) => {
            let key = components(path@);
            let listed = with_entries(t, entries@);
            let order = entries@.map_values(|e: DiskEntry| e.path@);
            &&& after.root == before.root
            &&& after.tree() == changed(
                listed,
                key,
                NodeView { loading: false, children: Some(order), ..listed[key] },
            )
            &&& effects.len() == 0
        },
        Message::Failed(path, detail) => {
            let key = components(path@);
            &&& after.root == before.root
            &&& after.tree() == changed(t, key, NodeView { loading: false, failed: Some(detail@), ..t[key] })
            &&& effects.len() == 0
        },
        Message::Mark(path, excluded) => {
            &&& after.root == before.root
            &&& after.tree() == t
            &&& effects.len() == 1 && effects[0] == Effect::SetExcluded(path, excluded)
        },
    }
}

/// How many bytes under `path` the exclusions in `excludes` take out, by
/// the sizes known in `t`.
pub open spec fn excluded_sum(
    t: Map<Seq<Seq<char>>, NodeView>,
    path: Seq<char>,
    excludes: Seq<Seq<char>>,
) -> nat
    decreases excludes.len(),
{
    if excludes.len() == 0 {
        0
    } else {
        let e = excludes.last();
        let key = components(e);
        excluded_sum(t, path, excludes.drop_last()) + if path_starts_with(e, path) && t.contains_key(key)
            && t[key].size is Some {
            t[key].size.unwrap() as nat
        } else {
            0nat
        }
    }
}

/// Whether `path` is wholly left out, partly, or not at all, given the
/// wizard's own exclusions: excluded when it is one of them, partial when
/// one lies inside it, included otherwise.
pub open spec fn mark(path: Seq<char>, excludes: Seq<Seq<char>>) -> Mark {
    if exists|i: int| 0 <= i < excludes.len() && same_path(path, #[trigger] excludes[i]) {
        Mark::Excluded
    } else if exists|i: int|
        0 <= i < excludes.len() && path_starts_with(#[trigger] excludes[i], path) && !same_path(
            excludes[i],
            path,
        ) {
        Mark::Partial
    } else {
        Mark::Included
    }
}

/// Whether `path` is fully included, fully excluded, or a mix, given the
/// wizard's own `excludes`. A path is only ever "included" here in the
/// sense of "not excluded": whether it is under a source at all is up to
/// the caller.
pub fn mark_of(path: &str, excludes: &[String]) -> (r: Mark)
    ensures
        r == mark(path@, texts(excludes@)),
{
    let p = chars_of(path);
    let mut i: usize = 0;
    while i < excludes.len()
        invariant
            i <= excludes@.len(),
            p@ == path@,
            forall|j: int| 0 <= j < i ==> !same_path(path@, #[trigger] texts(excludes@)[j]),
        decreases excludes@.len() - i,
    {
        let e = chars_of(excludes[i].as_str());
        if same_path_chars(p.as_slice(), e.as_slice()) {
            assert(texts(excludes@)[i as int] == excludes@[i as int]@);
            return Mark::Excluded;
        }
        i = i + 1;
    }
    let mut k: usize = 0;
    while k < excludes.len()
        invariant
            k <= excludes@.len(),
            p@ == path@,
            forall|j: int| 0 <= j < excludes@.len() ==> !same_path(path@, #[trigger] texts(excludes@)[j]),
            forall|j: int|
                0 <= j < k ==> !(path_starts_with(#[trigger] texts(excludes@)[j], path@) && !same_path(
                    texts(excludes@)[j],
                    path@,
                )),
        decreases excludes@.len() - k,
    {
        let e = chars_of(excludes[k].as_str());
        assert(texts(excludes@)[k as int] == excludes@[k as int]@);
        if starts_with_path(e.as_slice(), p.as_slice()) && !same_path_chars(e.as_slice(), p.as_slice()) {
            return Mark::Partial;
        }
        k = k + 1;
    }
    Mark::Included
}

impl Browse {
    /// The node for `path`, if one has been seen.
    pub fn node(&self, path: &str) -> (r: Option<&Node>)
        requires
            unique(self.nodes@),
        ensures
            match r {
                Some(n) => self.tree().contains_key(components(path@)) && self.tree()[components(path@)]
                    == n@,
                None => !self.tree().contains_key(components(path@)),
            },
    {
        match self.find(path) {
            Some(i) => {
                proof {
                    lemma_tree_at(self.nodes@, i as int);
                }
                Some(&self.nodes[i].1)
            },
            None => None,
        }
    }

    /// How many bytes under `path` are excluded, by what has been sized
    /// so far: what to subtract from a folder's size on disk to show what
    /// the backup would store. It undercounts an exclusion never sized
    /// this session rather than guess; the sum wraps past the largest `u64`.
    pub fn excluded_bytes(&self, path: &str, excludes: &[String]) -> (r: u64)
        requires
            unique(self.nodes@),
        ensures
            r == excluded_sum(self.tree(), path@, texts(excludes@)) % 0x1_0000_0000_0000_0000,
    {
        let p = chars_of(path);
        let mut total: u64 = 0;
        let mut i: usize = 0;
        while i < excludes.len()
            invariant
                i <= excludes@.len(),
                p@ == path@,
                unique(self.nodes@),
                total == excluded_sum(self.tree(), path@, texts(excludes@.subrange(0, i as int)))
                    % 0x1_0000_0000_0000_0000,
            decreases excludes@.len() - i,
        {
            let ghost e = excludes@[i as int]@;
            assert(texts(excludes@.subrange(0, i + 1)).drop_last() =~= texts(
                excludes@.subrange(0, i as int),
            ));
            assert(texts(excludes@.subrange(0, i + 1)).last() == e);
            let x = chars_of(excludes[i].as_str());
            if starts_with_path(x.as_slice(), p.as_slice()) {
                match self.node(excludes[i].as_str()) {
                    Some(node) => match node.size {
                        Some(size) => {
                            let ghost before = total;
                            total = total.wrapping_add(size);
                            proof {
                                lemma_wrapping_sum(before as int, size as int, excluded_sum(
                                    self.tree(),
                                    path@,
                                    texts(excludes@.subrange(0, i as int)),
                                ) as int);
                            }
                        },
                        None => {},
                    },
                    None => {},
                }
            }
            i = i + 1;
        }
        assert(excludes@.subrange(0, excludes@.len() as int) =~= excludes@);
        total
    }

    /// What a row shows as the size of `path`, once it is known: what the
    /// backup would store (a folder's size on disk less what `excludes`
    /// take out of it) and, where that is less, the size on disk.
    pub fn shown_size(&self, path: &str, excludes: &[String]) -> (r: Option<(u64, Option<u64>)>)
        requires
            unique(self.nodes@),
        ensures
            ({
                let key = components(path@);
                let capped: int = excluded_sum(self.tree(), path@, texts(excludes@)) as int % 0x1_0000_0000_0000_0000;
                if self.tree().contains_key(key) && self.tree()[key].size is Some {
                    let size = self.tree()[key].size->0;
                    if self.tree()[key].is_dir && capped > 0 {
                        r == Some(((if size >= capped { size - capped } else { 0 }) as u64, Some(size)))
                    } else {
                        r == Some((size, None::<u64>))
                    }
                } else {
                    r is None
                }
            }),
    {
        let node = match self.node(path) {
            Some(node) => node,
            None => return None,
        };
        let size = match node.size {
            Some(size) => size,
            None => return None,
        };
        if node.is_dir {
            let reduced = self.excluded_bytes(path, excludes);
            if reduced > 0 {
                return Some((size.saturating_sub(reduced), Some(size)));
            }
        }
        Some((size, None))
    }

    /// The browser's answer to `message`.
    pub fn update(&mut self, message: Message) -> (r: Vec<Effect>)
        requires
            unique(old(self).nodes@),
        ensures
            unique(final(self).nodes@),
            browsed(*old(self), message, *final(self), r@),
    {
        let mut effects: Vec<Effect> = Vec::new();
        match message {
            Message::Open(root) => {
                self.nodes = Vec::new();
                assert(tree_of(self.nodes@) =~= Map::<Seq<Seq<char>>, NodeView>::empty());
                self.put(
                    root.clone(),
                    Node { is_dir: true, size: None, children: None, loading: true, scanned: 0, failed: None },
                );
                self.root = Some(root.clone());
                effects.push(Effect::List(root));
            },
            Message::Close => {
                self.root = None;
            },
            Message::Toggle(path) => {
                match self.find(path.as_str()) {
                    Some(i) => {
                        proof {
                            lemma_tree_at(self.nodes@, i as int);
                        }
                        let mut node = self.nodes[i].1.duplicate();
                        if node.children.is_some() {
                            node.children = None;
                            self.put(path, node);
                        } else if !node.loading {
                            node.loading = true;
                            node.failed = None;
                            self.put(path.clone(), node);
                            effects.push(Effect::List(path));
                        }
                    },
                    None => {},
                }
            },
            Message::Progress(path, scanned) => {
                match self.find(path.as_str()) {
                    Some(i) => {
                        proof {
                            lemma_tree_at(self.nodes@, i as int);
                        }
                        let mut node = self.nodes[i].1.duplicate();
                        node.scanned = scanned;
                        self.put(path, node);
                    },
                    None => {},
                }
            },
            Message::Listed(path, entries) => {
                let ghost start = self.tree();
                let mut order: Vec<String> = Vec::new();
                let mut k: usize = 0;
                while k < entries.len()
                    invariant
                        k <= entries@.len(),
                        unique(self.nodes@),
                        self.root == old(self).root,
                        self.tree() == with_entries(start, entries@.subrange(0, k as int)),
                        texts(order@) == entries@.subrange(0, k as int).map_values(|e: DiskEntry| e.path@),
                    decreases entries@.len() - k,
                {
                    let entry = &entries[k];
                    assert(entries@.subrange(0, k + 1).drop_last() =~= entries@.subrange(0, k as int));
                    let ghost before = order@;
                    order.push(entry.path.clone());
                    assert(texts(order@) =~= texts(before).push(entry.path@));
                    assert(entries@.subrange(0, k + 1).map_values(|e: DiskEntry| e.path@) =~= entries@.subrange(
                        0,
                        k as int,
                    ).map_values(|e: DiskEntry| e.path@).push(entry.path@));
                    self.put(
                        entry.path.clone(),
                        Node {
                            is_dir: entry.is_dir,
                            size: Some(entry.size),
                            children: None,
                            loading: false,
                            scanned: 0,
                            failed: None,
                        },
                    );
                    k = k + 1;
                }
                assert(entries@.subrange(0, entries@.len() as int) =~= entries@);
                match self.find(path.as_str()) {
                    Some(i) => {
                        proof {
                            lemma_tree_at(self.nodes@, i as int);
                        }
                        let mut node = self.nodes[i].1.duplicate();
                        node.loading = false;
                        node.children = Some(order);
                        self.put(path, node);
                    },
                    None => {},
                }
            },
            Message::Failed(path, detail) => {
                match self.find(path.as_str()) {
                    Some(i) => {
                        proof {
                            lemma_tree_at(self.nodes@, i as int);
                        }
                        let mut node = self.nodes[i].1.duplicate();
                        node.loading = false;
                        node.failed = Some(detail);
                        self.put(path, node);
                    },
                    None => {},
                }
            },
            Message::Mark(path, excluded) => {
                effects.push(Effect::SetExcluded(path, excluded));
            },
        }
        effects
    }
}

/// Marking bubbles up rather than being applied here: the browser's tree
/// and root stay as they were, and the wizard is asked to change its list.
pub proof fn lemma_marking_changes_nothing_here(
    before: Browse,
    path: String,
    excluded: bool,
    after: Browse,
    effects: Seq<Effect>,
)
    requires
        browsed(before, Message::Mark(path, excluded), after, effects),
    ensures
        after.tree() == before.tree(),
        after.root == before.root,
        effects == seq![Effect::SetExcluded(path, excluded)],
{
    assert(effects =~= seq![Effect::SetExcluded(path, excluded)]);
}

/// Toggling a folder twice, once it is listed, collapses it and opens it
/// again with a new listing asked for.
pub proof fn lemma_a_listed_folder_collapses_then_lists_again(
    b0: Browse,
    path: String,
    b1: Browse,
    e1: Seq<Effect>,
    b2: Browse,
    e2: Seq<Effect>,
)
    requires
        b0.tree().contains_key(components(path@)),
        b0.tree()[components(path@)].children is Some,
        !b0.tree()[components(path@)].loading,
        browsed(b0, Message::Toggle(path), b1, e1),
        browsed(b1, Message::Toggle(path), b2, e2),
    ensures
        e1.len() == 0,
        b1.tree()[components(path@)].children is None,
        b2.tree()[components(path@)].loading,
        e2 == seq![Effect::List(path)],
{
    assert(e2 =~= seq![Effect::List(path)]);
}

/// A folder is excluded exactly when it is on the list, whatever else is:
/// a mark never says a listed folder is only partly left out.
pub proof fn lemma_a_listed_exclusion_is_excluded(path: Seq<char>, excludes: Seq<Seq<char>>, i: int)
    requires
        0 <= i < excludes.len(),
        same_path(path, excludes[i]),
    ensures
        mark(path, excludes) == Mark::Excluded,
{
}

/// No folder is both listed and being listed.
pub open spec fn consistent(t: Map<Seq<Seq<char>>, NodeView>) -> bool {
    forall|k: Seq<Seq<char>>| #[trigger] t.contains_key(k) && t[k].children is Some ==> !t[k].loading
}

proof fn lemma_entries_keep_consistency(t: Map<Seq<Seq<char>>, NodeView>, entries: Seq<DiskEntry>)
    requires
        consistent(t),
    ensures
        consistent(with_entries(t, entries)),
    decreases entries.len(),
{
    if entries.len() > 0 {
        lemma_entries_keep_consistency(t, entries.drop_last());
    }
}

/// Every message keeps the tree consistent: a folder whose children are
/// shown is not being listed, so toggling it collapses it.
pub proof fn lemma_the_tree_stays_consistent(
    before: Browse,
    message: Message,
    after: Browse,
    effects: Seq<Effect>,
)
    requires
        consistent(before.tree()),
        browsed(before, message, after, effects),
    ensures
        consistent(after.tree()),
{
    match message {
        Message::Listed(path, entries) => {
            lemma_entries_keep_consistency(before.tree(), entries@);
        },
        _ => {},
    }
}

} // verus!
