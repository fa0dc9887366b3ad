//! What the tree walk does on a whole tree.
//!
//! The walk of the `tree` module is driven one report at a time. Here it is
//! run against a directory tree: every listing request is answered with the
//! items of the directory concerned, and every creation and copy succeeds.
//! The walk then issues exactly the requests of a plain recursive copy, in
//! the same order, and ends in success. Carried out on a ground that holds
//! the tree at the source, these requests leave the same tree at the
//! destination.

use vstd::prelude::*;
use crate::paths::joined;
use crate::tree::{
    child_task,
    stacked,
    tree_start,
    ItemView,
    TaskView,
    TreeActionView,
    TreeEventView,
    TreeStage,
    TreeView,
};

verus! {

/// A directory tree: a file with its content, or a directory with named
/// items in listing order. The name of the item `children[i]` is `names[i]`.
pub enum Node {
    File { content: int },
    Dir { names: Seq<Seq<char>>, children: Seq<Node> },
}

/// The listing of a directory of the tree.
pub open spec fn listing_of(node: Node) -> Seq<ItemView> {
    match node {
        Node::File { content } => Seq::empty(),
        Node::Dir { names, children } => Seq::new(
            children.len(),
            |i: int| ItemView { name: names[i], is_dir: children[i] is Dir },
        ),
    }
}

/// The requests of a recursive copy of `node` from `from` to `to`: a file
/// is copied; for a directory the destination is created, the source is
/// listed, and the items are copied in listing order.
pub open spec fn copy_trace(node: Node, from: Seq<char>, to: Seq<char>) -> Seq<TreeActionView>
    decreases node, 1nat, 0nat,
{
    match node {
        Node::File { content } => seq![TreeActionView::CopyFile { from: from, to: to }],
        Node::Dir { names, children } => seq![
            TreeActionView::MakeDir { path: to },
            TreeActionView::ListDir { path: from },
        ] + items_trace(node, from, to, 0),
    }
}

/// The requests of a recursive copy of the items of the directory `node`
/// from item `i` on.
pub open spec fn items_trace(node: Node, from: Seq<char>, to: Seq<char>, i: nat) -> Seq<
    TreeActionView,
>
    decreases node, 0nat, (match node {
        Node::File { content } => 0nat,
        Node::Dir { names, children } => (children.len() - i) as nat,
    }),
{
    match node {
        Node::File { content } => Seq::empty(),
        Node::Dir { names, children } => if i >= children.len() {
            Seq::empty()
        } else {
            copy_trace(children[i as int], joined(from, names[i as int]), joined(to, names[i as int]))
                + items_trace(node, from, to, i + 1)
        },
    }
}

/// A walk together with the part of the tree that each of its tasks is
/// about: `current` for the task in hand and `waiting[k]` for the pending
/// task `k`.
pub struct Guided {
    pub walk: TreeView,
    pub current: Node,
    pub waiting: Seq<Node>,
}

/// The items of a directory, stacked like their tasks: the first item is
/// the last of the stack.
pub open spec fn stacked_nodes(node: Node) -> Seq<Node> {
    match node {
        Node::File { content } => Seq::empty(),
        Node::Dir { names, children } => Seq::new(
            children.len(),
            |j: int| children[children.len() - 1 - j],
        ),
    }
}

impl Guided {
    /// What a file system that holds the tree reports for the pending
    /// request: the listing of the directory in hand, or success.
    pub open spec fn answer(self) -> TreeEventView {
        match self.walk.stage {
            TreeStage::ListDir => TreeEventView::Listing(listing_of(self.current)),
            _ => TreeEventView::Done,
        }
    }

    /// The walk turns to the next waiting part of the tree.
    pub open spec fn turned(self, walk: TreeView, waiting: Seq<Node>) -> Guided {
        if waiting.len() == 0 {
            Guided { walk: walk, current: self.current, waiting: waiting }
        } else {
            Guided { walk: walk, current: waiting.last(), waiting: waiting.drop_last() }
        }
    }

    /// The walk after the pending request has been answered.
    pub open spec fn step(self) -> Guided {
        let walk = self.walk.advanced(self.answer());
        match self.walk.stage {
            TreeStage::MakeDir => Guided { walk: walk, ..self },
            TreeStage::ListDir => self.turned(walk, self.waiting + stacked_nodes(self.current)),
            TreeStage::CopyFile => self.turned(walk, self.waiting),
            TreeStage::Succeeded => self,
            TreeStage::Failed => self,
        }
    }

    /// The requests that the walk issues in at most `fuel` steps.
    pub open spec fn requests(self, fuel: nat) -> Seq<TreeActionView>
        decreases fuel,
    {
        if fuel == 0 {
            Seq::empty()
        } else {
            match self.walk.action() {
                None => Seq::empty(),
                Some(request) => seq![request] + self.step().requests((fuel - 1) as nat),
            }
        }
    }

    /// The walk after at most `fuel` steps.
    pub open spec fn after(self, fuel: nat) -> Guided
        decreases fuel,
    {
        if fuel == 0 || self.walk.action() is None {
            self
        } else {
            self.step().after((fuel - 1) as nat)
        }
    }

    /// The tasks of the walk fit the parts of the tree they are about.
    spec fn fits(self) -> bool {
        &&& self.walk.pending.len() == self.waiting.len()
        &&& forall|k: int|
            0 <= k < self.waiting.len() ==> (#[trigger] self.walk.pending[k]).is_dir == (
            self.waiting[k] is Dir)
        &&& match self.walk.stage {
            TreeStage::MakeDir => self.current is Dir,
            TreeStage::ListDir => self.current is Dir,
            TreeStage::CopyFile => self.current is File,
            TreeStage::Succeeded => self.walk.pending.len() == 0,
            TreeStage::Failed => false,
        }
    }

    /// The requests that are still to come.
    spec fn remaining(self) -> Seq<TreeActionView> {
        (match self.walk.stage {
            TreeStage::MakeDir => copy_trace(self.current, self.walk.from, self.walk.to),
            TreeStage::ListDir => seq![TreeActionView::ListDir { path: self.walk.from }]
                + items_trace(self.current, self.walk.from, self.walk.to, 0),
            TreeStage::CopyFile => seq![
                TreeActionView::CopyFile { from: self.walk.from, to: self.walk.to },
            ],
            TreeStage::Succeeded => Seq::empty(),
            TreeStage::Failed => Seq::empty(),
        }) + rest(self.walk.pending, self.waiting)
    }
}

/// The requests of the pending tasks, the last task first.
spec fn rest(tasks: Seq<TaskView>, nodes: Seq<Node>) -> Seq<TreeActionView>
    decreases tasks.len(),
{
    if tasks.len() == 0 {
        Seq::empty()
    } else {
        copy_trace(nodes.last(), tasks.last().from, tasks.last().to) + rest(
            tasks.drop_last(),
            nodes.drop_last(),
        )
    }
}

/// Stacking the items of a directory puts their copies, in listing order,
/// before what was pending.
proof fn lemma_stacked_items(
    node: Node,
    from: Seq<char>,
    to: Seq<char>,
    tasks: Seq<TaskView>,
    nodes: Seq<Node>,
    i: nat,
)
    requires
        node is Dir,
        i <= node->children.len(),
    ensures
        rest(
            tasks + stacked(from, to, listing_of(node)).take(node->children.len() - i),
            nodes + stacked_nodes(node).take(node->children.len() - i),
        ) == items_trace(node, from, to, i) + rest(tasks, nodes),
    decreases node->children.len() - i,
{
    let n = node->children.len() as int;
    let items = listing_of(node);
    let all_tasks = stacked(from, to, items);
    let all_nodes = stacked_nodes(node);
    if i == n {
        assert(tasks + all_tasks.take(0) =~= tasks);
        assert(nodes + all_nodes.take(0) =~= nodes);
        assert(items_trace(node, from, to, i) + rest(tasks, nodes) =~= rest(tasks, nodes));
    } else {
        lemma_stacked_items(node, from, to, tasks, nodes, i + 1);
        let lower_tasks = tasks + all_tasks.take(n - i - 1);
        let lower_nodes = nodes + all_nodes.take(n - i - 1);
        let here_tasks = tasks + all_tasks.take(n - i);
        let here_nodes = nodes + all_nodes.take(n - i);
        assert(here_tasks.drop_last() =~= lower_tasks);
        assert(here_nodes.drop_last() =~= lower_nodes);
        assert(here_tasks.last() == child_task(from, to, items[i as int]));
        assert(here_nodes.last() == node->children[i as int]);
        assert(rest(here_tasks, here_nodes) == copy_trace(
            node->children[i as int],
            joined(from, node->names[i as int]),
            joined(to, node->names[i as int]),
        ) + rest(lower_tasks, lower_nodes));
        assert(rest(here_tasks, here_nodes) =~= items_trace(node, from, to, i) + rest(
            tasks,
            nodes,
        ));
    }
}

/// Turning to the next waiting part leaves exactly the requests of the
/// pending tasks to come.
proof fn lemma_turned(before: Guided, walk: TreeView, waiting: Seq<Node>)
    requires
        walk.pending.len() == waiting.len(),
        forall|k: int|
            0 <= k < waiting.len() ==> (#[trigger] walk.pending[k]).is_dir == (waiting[k] is Dir),
    ensures
        before.turned(walk.resumed(), waiting).fits(),
        before.turned(walk.resumed(), waiting).remaining() == rest(walk.pending, waiting),
{
    let next = before.turned(walk.resumed(), waiting);
    if waiting.len() == 0 {
        assert(next.remaining() =~= rest(walk.pending, waiting));
    } else {
        let task = walk.pending.last();
        let node = waiting.last();
        assert(task.is_dir == (node is Dir));
        assert forall|k: int| 0 <= k < next.waiting.len() implies (
        #[trigger] next.walk.pending[k]).is_dir == (next.waiting[k] is Dir) by {
            assert(walk.pending[k].is_dir == (waiting[k] is Dir));
        }
        if node is File {
            assert(copy_trace(node, task.from, task.to) =~= seq![
                TreeActionView::CopyFile { from: task.from, to: task.to },
            ]);
        }
        assert(next.remaining() =~= rest(walk.pending, waiting));
    }
}

/// One step of the walk issues the first of the requests that are still to
/// come and leaves the others.
proof fn lemma_step(w: Guided)
    requires
        w.fits(),
        w.remaining().len() > 0,
    ensures
        w.walk.action() == Some(w.remaining()[0]),
        w.step().fits(),
        w.step().remaining() == w.remaining().drop_first(),
{
    let pending = w.walk.pending;
    match w.walk.stage {
        TreeStage::MakeDir => {
            let next = w.step();
            assert(next.walk.stage == TreeStage::ListDir);
            assert(next.remaining() =~= w.remaining().drop_first());
        },
        TreeStage::ListDir => {
            let items = listing_of(w.current);
            let n = w.current->children.len();
            let grown = TreeView {
                pending: pending + stacked(w.walk.from, w.walk.to, items),
                ..w.walk
            };
            let waiting = w.waiting + stacked_nodes(w.current);
            assert(stacked(w.walk.from, w.walk.to, items).take(n as int) =~= stacked(
                w.walk.from,
                w.walk.to,
                items,
            ));
            assert(stacked_nodes(w.current).take(n as int) =~= stacked_nodes(w.current));
            lemma_stacked_items(w.current, w.walk.from, w.walk.to, pending, w.waiting, 0);
            assert forall|k: int| 0 <= k < waiting.len() implies (#[trigger] grown.pending[k]).is_dir
                == (waiting[k] is Dir) by {
                if k < pending.len() {
                    assert(pending[k].is_dir == (w.waiting[k] is Dir));
                }
            }
            lemma_turned(w, grown, waiting);
            assert(w.step() == w.turned(grown.resumed(), waiting));
            assert(w.step().remaining() =~= w.remaining().drop_first());
        },
        TreeStage::CopyFile => {
            lemma_turned(w, w.walk, w.waiting);
            assert(w.step() == w.turned(w.walk.resumed(), w.waiting));
            assert(w.step().remaining() =~= w.remaining().drop_first());
        },
        TreeStage::Succeeded => {
            assert(rest(pending, w.waiting) =~= Seq::<TreeActionView>::empty());
        },
        TreeStage::Failed => {},
    }
}

/// Given enough steps, the walk issues all the requests that are still to
/// come and succeeds.
proof fn lemma_run(w: Guided, fuel: nat)
    requires
        w.fits(),
        fuel >= w.remaining().len(),
    ensures
        w.requests(fuel) == w.remaining(),
        w.after(fuel).walk.stage == TreeStage::Succeeded,
    decreases fuel,
{
    if w.remaining().len() == 0 {
        assert(w.walk.stage == TreeStage::Succeeded) by {
            if w.walk.stage == TreeStage::MakeDir {
                assert(copy_trace(w.current, w.walk.from, w.walk.to).len() >= 2);
            }
        }
        assert(w.requests(fuel) =~= w.remaining());
    } else {
        lemma_step(w);
        lemma_run(w.step(), (fuel - 1) as nat);
        assert(w.requests(fuel) =~= w.remaining());
    }
}

/// Walking a directory tree issues the requests of its recursive copy, in
/// their order, and ends in success: every directory is created and listed
/// before its items are copied, every item is copied to the place of the
/// same name below the destination, and a subdirectory is finished before
/// the item that follows it. This holds whenever the walk is given at least
/// as many steps as the recursive copy has requests.
pub proof fn law_walk_copies_tree(node: Node, from: Seq<char>, to: Seq<char>, fuel: nat)
    requires
        node is Dir,
        fuel >= copy_trace(node, from, to).len(),
    ensures
        ({
            let start = Guided {
                walk: tree_start(from, to),
                current: node,
                waiting: Seq::empty(),
            };
            &&& start.requests(fuel) == copy_trace(node, from, to)
            &&& start.after(fuel).walk.outcome() == Some(true)
        }),
{
    let start = Guided { walk: tree_start(from, to), current: node, waiting: Seq::empty() };
    assert(start.remaining() =~= copy_trace(node, from, to));
    lemma_run(start, fuel);
}

/// What lies at one path: a directory, or a file with its content.
pub enum Kind {
    Dir,
    File { content: int },
}

/// The ground on which the requests of a walk are carried out: what lies
/// at each path.
pub type Ground = Map<Seq<char>, Kind>;

/// One path of a tree that is placed somewhere, and what lies there.
pub struct Placed {
    pub path: Seq<char>,
    pub kind: Kind,
}

/// The paths of the tree `node` when it is placed at `at`, with what lies
/// at each: the directory itself before its items, the items in listing
/// order, each under its name.
pub open spec fn places(node: Node, at: Seq<char>) -> Seq<Placed>
    decreases node, 1nat, 0nat,
{
    match node {
        Node::File { content } => seq![
            Placed { path: at, kind: Kind::File { content: content } },
        ],
        Node::Dir { names, children } => seq![Placed { path: at, kind: Kind::Dir }] + item_places(
            node,
            at,
            0,
        ),
    }
}

/// The paths of the items of the directory `node` from item `i` on.
pub open spec fn item_places(node: Node, at: Seq<char>, i: nat) -> Seq<Placed>
    decreases node, 0nat, (match node {
        Node::File { content } => 0nat,
        Node::Dir { names, children } => (children.len() - i) as nat,
    }),
{
    match node {
        Node::File { content } => Seq::empty(),
        Node::Dir { names, children } => if i >= children.len() {
            Seq::empty()
        } else {
            places(children[i as int], joined(at, names[i as int])) + item_places(node, at, i + 1)
        },
    }
}

/// The ground holds, at each of the paths, what is placed there.
pub open spec fn holds(ground: Ground, placed: Seq<Placed>) -> bool {
    forall|k: int|
        0 <= k < placed.len() ==> ground.contains_key((#[trigger] placed[k]).path)
            && ground[placed[k].path] == placed[k].kind
}

/// No path occurs twice.
pub open spec fn distinct(placed: Seq<Placed>) -> bool {
    forall|i: int, j: int|
        0 <= i < j < placed.len() ==> (#[trigger] placed[i]).path != (#[trigger] placed[j]).path
}

/// No path of `a` is a path of `b`.
pub open spec fn apart(a: Seq<Placed>, b: Seq<Placed>) -> bool {
    forall|i: int, j: int|
        0 <= i < a.len() && 0 <= j < b.len() ==> (#[trigger] a[i]).path != (#[trigger] b[j]).path
}

/// `path` is none of the paths.
pub open spec fn outside(path: Seq<char>, placed: Seq<Placed>) -> bool {
    forall|k: int| 0 <= k < placed.len() ==> (#[trigger] placed[k]).path != path
}

/// The two grounds agree wherever nothing is placed.
pub open spec fn same_outside(before: Ground, after: Ground, placed: Seq<Placed>) -> bool {
    forall|path: Seq<char>| #[trigger]
        outside(path, placed) ==> after.contains_key(path) == before.contains_key(path)
            && after[path] == before[path]
}

/// The ground after one request has been carried out: a created directory
/// lies at its path, a copied file lies at the destination as it lies at
/// the source, and a listing changes nothing.
pub open spec fn request_effect(ground: Ground, request: TreeActionView) -> Ground {
    match request {
        TreeActionView::MakeDir { path } => ground.insert(path, Kind::Dir),
        TreeActionView::ListDir { path } => ground,
        TreeActionView::CopyFile { from, to } => ground.insert(to, ground[from]),
    }
}

/// The ground after the requests have been carried out in their order.
pub open spec fn trace_effect(ground: Ground, trace: Seq<TreeActionView>) -> Ground
    decreases trace.len(),
{
    if trace.len() == 0 {
        ground
    } else {
        request_effect(trace_effect(ground, trace.drop_last()), trace.last())
    }
}

proof fn lemma_effect_concat(ground: Ground, first: Seq<TreeActionView>, then: Seq<TreeActionView>)
    ensures
        trace_effect(ground, first + then) == trace_effect(trace_effect(ground, first), then),
    decreases then.len(),
{
    if then.len() == 0 {
        assert(first + then =~= first);
    } else {
        lemma_effect_concat(ground, first, then.drop_last());
        assert((first + then).drop_last() =~= first + then.drop_last());
        assert((first + then).last() == then.last());
    }
}

proof fn lemma_parts(a: Seq<Placed>, b: Seq<Placed>)
    ensures
        forall|i: int| 0 <= i < a.len() ==> (a + b)[i] == #[trigger] a[i],
        forall|j: int| 0 <= j < b.len() ==> (a + b)[a.len() + j] == #[trigger] b[j],
        (a + b).len() == a.len() + b.len(),
{
}

proof fn lemma_split_distinct(a: Seq<Placed>, b: Seq<Placed>)
    requires
        distinct(a + b),
    ensures
        distinct(a),
        distinct(b),
        apart(a, b),
{
    lemma_parts(a, b);
    let ab = a + b;
    assert forall|i: int, j: int| 0 <= i < j < a.len() implies (#[trigger] a[i]).path != (
    #[trigger] a[j]).path by {
        assert(ab[i].path != ab[j].path);
    }
    assert forall|i: int, j: int| 0 <= i < j < b.len() implies (#[trigger] b[i]).path != (
    #[trigger] b[j]).path by {
        assert(ab[a.len() + i].path != ab[a.len() + j].path);
    }
    assert forall|i: int, j: int| 0 <= i < a.len() && 0 <= j < b.len() implies (
    #[trigger] a[i]).path != (#[trigger] b[j]).path by {
        assert(ab[i].path != ab[a.len() + j].path);
    }
}

proof fn lemma_split_apart(a: Seq<Placed>, b: Seq<Placed>, c: Seq<Placed>, d: Seq<Placed>)
    requires
        apart(a + b, c + d),
    ensures
        apart(a, c),
        apart(a, d),
        apart(b, c),
        apart(b, d),
{
    lemma_parts(a, b);
    lemma_parts(c, d);
    let ab = a + b;
    let cd = c + d;
    assert forall|i: int, j: int| 0 <= i < a.len() && 0 <= j < c.len() implies (
    #[trigger] a[i]).path != (#[trigger] c[j]).path by {
        assert(ab[i].path != cd[j].path);
    }
    assert forall|i: int, j: int| 0 <= i < a.len() && 0 <= j < d.len() implies (
    #[trigger] a[i]).path != (#[trigger] d[j]).path by {
        assert(ab[i].path != cd[c.len() + j].path);
    }
    assert forall|i: int, j: int| 0 <= i < b.len() && 0 <= j < c.len() implies (
    #[trigger] b[i]).path != (#[trigger] c[j]).path by {
        assert(ab[a.len() + i].path != cd[j].path);
    }
    assert forall|i: int, j: int| 0 <= i < b.len() && 0 <= j < d.len() implies (
    #[trigger] b[i]).path != (#[trigger] d[j]).path by {
        assert(ab[a.len() + i].path != cd[c.len() + j].path);
    }
}

proof fn lemma_split_holds(ground: Ground, a: Seq<Placed>, b: Seq<Placed>)
    ensures
        holds(ground, a + b) <==> holds(ground, a) && holds(ground, b),
{
    lemma_parts(a, b);
    let ab = a + b;
    if holds(ground, ab) {
        assert forall|k: int| 0 <= k < a.len() implies ground.contains_key(
            (#[trigger] a[k]).path,
        ) && ground[a[k].path] == a[k].kind by {
            assert(ab[k] == a[k]);
        }
        assert forall|k: int| 0 <= k < b.len() implies ground.contains_key(
            (#[trigger] b[k]).path,
        ) && ground[b[k].path] == b[k].kind by {
            assert(ab[a.len() + k] == b[k]);
        }
    }
    if holds(ground, a) && holds(ground, b) {
        assert forall|k: int| 0 <= k < ab.len() implies ground.contains_key(
            (#[trigger] ab[k]).path,
        ) && ground[ab[k].path] == ab[k].kind by {
            if k < a.len() {
                assert(ab[k] == a[k]);
            } else {
                assert(ab[k] == b[k - a.len()]);
            }
        }
    }
}

proof fn lemma_split_outside(path: Seq<char>, a: Seq<Placed>, b: Seq<Placed>)
    ensures
        outside(path, a + b) <==> outside(path, a) && outside(path, b),
{
    lemma_parts(a, b);
    let ab = a + b;
    if outside(path, ab) {
        assert forall|k: int| 0 <= k < a.len() implies (#[trigger] a[k]).path != path by {
            assert(ab[k].path != path);
        }
        assert forall|k: int| 0 <= k < b.len() implies (#[trigger] b[k]).path != path by {
            assert(ab[a.len() + k].path != path);
        }
    }
    if outside(path, a) && outside(path, b) {
        assert forall|k: int| 0 <= k < ab.len() implies (#[trigger] ab[k]).path != path by {
            if k < a.len() {
                assert(ab[k] == a[k]);
            } else {
                assert(ab[k] == b[k - a.len()]);
            }
        }
    }
}

/// What is held stays held where the ground does not change.
proof fn lemma_still_holds(before: Ground, after: Ground, changed: Seq<Placed>, held: Seq<Placed>)
    requires
        holds(before, held),
        same_outside(before, after, changed),
        apart(changed, held),
    ensures
        holds(after, held),
{
    assert forall|k: int| 0 <= k < held.len() implies after.contains_key(
        (#[trigger] held[k]).path,
    ) && after[held[k].path] == held[k].kind by {
        assert forall|i: int| 0 <= i < changed.len() implies (#[trigger] changed[i]).path
            != held[k].path by {}
        assert(outside(held[k].path, changed));
    }
}

/// The requests of a recursive copy place the tree at the destination and
/// change nothing else.
proof fn lemma_copy_places(node: Node, from: Seq<char>, to: Seq<char>, ground: Ground)
    requires
        distinct(places(node, to)),
        apart(places(node, to), places(node, from)),
        holds(ground, places(node, from)),
    ensures
        holds(trace_effect(ground, copy_trace(node, from, to)), places(node, to)),
        same_outside(ground, trace_effect(ground, copy_trace(node, from, to)), places(node, to)),
    decreases node, 1nat, 0nat,
{
    let after = trace_effect(ground, copy_trace(node, from, to));
    match node {
        Node::File { content } => {
            let request = TreeActionView::CopyFile { from: from, to: to };
            assert(after == ground.insert(to, ground[from])) by {
                let trace = copy_trace(node, from, to);
                assert(trace.drop_last() =~= Seq::<TreeActionView>::empty());
                assert(trace_effect(ground, trace.drop_last()) == ground);
                assert(trace.last() == request);
            }
            assert(places(node, from)[0].path == from);
            assert(places(node, to)[0].path == to);
            assert forall|path: Seq<char>| #[trigger]
                outside(path, places(node, to)) implies after.contains_key(path)
                == ground.contains_key(path) && after[path] == ground[path] by {
                assert(places(node, to)[0].path != path);
            }
        },
        Node::Dir { names, children } => {
            let head = seq![
                TreeActionView::MakeDir { path: to },
                TreeActionView::ListDir { path: from },
            ];
            let own_to = seq![Placed { path: to, kind: Kind::Dir }];
            let own_from = seq![Placed { path: from, kind: Kind::Dir }];
            let items_to = item_places(node, to, 0);
            let items_from = item_places(node, from, 0);
            lemma_split_distinct(own_to, items_to);
            lemma_split_apart(own_to, items_to, own_from, items_from);
            lemma_split_holds(ground, own_from, items_from);
            let made = ground.insert(to, Kind::Dir);
            assert(trace_effect(ground, head) == made) by {
                assert(head.drop_last() =~= seq![TreeActionView::MakeDir { path: to }]);
                assert(head.drop_last().drop_last() =~= Seq::<TreeActionView>::empty());
                reveal_with_fuel(trace_effect, 3);
            }
            lemma_effect_concat(ground, head, items_trace(node, from, to, 0));
            assert(same_outside(ground, made, own_to)) by {
                assert forall|path: Seq<char>| #[trigger]
                    outside(path, own_to) implies made.contains_key(path) == ground.contains_key(
                    path,
                ) && made[path] == ground[path] by {
                    assert(own_to[0].path != path);
                }
            }
            lemma_still_holds(ground, made, own_to, items_from);
            lemma_items_places(node, from, to, 0, made);
            assert(holds(after, own_to)) by {
                assert forall|k: int| 0 <= k < items_to.len() implies (#[trigger] items_to[k]).path
                    != to by {
                    assert(own_to[0].path != items_to[k].path);
                }
                assert(outside(to, items_to));
            }
            lemma_split_holds(after, own_to, items_to);
            assert forall|path: Seq<char>| #[trigger]
                outside(path, places(node, to)) implies after.contains_key(path)
                == ground.contains_key(path) && after[path] == ground[path] by {
                lemma_split_outside(path, own_to, items_to);
                assert(own_to[0].path != path);
            }
        },
    }
}

/// The requests for the items of a directory place the items at the
/// destination and change nothing else.
proof fn lemma_items_places(node: Node, from: Seq<char>, to: Seq<char>, i: nat, ground: Ground)
    requires
        node is Dir,
        i <= node->children.len(),
        distinct(item_places(node, to, i)),
        apart(item_places(node, to, i), item_places(node, from, i)),
        holds(ground, item_places(node, from, i)),
    ensures
        holds(trace_effect(ground, items_trace(node, from, to, i)), item_places(node, to, i)),
        same_outside(
            ground,
            trace_effect(ground, items_trace(node, from, to, i)),
            item_places(node, to, i),
        ),
    decreases node, 0nat, node->children.len() - i,
{
    if i < node->children.len() {
        let child = node->children[i as int];
        let child_from = joined(from, node->names[i as int]);
        let child_to = joined(to, node->names[i as int]);
        let here_to = places(child, child_to);
        let here_from = places(child, child_from);
        let rest_to = item_places(node, to, i + 1);
        let rest_from = item_places(node, from, i + 1);
        lemma_split_distinct(here_to, rest_to);
        lemma_split_apart(here_to, rest_to, here_from, rest_from);
        lemma_split_holds(ground, here_from, rest_from);
        lemma_copy_places(child, child_from, child_to, ground);
        let middle = trace_effect(ground, copy_trace(child, child_from, child_to));
        lemma_still_holds(ground, middle, here_to, rest_from);
        lemma_items_places(node, from, to, i + 1, middle);
        let after = trace_effect(middle, items_trace(node, from, to, i + 1));
        lemma_effect_concat(
            ground,
            copy_trace(child, child_from, child_to),
            items_trace(node, from, to, i + 1),
        );
        assert(apart(rest_to, here_to)) by {
            assert forall|a: int, b: int|
                0 <= a < rest_to.len() && 0 <= b < here_to.len() implies (
            #[trigger] rest_to[a]).path != (#[trigger] here_to[b]).path by {
                assert(here_to[b].path != rest_to[a].path);
            }
        }
        lemma_still_holds(middle, after, rest_to, here_to);
        lemma_split_holds(after, here_to, rest_to);
        assert forall|path: Seq<char>| #[trigger]
            outside(path, item_places(node, to, i)) implies after.contains_key(path)
            == ground.contains_key(path) && after[path] == ground[path] by {
            lemma_split_outside(path, here_to, rest_to);
            assert(outside(path, here_to));
            assert(outside(path, rest_to));
        }
    }
}

/// Walking a directory tree leaves the same tree at the destination. If the
/// ground holds the tree at `from`, and the paths it takes at `to` are
/// distinct from each other and from those it has at `from`, then after the
/// requests of the walk the ground holds the tree at `to`, still holds it at
/// `from`, and is unchanged at every other path.
pub proof fn law_walk_reproduces_tree(
    node: Node,
    from: Seq<char>,
    to: Seq<char>,
    fuel: nat,
    ground: Ground,
)
    requires
        node is Dir,
        fuel >= copy_trace(node, from, to).len(),
        distinct(places(node, to)),
        apart(places(node, to), places(node, from)),
        holds(ground, places(node, from)),
    ensures
        ({
            let start = Guided {
                walk: tree_start(from, to),
                current: node,
                waiting: Seq::empty(),
            };
            let after = trace_effect(ground, start.requests(fuel));
            &&& holds(after, places(node, to))
            &&& holds(after, places(node, from))
            &&& same_outside(ground, after, places(node, to))
        }),
{
    law_walk_copies_tree(node, from, to, fuel);
    lemma_copy_places(node, from, to, ground);
    let after = trace_effect(ground, copy_trace(node, from, to));
    lemma_still_holds(ground, after, places(node, to), places(node, from));
}

} // verus!
