use vstd::prelude::*;
use crate::text::str_eq;

verus! {

/// Defensive bound on directory nesting: the traversal refuses to descend
/// deeper than this many directory levels.
pub const MAX_DEPTH: usize = 64;

/// One entry of an upstream directory listing: its name and the kind
/// string the upstream reports (`"file"`, `"dir"`, or something else).
pub struct Entry {
    pub name: String,
    pub kind: String,
}

/// One level of a repository's structure: a file, or a directory with its
/// children in upstream listing order.
pub enum TreeNode {
    File { name: String },
    Directory { name: String, children: Vec<TreeNode> },
}

/// Failures of the tree assembly itself (not of the upstream).
#[derive(Clone, Copy, PartialEq, Eq, Structural, Debug)]
pub enum TreeError {
    /// An entry's kind string was neither `"file"` nor `"dir"`.
    UnknownEntryKind,
    /// The traversal would descend deeper than the defensive limit.
    DepthExceeded,
}

/// Mathematical picture of a listing entry.
#[verifier::ext_equal]
pub struct EntryV {
    pub name: Seq<char>,
    pub kind: Seq<char>,
}

/// Mathematical picture of a tree node.
#[verifier::ext_equal]
pub enum NodeV {
    File { name: Seq<char> },
    Directory { name: Seq<char>, children: Seq<NodeV> },
}

/// The picture of one entry.
pub open spec fn entry_view(e: Entry) -> EntryV {
    EntryV { name: e.name@, kind: e.kind@ }
}

/// The picture of a listing, entry by entry.
pub open spec fn entries_view(s: Seq<Entry>) -> Seq<EntryV> {
    Seq::new(s.len(), |i: int| entry_view(s[i]))
}

/// The picture of one tree node.
pub open spec fn node_view(n: TreeNode) -> NodeV
    decreases n,
{
    match n {
        TreeNode::File { name } => NodeV::File { name: name@ },
        TreeNode::Directory { name, children } => NodeV::Directory {
            name: name@,
            children: nodes_view(children@),
        },
    }
}

/// The picture of a node sequence, node by node.
pub open spec fn nodes_view(s: Seq<TreeNode>) -> Seq<NodeV>
    decreases s,
{
    if s.len() == 0 {
        Seq::empty()
    } else {
        seq![node_view(s[0])] + nodes_view(s.drop_first())
    }
}

/// Appending a node appends its picture.
pub proof fn lemma_nodes_view_push(s: Seq<TreeNode>, n: TreeNode)
    ensures
        nodes_view(s.push(n)) == nodes_view(s).push(node_view(n)),
    decreases s.len(),
{
    if s.len() == 0 {
        assert(s.push(n)[0] == n);
        assert(s.push(n).drop_first() =~= s);
        assert(nodes_view(s) =~= Seq::<NodeV>::empty());
        assert(nodes_view(s.push(n)) =~= nodes_view(s).push(node_view(n)));
    } else {
        lemma_nodes_view_push(s.drop_first(), n);
        assert(s.push(n)[0] == s[0]);
        assert(s.push(n).drop_first() =~= s.drop_first().push(n));
        assert(nodes_view(s.push(n)) =~= nodes_view(s).push(node_view(n)));
    }
}

/// Mathematical picture of one suspended directory of the traversal: its
/// entry name, its full path in segments, the children built so far, and
/// the listing entries still to process.
#[verifier::ext_equal]
pub struct FrameV {
    pub name: Seq<char>,
    pub path: Seq<Seq<char>>,
    pub built: Seq<NodeV>,
    pub todo: Seq<EntryV>,
}

/// Mathematical picture of the whole traversal state: the suspended
/// directories outermost first, and the name and path of the directory
/// whose listing is awaited.
#[verifier::ext_equal]
pub struct BuilderV {
    pub stack: Seq<FrameV>,
    pub pending_name: Seq<char>,
    pub pending_path: Seq<Seq<char>>,
}

/// Mathematical picture of what one delivery ends in: another listing is
/// needed, the tree is complete, or the assembly failed.
#[verifier::ext_equal]
pub enum StepV {
    Fetch { b: BuilderV, path: Seq<Seq<char>> },
    Done { nodes: Seq<NodeV> },
    Fail { err: TreeError },
}

/// How many listing entries remain to be processed over the whole stack.
pub open spec fn frames_todo(stack: Seq<FrameV>) -> nat
    decreases stack.len(),
{
    if stack.len() == 0 {
        0
    } else {
        frames_todo(stack.drop_last()) + stack.last().todo.len()
    }
}

/// Replacing one frame changes the remaining work by the two frames'
/// difference.
pub proof fn lemma_frames_todo_update(s: Seq<FrameV>, i: int, f: FrameV)
    requires
        0 <= i < s.len(),
    ensures
        frames_todo(s.update(i, f)) == frames_todo(s) - s[i].todo.len() + f.todo.len(),
    decreases s.len(),
{
    let su = s.update(i, f);
    if i == s.len() - 1 {
        assert(su.drop_last() =~= s.drop_last());
        assert(su.last() == f);
    } else {
        lemma_frames_todo_update(s.drop_last(), i, f);
        assert(su.drop_last() =~= s.drop_last().update(i, f));
        assert(su.last() == s.last());
    }
}

/// Runs the traversal as far as the listings in hand allow: finished
/// directories are closed into `Directory` nodes, file entries become
/// `File` nodes, and the first directory entry met suspends the
/// traversal with a request for that directory's listing. Entries are
/// processed in listing order; an entry of unknown kind, or nesting past
/// `MAX_DEPTH`, fails the whole assembly.
pub open spec fn spec_advance(stack: Seq<FrameV>) -> StepV
    decreases frames_todo(stack), stack.len(),
    via spec_advance_decreases
{
    if stack.len() == 0 {
        StepV::Fail { err: TreeError::UnknownEntryKind }
    } else {
        let top = stack.last();
        if top.todo.len() == 0 {
            if stack.len() == 1 {
                StepV::Done { nodes: top.built }
            } else {
                let parent = stack[stack.len() - 2];
                let parent2 = FrameV {
                    built: parent.built.push(
                        NodeV::Directory { name: top.name, children: top.built },
                    ),
                    ..parent
                };
                spec_advance(stack.drop_last().update(stack.len() - 2, parent2))
            }
        } else {
            let e = top.todo[0];
            let top2 = FrameV { todo: top.todo.drop_first(), ..top };
            if e.kind == "file"@ {
                let top3 = FrameV { built: top2.built.push(NodeV::File { name: e.name }), ..top2 };
                spec_advance(stack.update(stack.len() - 1, top3))
            } else if e.kind == "dir"@ {
                if stack.len() >= MAX_DEPTH {
                    StepV::Fail { err: TreeError::DepthExceeded }
                } else {
                    let child_path = top.path.push(e.name);
                    StepV::Fetch {
                        b: BuilderV {
                            stack: stack.update(stack.len() - 1, top2),
                            pending_name: e.name,
                            pending_path: child_path,
                        },
                        path: child_path,
                    }
                }
            } else {
                StepV::Fail { err: TreeError::UnknownEntryKind }
            }
        }
    }
}

#[via_fn]
proof fn spec_advance_decreases(stack: Seq<FrameV>) {
    if stack.len() > 0 {
        let top = stack.last();
        if top.todo.len() == 0 {
            if stack.len() > 1 {
                let parent = stack[stack.len() - 2];
                let parent2 = FrameV {
                    built: parent.built.push(
                        NodeV::Directory { name: top.name, children: top.built },
                    ),
                    ..parent
                };
                let s2 = stack.drop_last().update(stack.len() - 2, parent2);
                lemma_frames_todo_update(stack.drop_last(), stack.len() - 2, parent2);
                assert(frames_todo(s2) == frames_todo(stack.drop_last()));
                assert(frames_todo(stack) == frames_todo(stack.drop_last()) + top.todo.len());
                assert(s2.len() < stack.len());
            }
        } else {
            let e = top.todo[0];
            let top2 = FrameV { todo: top.todo.drop_first(), ..top };
            if e.kind == "file"@ {
                let top3 = FrameV { built: top2.built.push(NodeV::File { name: e.name }), ..top2 };
                let s3 = stack.update(stack.len() - 1, top3);
                lemma_frames_todo_update(stack, stack.len() - 1, top3);
                assert(frames_todo(s3) < frames_todo(stack));
            }
        }
    }
}

/// What one delivery of a listing does: the listing becomes the newest
/// frame, then the traversal runs as far as it can.
pub open spec fn spec_deliver(b: BuilderV, entries: Seq<EntryV>) -> StepV {
    spec_advance(
        b.stack.push(
            FrameV {
                name: b.pending_name,
                path: b.pending_path,
                built: Seq::empty(),
                todo: entries,
            },
        ),
    )
}

/// One suspended directory of the running traversal. Entries of `todo`
/// before `next` are already processed.
struct Frame {
    name: String,
    path: Vec<String>,
    built: Vec<TreeNode>,
    todo: Vec<Entry>,
    next: usize,
}

/// The picture of one frame: only the entries not yet processed remain.
spec fn frame_view(f: Frame) -> FrameV {
    FrameV {
        name: f.name@,
        path: f.path.deep_view(),
        built: nodes_view(f.built@),
        todo: entries_view(f.todo@).skip(f.next as int),
    }
}

/// The picture of the frame stack, outermost first.
spec fn frames_view(stack: Seq<Frame>) -> Seq<FrameV> {
    Seq::new(stack.len(), |i: int| frame_view(stack[i]))
}

/// The traversal state between two upstream calls: the suspended
/// directories and the directory whose listing the caller is fetching.
pub struct Builder {
    stack: Vec<Frame>,
    pending_name: String,
    pending_path: Vec<String>,
}

impl View for Builder {
    type V = BuilderV;

    closed spec fn view(&self) -> BuilderV {
        BuilderV {
            stack: frames_view(self.stack@),
            pending_name: self.pending_name@,
            pending_path: self.pending_path.deep_view(),
        }
    }
}

impl Builder {
    /// No frame has processed more entries than its listing holds.
    pub closed spec fn wf(self) -> bool {
        forall|i: int|
            0 <= i < self.stack@.len() ==> (#[trigger] self.stack@[i]).next
                <= self.stack@[i].todo@.len()
    }
}

/// What one delivery ends in: the next listing to fetch (with the new
/// traversal state), the finished tree, or a failure of the assembly.
pub enum Step {
    Fetch { builder: Builder, path: Vec<String> },
    Done { nodes: Vec<TreeNode> },
    Fail { err: TreeError },
}

/// The picture of a step outcome.
pub open spec fn step_v(s: Step) -> StepV {
    match s {
        Step::Fetch { builder, path } => StepV::Fetch { b: builder@, path: path.deep_view() },
        Step::Done { nodes } => StepV::Done { nodes: nodes_view(nodes@) },
        Step::Fail { err } => StepV::Fail { err },
    }
}

/// Copies a path, segment by segment.
fn clone_path(v: &Vec<String>) -> (r: Vec<String>)
    ensures
        r@ == v@,
{
    let mut r: Vec<String> = Vec::new();
    let mut i: usize = 0;
    while i < v.len()
        invariant
            i <= v@.len(),
            r@.len() == i,
            forall|k: int| 0 <= k < i ==> r@[k] == v@[k],
        decreases v@.len() - i,
    {
        r.push(v[i].clone());
        i += 1;
    }
    proof {
        assert(r@ =~= v@);
    }
    r
}

impl Builder {
    /// Starts a traversal. The caller fetches the listing of the returned
    /// path (the repository root, no segments) and hands it to `deliver`.
    pub fn new() -> (r: (Builder, Vec<String>))
        ensures
            r.0.wf(),
            r.0@.stack == Seq::<FrameV>::empty(),
            r.0@.pending_name == Seq::<char>::empty(),
            r.0@.pending_path == Seq::<Seq<char>>::empty(),
            r.1.deep_view() == r.0@.pending_path,
    {
        let b = Builder {
            stack: Vec::new(),
            pending_name: String::new(),
            pending_path: Vec::new(),
        };
        let path: Vec<String> = Vec::new();
        proof {
            assert(frames_view(b.stack@) =~= Seq::<FrameV>::empty());
            assert(b.pending_path.deep_view() =~= Seq::<Seq<char>>::empty());
            assert(path.deep_view() =~= Seq::<Seq<char>>::empty());
        }
        (b, path)
    }

    /// Hands the traversal the listing of the directory it asked for, and
    /// runs it to its next suspension point: the next listing to fetch,
    /// the finished tree, or a failure. Entries are processed in listing
    /// order, exactly as `spec_deliver` says.
    pub fn deliver(self, entries: Vec<Entry>) -> (r: Step)
        requires
            self.wf(),
        ensures
            step_v(r) == spec_deliver(self@, entries_view(entries@)),
            (r matches Step::Fetch { builder, path } ==> builder.wf() && path.deep_view()
                == builder@.pending_path),
    {
        let ghost bv = self@;
        let ghost entries_v = entries_view(entries@);
        let ghost goal = spec_deliver(self@, entries_view(entries@));
        let Builder { mut stack, pending_name, pending_path } = self;
        let frame = Frame {
            name: pending_name,
            path: pending_path,
            built: Vec::new(),
            todo: entries,
            next: 0,
        };
        stack.push(frame);
        proof {
            let f0 = FrameV {
                name: bv.pending_name,
                path: bv.pending_path,
                built: Seq::empty(),
                todo: entries_v,
            };
            assert(nodes_view(Seq::<TreeNode>::empty()) =~= Seq::<NodeV>::empty());
            assert(frame_view(stack@.last()) =~~= f0);
            assert(frames_view(stack@) =~~= bv.stack.push(f0));
            assert(spec_advance(frames_view(stack@)) == goal);
        }
        #[verifier::loop_isolation(false)]
        loop
            invariant
                stack@.len() >= 1,
                forall|i: int|
                    0 <= i < stack@.len() ==> (#[trigger] stack@[i]).next
                        <= stack@[i].todo@.len(),
                spec_advance(frames_view(stack@)) == goal,
            decreases frames_todo(frames_view(stack@)), stack@.len(),
        {
            let ghost pre = frames_view(stack@);
            let top_idx = stack.len() - 1;
            if stack[top_idx].next == stack[top_idx].todo.len() {
                let top = stack.pop().unwrap();
                proof {
                    assert(pre.last().todo =~= Seq::<EntryV>::empty());
                    assert(frames_view(stack@) =~= pre.drop_last());
                }
                if stack.len() == 0 {
                    proof {
                        assert(pre.len() == 1);
                        assert(spec_advance(pre) == StepV::Done { nodes: pre.last().built });
                        assert(nodes_view(top.built@) == pre.last().built);
                    }
                    return Step::Done { nodes: top.built };
                }
                let mut parent = stack.pop().unwrap();
                let ghost parent_v = pre[pre.len() - 2];
                let ghost old_b = parent.built@;
                let ghost node_v = NodeV::Directory {
                    name: pre.last().name,
                    children: pre.last().built,
                };
                let node = TreeNode::Directory { name: top.name, children: top.built };
                parent.built.push(node);
                stack.push(parent);
                proof {
                    let parent2 = FrameV { built: parent_v.built.push(node_v), ..parent_v };
                    lemma_nodes_view_push(old_b, node);
                    assert(node_view(node) =~~= node_v);
                    assert(frame_view(stack@.last()) =~~= parent2);
                    assert(frames_view(stack@) =~~= pre.drop_last().update(pre.len() - 2, parent2));
                    assert(spec_advance(pre) == spec_advance(frames_view(stack@)));
                    lemma_frames_todo_update(pre.drop_last(), pre.len() - 2, parent2);
                    assert(frames_todo(frames_view(stack@)) == frames_todo(pre.drop_last()));
                    assert(frames_todo(pre) == frames_todo(pre.drop_last()) + pre.last().todo.len());
                }
            } else {
                let mut top = stack.pop().unwrap();
                let ghost top_v = pre.last();
                let ghost e_v = top_v.todo[0];
                proof {
                    assert(top_v.todo[0] == entries_view(top.todo@)[top.next as int]);
                    assert(entries_view(top.todo@)[top.next as int] == entry_view(
                        top.todo@[top.next as int],
                    ));
                }
                let entry_name = top.todo[top.next].name.clone();
                let is_file = str_eq(top.todo[top.next].kind.as_str(), "file");
                let is_dir = if is_file {
                    false
                } else {
                    str_eq(top.todo[top.next].kind.as_str(), "dir")
                };
                top.next += 1;
                let ghost top2 = FrameV { todo: top_v.todo.drop_first(), ..top_v };
                proof {
                    assert(entries_view(top.todo@).skip(top.next as int) =~= top_v.todo.drop_first());
                }
                if is_file {
                    let ghost old_b = top.built@;
                    let ghost file_node = TreeNode::File { name: entry_name };
                    top.built.push(TreeNode::File { name: entry_name });
                    stack.push(top);
                    proof {
                        let top3 = FrameV {
                            built: top2.built.push(NodeV::File { name: e_v.name }),
                            ..top2
                        };
                        lemma_nodes_view_push(old_b, file_node);
                        assert(node_view(file_node) =~~= NodeV::File { name: e_v.name });
                        assert(frame_view(stack@.last()) =~~= top3);
                        assert(frames_view(stack@) =~~= pre.update(pre.len() - 1, top3));
                        assert(spec_advance(pre) == spec_advance(frames_view(stack@)));
                        lemma_frames_todo_update(pre, pre.len() - 1, top3);
                        assert(frames_todo(frames_view(stack@)) < frames_todo(pre));
                    }
                } else if is_dir {
                    if stack.len() + 1 >= MAX_DEPTH {
                        proof {
                            assert(pre.len() >= MAX_DEPTH);
                            assert(spec_advance(pre) == StepV::Fail {
                                err: TreeError::DepthExceeded,
                            });
                        }
                        return Step::Fail { err: TreeError::DepthExceeded };
                    }
                    let mut child_path = clone_path(&top.path);
                    child_path.push(entry_name.clone());
                    stack.push(top);
                    let path_copy = clone_path(&child_path);
                    let b = Builder { stack, pending_name: entry_name, pending_path: child_path };
                    proof {
                        assert(pre.len() < MAX_DEPTH);
                        assert(frame_view(b.stack@.last()) =~~= top2);
                        assert(frames_view(b.stack@) =~~= pre.update(pre.len() - 1, top2));
                        assert(b.pending_path.deep_view() =~~= top_v.path.push(e_v.name));
                        assert(path_copy.deep_view() =~~= b.pending_path.deep_view());
                        assert(b@ =~~= BuilderV {
                            stack: pre.update(pre.len() - 1, top2),
                            pending_name: e_v.name,
                            pending_path: top_v.path.push(e_v.name),
                        });
                        assert(spec_advance(pre) == StepV::Fetch {
                            b: b@,
                            path: top_v.path.push(e_v.name),
                        });
                    }
                    return Step::Fetch { builder: b, path: path_copy };
                } else {
                    proof {
                        assert(e_v.kind != "file"@);
                        assert(e_v.kind != "dir"@);
                        assert(spec_advance(pre) == StepV::Fail {
                            err: TreeError::UnknownEntryKind,
                        });
                    }
                    return Step::Fail { err: TreeError::UnknownEntryKind };
                }
            }
        }
    }
}

} // verus!
