use vstd::prelude::*;
use vstd::string::*;
use crate::tree::{node_view, nodes_view, NodeV, TreeNode};

verus! {

/// Relies on std's String::push: appends exactly the given character at
/// the end of the string.
pub assume_specification[ String::push ](s: &mut String, c: char)
    ensures
        final(s)@ == old(s)@.push(c),
;

/// The lower-case hex digit for a value below 16.
pub open spec fn hex_digit(n: int) -> char {
    if n == 0 {
        '0'
    } else if n == 1 {
        '1'
    } else if n == 2 {
        '2'
    } else if n == 3 {
        '3'
    } else if n == 4 {
        '4'
    } else if n == 5 {
        '5'
    } else if n == 6 {
        '6'
    } else if n == 7 {
        '7'
    } else if n == 8 {
        '8'
    } else if n == 9 {
        '9'
    } else if n == 10 {
        'a'
    } else if n == 11 {
        'b'
    } else if n == 12 {
        'c'
    } else if n == 13 {
        'd'
    } else if n == 14 {
        'e'
    } else {
        'f'
    }
}

/// How one character appears inside a JSON string literal: quotes and
/// backslashes are escaped, control characters take the `\u00XX` form,
/// everything else stands for itself.
pub open spec fn esc_char(c: char) -> Seq<char> {
    if c == '"' {
        seq!['\\', '"']
    } else if c == '\\' {
        seq!['\\', '\\']
    } else if (c as u32) < 32 {
        seq!['\\', 'u', '0', '0', hex_digit(c as u32 as int / 16), hex_digit(c as u32 as int % 16)]
    } else {
        seq![c]
    }
}

/// A whole character sequence escaped for use inside a JSON string literal.
pub open spec fn escaped(s: Seq<char>) -> Seq<char>
    decreases s.len(),
{
    if s.len() == 0 {
        Seq::empty()
    } else {
        esc_char(s[0]) + escaped(s.drop_first())
    }
}

/// A JSON string literal: the escaped text between double quotes.
pub open spec fn quoted(s: Seq<char>) -> Seq<char> {
    seq!['"'] + escaped(s) + seq!['"']
}

/// Escaping goes character by character: appending one character appends
/// exactly its escape.
pub proof fn lemma_escaped_push(s: Seq<char>, c: char)
    ensures
        escaped(s.push(c)) == escaped(s) + esc_char(c),
    decreases s.len(),
{
    if s.len() == 0 {
        assert(s.push(c)[0] == c);
        assert(s.push(c).drop_first() =~= s);
        assert(escaped(s) =~= Seq::<char>::empty());
        assert(escaped(s.push(c)) =~= escaped(s) + esc_char(c));
    } else {
        lemma_escaped_push(s.drop_first(), c);
        assert(s.push(c)[0] == s[0]);
        assert(s.push(c).drop_first() =~= s.drop_first().push(c));
        assert(escaped(s.push(c)) =~= escaped(s) + esc_char(c));
    }
}

/// The lower-case hex digit character for a value below 16.
fn hex_digit_exec(n: u8) -> (c: char)
    requires
        n < 16,
    ensures
        c == hex_digit(n as int),
{
    match n {
        0 => '0',
        1 => '1',
        2 => '2',
        3 => '3',
        4 => '4',
        5 => '5',
        6 => '6',
        7 => '7',
        8 => '8',
        9 => '9',
        10 => 'a',
        11 => 'b',
        12 => 'c',
        13 => 'd',
        14 => 'e',
        _ => 'f',
    }
}

/// Appends the JSON-escaped form of `s` to `out`.
pub fn append_escaped(out: &mut String, s: &str)
    ensures
        final(out)@ == old(out)@ + escaped(s@),
{
    let len = s.unicode_len();
    let mut i: usize = 0;
    while i < len
        invariant
            len == s@.len(),
            i <= len,
            out@ == old(out)@ + escaped(s@.subrange(0, i as int)),
        decreases len - i,
    {
        let c = s.get_char(i);
        if c == '"' {
            out.push('\\');
            out.push('"');
        } else if c == '\\' {
            out.push('\\');
            out.push('\\');
        } else if (c as u32) < 32 {
            let v: u32 = c as u32;
            out.push('\\');
            out.push('u');
            out.push('0');
            out.push('0');
            out.push(hex_digit_exec((v / 16) as u8));
            out.push(hex_digit_exec((v % 16) as u8));
        } else {
            out.push(c);
        }
        proof {
            lemma_escaped_push(s@.subrange(0, i as int), c);
            assert(s@.subrange(0, i + 1) =~= s@.subrange(0, i as int).push(c));
            assert(out@ =~= old(out)@ + escaped(s@.subrange(0, i + 1)));
        }
        i += 1;
    }
    proof {
        assert(s@.subrange(0, len as int) =~= s@);
    }
}

/// Appends `s` as a JSON string literal (quotes included) to `out`.
pub fn append_quoted(out: &mut String, s: &str)
    ensures
        final(out)@ == old(out)@ + quoted(s@),
{
    out.push('"');
    append_escaped(out, s);
    out.push('"');
    proof {
        assert(out@ =~= old(out)@ + quoted(s@));
    }
}

/// The body of every failure response: `{"error": <message>}`.
pub open spec fn error_body(msg: Seq<char>) -> Seq<char> {
    "{\"error\":"@ + quoted(msg) + "}"@
}

/// Builds the failure body `{"error": <message>}`.
pub fn error_json(msg: &str) -> (r: String)
    ensures
        r@ == error_body(msg@),
{
    let mut out = String::new();
    out.append("{\"error\":");
    append_quoted(&mut out, msg);
    out.append("}");
    proof {
        assert(out@ =~= error_body(msg@));
    }
    out
}

/// JSON text of one tree node, in the `{"type": ..., "name": ...}` shape,
/// a directory carrying its children in listing order.
pub open spec fn node_json(n: TreeNode) -> Seq<char>
    decreases n,
{
    match n {
        TreeNode::File { name } => "{\"type\":\"file\",\"name\":"@ + quoted(name@) + "}"@,
        TreeNode::Directory { name, children } => "{\"type\":\"directory\",\"name\":"@ + quoted(
            name@,
        ) + ",\"children\":["@ + nodes_json(children@) + "]}"@,
    }
}

/// JSON text of a sequence of nodes, comma-separated, without brackets.
pub open spec fn nodes_json(s: Seq<TreeNode>) -> Seq<char>
    decreases s, 1int,
{
    if s.len() == 0 {
        Seq::empty()
    } else {
        node_json(s[0]) + nodes_json_rest(s.drop_first())
    }
}

/// JSON text of the nodes after the first: each preceded by a comma.
pub open spec fn nodes_json_rest(s: Seq<TreeNode>) -> Seq<char>
    decreases s, 0int,
{
    if s.len() == 0 {
        Seq::empty()
    } else {
        seq![','] + node_json(s[0]) + nodes_json_rest(s.drop_first())
    }
}

/// Appending a node to the tail nodes appends a comma and its JSON.
pub proof fn lemma_nodes_rest_push(s: Seq<TreeNode>, n: TreeNode)
    ensures
        nodes_json_rest(s.push(n)) == nodes_json_rest(s) + seq![','] + node_json(n),
    decreases s.len(),
{
    if s.len() == 0 {
        assert(s.push(n)[0] == n);
        assert(s.push(n).drop_first() =~= s);
        assert(nodes_json_rest(s) =~= Seq::<char>::empty());
        assert(nodes_json_rest(s.push(n)) =~= nodes_json_rest(s) + seq![','] + node_json(n));
    } else {
        lemma_nodes_rest_push(s.drop_first(), n);
        assert(s.push(n)[0] == s[0]);
        assert(s.push(n).drop_first() =~= s.drop_first().push(n));
        assert(nodes_json_rest(s.push(n)) =~= nodes_json_rest(s) + seq![','] + node_json(n));
    }
}

/// Appending a node appends its JSON, preceded by a comma unless it is
/// the first.
pub proof fn lemma_nodes_push(s: Seq<TreeNode>, n: TreeNode)
    ensures
        s.len() == 0 ==> nodes_json(s.push(n)) == node_json(n),
        s.len() > 0 ==> nodes_json(s.push(n)) == nodes_json(s) + seq![','] + node_json(n),
{
    if s.len() == 0 {
        assert(s.push(n)[0] == n);
        assert(s.push(n).drop_first() =~= s);
        assert(nodes_json_rest(s) =~= Seq::<char>::empty());
        assert(nodes_json(s.push(n)) =~= node_json(n));
    } else {
        lemma_nodes_rest_push(s.drop_first(), n);
        assert(s.push(n)[0] == s[0]);
        assert(s.push(n).drop_first() =~= s.drop_first().push(n));
        assert(nodes_json(s.push(n)) =~= nodes_json(s) + seq![','] + node_json(n));
    }
}

/// JSON text of one node picture, in the same shape as `node_json`.
pub open spec fn node_v_json(n: NodeV) -> Seq<char>
    decreases n,
{
    match n {
        NodeV::File { name } => "{\"type\":\"file\",\"name\":"@ + quoted(name) + "}"@,
        NodeV::Directory { name, children } => "{\"type\":\"directory\",\"name\":"@ + quoted(name)
            + ",\"children\":["@ + nodes_v_json(children) + "]}"@,
    }
}

/// JSON text of a sequence of node pictures, comma-separated.
pub open spec fn nodes_v_json(s: Seq<NodeV>) -> Seq<char>
    decreases s, 1int,
{
    if s.len() == 0 {
        Seq::empty()
    } else {
        node_v_json(s[0]) + nodes_v_json_rest(s.drop_first())
    }
}

/// JSON text of the node pictures after the first, each after a comma.
pub open spec fn nodes_v_json_rest(s: Seq<NodeV>) -> Seq<char>
    decreases s, 0int,
{
    if s.len() == 0 {
        Seq::empty()
    } else {
        seq![','] + node_v_json(s[0]) + nodes_v_json_rest(s.drop_first())
    }
}

/// Serialization reads only the mathematical picture of a tree: the JSON
/// of a node is the JSON of its view.
pub proof fn lemma_node_json_by_view(n: TreeNode)
    ensures
        node_json(n) == node_v_json(node_view(n)),
    decreases n, 0int,
{
    match n {
        TreeNode::File { name } => {
        },
        TreeNode::Directory { name, children } => {
            lemma_nodes_json_by_view(children@);
        },
    }
}

/// Serialization of a node sequence reads only its picture.
pub proof fn lemma_nodes_json_by_view(s: Seq<TreeNode>)
    ensures
        nodes_json(s) == nodes_v_json(nodes_view(s)),
    decreases s, 1int,
{
    if s.len() == 0 {
        assert(nodes_view(s) =~= Seq::<NodeV>::empty());
    } else {
        lemma_node_json_by_view(s[0]);
        lemma_nodes_json_rest_by_view(s.drop_first());
        assert(nodes_view(s)[0] == node_view(s[0]));
        assert(nodes_view(s).drop_first() =~= nodes_view(s.drop_first()));
    }
}

/// Serialization of the nodes after the first reads only their picture.
pub proof fn lemma_nodes_json_rest_by_view(s: Seq<TreeNode>)
    ensures
        nodes_json_rest(s) == nodes_v_json_rest(nodes_view(s)),
    decreases s, 0int,
{
    if s.len() == 0 {
        assert(nodes_view(s) =~= Seq::<NodeV>::empty());
    } else {
        lemma_node_json_by_view(s[0]);
        lemma_nodes_json_rest_by_view(s.drop_first());
        assert(nodes_view(s)[0] == node_view(s[0]));
        assert(nodes_view(s).drop_first() =~= nodes_view(s.drop_first()));
    }
}

/// Appends the JSON of one tree node to `out`.
pub fn append_node_json(out: &mut String, n: &TreeNode)
    ensures
        final(out)@ == old(out)@ + node_json(*n),
    decreases *n,
{
    match n {
        TreeNode::File { name } => {
            out.append("{\"type\":\"file\",\"name\":");
            append_quoted(out, name.as_str());
            out.append("}");
            proof {
                assert(out@ =~= old(out)@ + node_json(*n));
            }
        },
        TreeNode::Directory { name, children } => {
            out.append("{\"type\":\"directory\",\"name\":");
            append_quoted(out, name.as_str());
            out.append(",\"children\":[");
            let ghost base = out@;
            let len = children.len();
            let mut i: usize = 0;
            while i < len
                invariant
                    len == children@.len(),
                    i <= len,
                    out@ == base + nodes_json(children@.subrange(0, i as int)),
                    forall|k: int| 0 <= k < len ==> children@[k] == children@.subrange(0, len as int)[k],
                    *n == (TreeNode::Directory { name: *name, children: *children }),
                decreases len - i,
            {
                if i > 0 {
                    out.push(',');
                }
                proof {
                    assert(decreases_to!(*n => n->Directory_children));
                    assert(n->Directory_children == *children);
                    assert(decreases_to!(*children => children@));
                    assert(decreases_to!(children@ => children@[i as int]));
                }
                append_node_json(out, &children[i]);
                proof {
                    lemma_nodes_push(children@.subrange(0, i as int), children@[i as int]);
                    assert(children@.subrange(0, i + 1) =~= children@.subrange(
                        0,
                        i as int,
                    ).push(children@[i as int]));
                    assert(out@ =~= base + nodes_json(children@.subrange(0, i + 1)));
                }
                i += 1;
            }
            out.append("]}");
            proof {
                assert(children@.subrange(0, len as int) =~= children@);
                assert(out@ =~= old(out)@ + node_json(*n));
            }
        },
    }
}

/// Builds the structure body: the top-level nodes in one JSON array.
pub fn nodes_json_exec(nodes: &Vec<TreeNode>) -> (r: String)
    ensures
        r@ == seq!['['] + nodes_json(nodes@) + seq![']'],
{
    let mut out = String::new();
    out.push('[');
    let ghost base = out@;
    let len = nodes.len();
    let mut i: usize = 0;
    while i < len
        invariant
            len == nodes@.len(),
            i <= len,
            out@ == base + nodes_json(nodes@.subrange(0, i as int)),
        decreases len - i,
    {
        if i > 0 {
            out.push(',');
        }
        append_node_json(&mut out, &nodes[i]);
        proof {
            lemma_nodes_push(nodes@.subrange(0, i as int), nodes@[i as int]);
            assert(nodes@.subrange(0, i + 1) =~= nodes@.subrange(0, i as int).push(
                nodes@[i as int],
            ));
            assert(out@ =~= base + nodes_json(nodes@.subrange(0, i + 1)));
        }
        i += 1;
    }
    out.push(']');
    proof {
        assert(nodes@.subrange(0, len as int) =~= nodes@);
        assert(out@ =~= seq!['['] + nodes_json(nodes@) + seq![']']);
    }
    out
}

} // verus!
