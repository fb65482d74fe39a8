//! The boolean policy tree: a binary tree of AND/OR nodes over leaf
//! indices, with a compact byte encoding and an evaluator over a bitmask
//! of per-rule outcomes.
//!
//! Encoding, depth-first pre-order: a leaf is its index byte; an internal
//! node is the reserved `NULL` marker, an operator byte (1 = AND, 0 = OR),
//! then the left and right subtrees.

use vstd::prelude::*;

use crate::errors::BooleanTreeError;

verus! {

/// The reserved marker byte that opens an internal node; never a leaf index.
pub const NULL: u8 = 255;

/// Maximum serialized size of a policy tree, in bytes.
pub const TREE_MAX_SIZE: usize = 300;

/// One node of the policy tree.  A leaf carries an index below `NULL`;
/// an internal node carries `NULL`, an operator flag and two children.
#[derive(Debug, PartialEq, Eq)]
pub struct Node {
    /// Leaf index, or `NULL` for an internal node.
    pub i: u8,
    /// Operator of an internal node: `true` = AND, `false` = OR.
    pub is_and: bool,
    /// Left child of an internal node.
    pub left: Option<Box<Node>>,
    /// Right child of an internal node.
    pub right: Option<Box<Node>>,
}

/// A well-formed tree: internal nodes have exactly two well-formed
/// children; leaves have none and a canonical operator flag.
pub open spec fn wf(n: Node) -> bool
    decreases n,
{
    if n.i == NULL {
        &&& n.left matches Some(l) && wf(*l)
        &&& n.right matches Some(r) && wf(*r)
    } else {
        &&& n.left is None
        &&& n.right is None
        &&& !n.is_and
    }
}

/// The byte encoding of a tree, depth-first pre-order.
pub open spec fn spec_bytes(n: Node) -> Seq<u8>
    decreases n,
{
    if n.i != NULL {
        seq![n.i]
    } else {
        match (n.left, n.right) {
            (Some(l), Some(r)) => seq![NULL, if n.is_and { 1u8 } else { 0u8 }] + spec_bytes(*l)
                + spec_bytes(*r),
            _ => seq![NULL],
        }
    }
}

/// Outcome bit `index` of the bitmask; bits past the mask width are clear.
pub open spec fn spec_bit(mask: u64, index: u8) -> bool {
    index < 64 && 0 < mask & (1u64 << (index as u64))
}

/// The value of a tree under an outcome bitmask: a leaf is its outcome
/// bit; an internal node combines its children with AND or OR.
pub open spec fn spec_eval(n: Node, mask: u64) -> bool
    decreases n,
{
    if n.i != NULL {
        spec_bit(mask, n.i)
    } else {
        match (n.left, n.right) {
            (Some(l), Some(r)) => if n.is_and {
                spec_eval(*l, mask) && spec_eval(*r, mask)
            } else {
                spec_eval(*l, mask) || spec_eval(*r, mask)
            },
            _ => false,
        }
    }
}

/// Whether some leaf of the tree carries index `idx`.
pub open spec fn has_leaf(n: Node, idx: u8) -> bool
    decreases n,
{
    if n.i != NULL {
        n.i == idx
    } else {
        match (n.left, n.right) {
            (Some(l), Some(r)) => has_leaf(*l, idx) || has_leaf(*r, idx),
            _ => false,
        }
    }
}

/// The greatest leaf index of the tree.
pub open spec fn max_leaf(n: Node) -> u8
    decreases n,
{
    if n.i != NULL {
        n.i
    } else {
        match (n.left, n.right) {
            (Some(l), Some(r)) => if max_leaf(*l) >= max_leaf(*r) {
                max_leaf(*l)
            } else {
                max_leaf(*r)
            },
            _ => 0,
        }
    }
}

/// Every index up to the greatest leaf index appears on some leaf.
pub open spec fn covered(n: Node) -> bool {
    forall|j: u8| j <= max_leaf(n) ==> has_leaf(n, j)
}

impl Node {
    /// A fresh internal node with no children yet.
    pub fn new() -> (r: Node)
        ensures
            r.i == NULL,
            r.is_and,
            r.left is None,
            r.right is None,
    {
        Node { i: NULL, is_and: true, left: None, right: None }
    }

    /// An internal node over two subtrees.
    pub fn new_with_children(is_and: bool, left: Node, right: Node) -> (r: Node)
        ensures
            r == (Node {
                i: NULL,
                is_and,
                left: Some(Box::new(left)),
                right: Some(Box::new(right)),
            }),
    {
        Node { i: NULL, is_and, left: Some(Box::new(left)), right: Some(Box::new(right)) }
    }

    /// Turns this node into the leaf with index `i`.
    pub fn set_i(&mut self, i: u8)
        ensures
            *final(self) == (Node { i, is_and: false, left: None, right: None }),
    {
        self.i = i;
        self.is_and = false;
        self.left = None;
        self.right = None;
    }

    /// Makes this internal node an AND node.
    pub fn set_and(&mut self)
        ensures
            *final(self) == (Node { is_and: true, ..*old(self) }),
    {
        self.is_and = true;
    }

    /// Makes this internal node an OR node.
    pub fn set_or(&mut self)
        ensures
            *final(self) == (Node { is_and: false, ..*old(self) }),
    {
        self.is_and = false;
    }

    /// Replaces the left child, marking this node internal.
    pub fn set_left(&mut self, node: Option<Box<Node>>)
        ensures
            *final(self) == (Node { i: NULL, left: node, ..*old(self) }),
    {
        self.i = NULL;
        self.left = node;
    }

    /// Replaces the right child, marking this node internal.
    pub fn set_right(&mut self, node: Option<Box<Node>>)
        ensures
            *final(self) == (Node { i: NULL, right: node, ..*old(self) }),
    {
        self.i = NULL;
        self.right = node;
    }

    /// Serializes this tree into its byte encoding.
    pub fn serialize(&self) -> (r: Vec<u8>)
        requires
            wf(*self),
        ensures
            r@ == spec_bytes(*self),
    {
        let mut a: Vec<u8> = Vec::new();
        serialize_helper(Some(self), &mut a);
        a
    }
}

/// Serializes an optional tree into its byte encoding.
pub fn serialize(root: &Option<Node>) -> (r: Vec<u8>)
    requires
        root matches Some(n) ==> wf(*n),
    ensures
        r@ == (match *root {
            Some(n) => spec_bytes(n),
            None => Seq::<u8>::empty(),
        }),
{
    let mut a: Vec<u8> = Vec::new();
    let opt = match root {
        Some(n) => Some(n),
        None => None,
    };
    serialize_helper(opt, &mut a);
    a
}

/// Appends the byte encoding of an optional tree to `wtr`.
pub fn serialize_helper(root: Option<&Node>, wtr: &mut Vec<u8>)
    requires
        root matches Some(n) ==> wf(*n),
    ensures
        final(wtr)@ == old(wtr)@ + (match root {
            Some(n) => spec_bytes(*n),
            None => Seq::<u8>::empty(),
        }),
    decreases root,
{
    match root {
        Some(node) => {
            wtr.push(node.i);
            if node.i == NULL {
                if node.is_and {
                    wtr.push(1);
                } else {
                    wtr.push(0);
                }
                let left = match &node.left {
                    Some(b) => Some(&**b),
                    None => None,
                };
                serialize_helper(left, wtr);
                let right = match &node.right {
                    Some(b) => Some(&**b),
                    None => None,
                };
                serialize_helper(right, wtr);
                proof {
                    assert(wtr@ =~= old(wtr)@ + spec_bytes(*node));
                }
            } else {
                proof {
                    assert(wtr@ =~= old(wtr)@ + spec_bytes(*node));
                }
            }
        },
        None => {
            proof {
                assert(wtr@ =~= old(wtr)@ + Seq::<u8>::empty());
            }
        },
    }
}

/// Reads outcome bit `index` of the bitmask.
pub fn get_result(result: &u64, index: &u8) -> (r: bool)
    ensures
        r == spec_bit(*result, *index),
{
    if *index < 64 {
        0 < *result & (1u64 << ((*index) as u64))
    } else {
        false
    }
}

/// Evaluates an optional tree against an outcome bitmask; an absent root
/// reads outcome bit 0.
pub fn evaluate(count: &u8, root: &Option<Node>, result: &u64) -> (r: bool)
    requires
        *root matches Some(n) ==> wf(n),
    ensures
        r == (match *root {
            Some(n) => spec_eval(n, *result),
            None => spec_bit(*result, 0),
        }),
{
    match root {
        Some(x) => evaluate_helper(count, x, result),
        None => {
            let i: u8 = 0;
            get_result(result, &i)
        },
    }
}

/// Evaluates a well-formed tree against an outcome bitmask.
pub fn evaluate_helper(count: &u8, root: &Node, result: &u64) -> (r: bool)
    requires
        wf(*root),
    ensures
        r == spec_eval(*root, *result),
    decreases *root,
{
    let i = root.i;
    if i < NULL {
        get_result(result, &i)
    } else {
        let left = match &root.left {
            Some(b) => evaluate_helper(count, &**b, result),
            None => false,
        };
        let right = match &root.right {
            Some(b) => evaluate_helper(count, &**b, result),
            None => false,
        };
        if root.is_and {
            left && right
        } else {
            left || right
        }
    }
}

/// The recursive parser, with explicit fuel to bound unfolding; any fuel
/// above the number of remaining bytes gives the parse's true result.
pub open spec fn parse_node(data: Seq<u8>, pos: int, fuel: nat) -> Result<
    (Node, int),
    BooleanTreeError,
>
    decreases fuel,
{
    if fuel == 0 {
        Err(BooleanTreeError::FailedToRead)
    } else if pos < 0 || data.len() <= pos {
        Err(BooleanTreeError::FailedToRead)
    } else if data[pos] != NULL {
        Ok((Node { i: data[pos], is_and: false, left: None, right: None }, pos + 1))
    } else if data.len() <= pos + 1 {
        Err(BooleanTreeError::Unknown)
    } else if data[pos + 1] != 0 && data[pos + 1] != 1 {
        Err(BooleanTreeError::BadBoolean)
    } else {
        match parse_node(data, pos + 2, (fuel - 1) as nat) {
            Err(e) => Err(e),
            Ok((l, pos1)) => match parse_node(data, pos1, (fuel - 1) as nat) {
                Err(e) => Err(e),
                Ok((r, pos2)) => Ok(
                    (
                        Node {
                            i: NULL,
                            is_and: data[pos + 1] == 1,
                            left: Some(Box::new(l)),
                            right: Some(Box::new(r)),
                        },
                        pos2,
                    ),
                ),
            },
        }
    }
}

/// The parse of the bytes from `pos` on: one node and the position after it.
pub open spec fn spec_parse(data: Seq<u8>, pos: int) -> Result<(Node, int), BooleanTreeError> {
    parse_node(data, pos, (data.len() - pos + 1) as nat)
}

/// A successful parse yields a well-formed tree whose encoding is exactly
/// the bytes it consumed.
pub proof fn lemma_parse_advances(data: Seq<u8>, pos: int, fuel: nat)
    requires
        0 <= pos,
    ensures
        parse_node(data, pos, fuel) matches Ok((t, p2)) ==> {
            &&& pos < p2 <= data.len()
            &&& wf(t)
            &&& p2 - pos == spec_bytes(t).len()
            &&& data.subrange(pos, p2) == spec_bytes(t)
        },
    decreases fuel,
{
    if fuel == 0 || data.len() <= pos {
    } else if data[pos] != NULL {
        match parse_node(data, pos, fuel) {
            Ok((t, p2)) => {
                assert(data.subrange(pos, pos + 1) =~= spec_bytes(t));
            },
            Err(_) => {},
        }
    } else if data.len() <= pos + 1 || (data[pos + 1] != 0 && data[pos + 1] != 1) {
    } else {
        lemma_parse_advances(data, pos + 2, (fuel - 1) as nat);
        match parse_node(data, pos + 2, (fuel - 1) as nat) {
            Ok((l, pos1)) => {
                lemma_parse_advances(data, pos1, (fuel - 1) as nat);
                match parse_node(data, pos1, (fuel - 1) as nat) {
                    Ok((r, pos2)) => {
                        let t = Node {
                            i: NULL,
                            is_and: data[pos + 1] == 1,
                            left: Some(Box::new(l)),
                            right: Some(Box::new(r)),
                        };
                        assert(data.subrange(pos, pos2) =~= seq![
                            NULL,
                            if t.is_and { 1u8 } else { 0u8 },
                        ] + data.subrange(pos + 2, pos1) + data.subrange(pos1, pos2));
                        assert(data.subrange(pos, pos2) == spec_bytes(t));
                    },
                    Err(_) => {},
                }
            },
            Err(_) => {},
        }
    }
}

/// The parse result does not depend on the fuel, once the fuel exceeds
/// the number of remaining bytes.
pub proof fn lemma_parse_fuel(data: Seq<u8>, pos: int, f1: nat, f2: nat)
    requires
        0 <= pos,
        f1 > data.len() - pos,
        f2 > data.len() - pos,
    ensures
        parse_node(data, pos, f1) == parse_node(data, pos, f2),
    decreases f1 + f2,
{
    if data.len() <= pos {
    } else if data[pos] != NULL {
    } else if data.len() <= pos + 1 || (data[pos + 1] != 0 && data[pos + 1] != 1) {
    } else {
        lemma_parse_fuel(data, pos + 2, (f1 - 1) as nat, (f2 - 1) as nat);
        match parse_node(data, pos + 2, (f1 - 1) as nat) {
            Ok((l, pos1)) => {
                lemma_parse_advances(data, pos + 2, (f1 - 1) as nat);
                lemma_parse_fuel(data, pos1, (f1 - 1) as nat, (f2 - 1) as nat);
            },
            Err(_) => {},
        }
    }
}

/// The encoding of any tree is at least one byte long.
pub proof fn lemma_bytes_nonempty(t: Node)
    ensures
        spec_bytes(t).len() >= 1,
{
    if t.i != NULL {
    } else {
        match (t.left, t.right) {
            (Some(l), Some(r)) => {},
            _ => {},
        }
    }
}

/// Parsing the encoding of a well-formed tree, embedded at `pos`, yields
/// exactly that tree and stops exactly after its bytes.
pub proof fn lemma_parse_serialized(data: Seq<u8>, pos: int, t: Node, fuel: nat)
    requires
        wf(t),
        0 <= pos,
        pos + spec_bytes(t).len() <= data.len(),
        data.subrange(pos, pos + spec_bytes(t).len() as int) == spec_bytes(t),
        fuel > data.len() - pos,
    ensures
        parse_node(data, pos, fuel) == Ok::<(Node, int), BooleanTreeError>(
            (t, pos + spec_bytes(t).len() as int),
        ),
    decreases t,
{
    if t.i == NULL {
        let l = *t.left.unwrap();
        let r = *t.right.unwrap();
        let bl = spec_bytes(l);
        let br = spec_bytes(r);
        assert(spec_bytes(t) == seq![NULL, if t.is_and { 1u8 } else { 0u8 }] + bl + br);
        lemma_bytes_nonempty(l);
        lemma_bytes_nonempty(r);
        assert(data[pos] == spec_bytes(t)[0]);
        assert(data[pos + 1] == spec_bytes(t)[1]);
        let pos1 = pos + 2 + bl.len() as int;
        let pos2 = pos1 + br.len() as int;
        assert(data.subrange(pos + 2, pos1) =~= bl) by {
            assert forall|k: int| 0 <= k < bl.len() implies data.subrange(pos + 2, pos1)[k] == bl[k]
            by {
                assert(data.subrange(pos + 2, pos1)[k] == data[pos + 2 + k]);
                assert(data[pos + 2 + k] == data.subrange(pos, pos + spec_bytes(t).len() as int)[
                    2 + k]);
            }
        }
        lemma_parse_serialized(data, pos + 2, l, (fuel - 1) as nat);
        assert(data.subrange(pos1, pos2) =~= br) by {
            assert forall|k: int| 0 <= k < br.len() implies data.subrange(pos1, pos2)[k] == br[k]
            by {
                assert(data.subrange(pos1, pos2)[k] == data[pos1 + k]);
                assert(data[pos1 + k] == data.subrange(pos, pos + spec_bytes(t).len() as int)[2
                    + bl.len() + k]);
            }
        }
        lemma_parse_serialized(data, pos1, r, (fuel - 1) as nat);
    } else {
        assert(spec_bytes(t) == seq![t.i]);
        assert(data[pos] == spec_bytes(t)[0]);
    }
}

/// Round trip: the encoding of a well-formed tree parses back to exactly
/// that tree, consuming all of its bytes.
pub proof fn lemma_round_trip(t: Node)
    requires
        wf(t),
    ensures
        spec_parse(spec_bytes(t), 0) == Ok::<(Node, int), BooleanTreeError>(
            (t, spec_bytes(t).len() as int),
        ),
{
    let data = spec_bytes(t);
    assert(data.subrange(0, data.len() as int) =~= data);
    lemma_parse_serialized(data, 0, t, (data.len() + 1) as nat);
}

/// Parses one node from `data` starting at `pos`, returning the node and
/// the position just past its encoding.
pub fn deserialize_helper(data: &[u8], pos: usize) -> (r: Result<(Node, usize), BooleanTreeError>)
    requires
        pos <= data@.len(),
    ensures
        (match r {
            Ok((t, p2)) => spec_parse(data@, pos as int) == Ok::<(Node, int), BooleanTreeError>(
                (t, p2 as int),
            ) && pos < p2 <= data@.len(),
            Err(e) => spec_parse(data@, pos as int) == Err::<(Node, int), BooleanTreeError>(e),
        }),
    decreases data@.len() - pos,
{
    let ghost len = data@.len() as int;
    let ghost p = pos as int;
    if pos >= data.len() {
        return Err(BooleanTreeError::FailedToRead);
    }
    let b = data[pos];
    if b != NULL {
        let n = Node { i: b, is_and: false, left: None, right: None };
        return Ok((n, pos + 1));
    }
    if pos + 1 >= data.len() {
        return Err(BooleanTreeError::Unknown);
    }
    let op = data[pos + 1];
    if op != 0 && op != 1 {
        return Err(BooleanTreeError::BadBoolean);
    }
    proof {
        lemma_parse_fuel(data@, p + 2, (len - p) as nat, (len - p - 1) as nat);
    }
    let left_res = deserialize_helper(data, pos + 2);
    let (ln, pos1) = match left_res {
        Ok(x) => x,
        Err(e) => {
            return Err(e);
        },
    };
    proof {
        lemma_parse_fuel(data@, pos1 as int, (len - p) as nat, (len - pos1 + 1) as nat);
    }
    let right_res = deserialize_helper(data, pos1);
    match right_res {
        Ok((rn, pos2)) => Ok(
            (
                Node {
                    i: NULL,
                    is_and: op == 1,
                    left: Some(Box::new(ln)),
                    right: Some(Box::new(rn)),
                },
                pos2,
            ),
        ),
        Err(e) => Err(e),
    }
}

/// The exact decoding error for bytes that do not decode to a covered
/// tree: a parse error is passed through; trailing bytes are an index
/// error; a gap in the leaf indices is the unclassified error.
pub open spec fn spec_decode_err(data: Seq<u8>, e: BooleanTreeError) -> bool {
    match spec_parse(data, 0) {
        Err(pe) => e == pe,
        Ok((t2, p)) => if p < data.len() {
            e == BooleanTreeError::IndexOutOfRange
        } else {
            !covered(t2) && e == BooleanTreeError::Unknown
        },
    }
}

/// Decodes a serialized policy tree.  Fails if the bytes do not encode a
/// complete tree, if bytes trail the tree, or if the leaf indices do not
/// cover `0..=max` contiguously.  On success, returns the tree and the
/// declared rule count, one past the greatest leaf index.
pub fn deserialize(data: &Vec<u8>) -> (r: Result<(Node, u8), BooleanTreeError>)
    ensures
        (match r {
            Ok((t, c)) => {
                &&& spec_parse(data@, 0) matches Ok((t2, p)) && t2 == t && p == data@.len()
                &&& wf(t)
                &&& covered(t)
                &&& c == max_leaf(t) + 1
            },
            Err(e) => spec_decode_err(data@, e),
        }),
{
    let parsed = deserialize_helper(data.as_slice(), 0);
    let (t, p) = match parsed {
        Ok(x) => x,
        Err(e) => {
            return Err(e);
        },
    };
    proof {
        lemma_parse_advances(data@, 0, (data@.len() + 1) as nat);
    }
    if p < data.len() {
        return Err(BooleanTreeError::IndexOutOfRange);
    }
    let mut seen: Vec<bool> = Vec::new();
    while seen.len() < 255
        invariant
            seen@.len() <= 255,
            forall|k: int| 0 <= k < seen@.len() ==> !seen@[k],
        decreases 255 - seen@.len(),
    {
        seen.push(false);
    }
    mark_leaves(&t, &mut seen);
    let m = tree_max_leaf(&t);
    proof {
        lemma_max_leaf_bound(t);
    }
    let mut j: usize = 0;
    while j <= m as usize
        invariant
            wf(t),
            spec_parse(data@, 0) == Ok::<(Node, int), BooleanTreeError>((t, data@.len() as int)),
            j <= m as usize + 1,
            seen@.len() == 255,
            m == max_leaf(t),
            m < 255,
            forall|k: int| 0 <= k < 255 ==> seen@[k] == has_leaf(t, #[trigger] (k as u8)),
            forall|k: int| 0 <= k < j ==> has_leaf(t, #[trigger] (k as u8)),
        decreases m as usize + 1 - j,
    {
        if !seen[j] {
            proof {
                assert(!has_leaf(t, j as u8));
                assert(j as u8 <= max_leaf(t));
            }
            return Err(BooleanTreeError::Unknown);
        }
        j = j + 1;
    }
    proof {
        assert forall|idx: u8| idx <= max_leaf(t) implies has_leaf(t, idx) by {
            assert(has_leaf(t, (idx as int) as u8));
        }
    }
    Ok((t, m + 1))
}

/// Marks, for every leaf index of the tree, the matching entry of `seen`.
fn mark_leaves(n: &Node, seen: &mut Vec<bool>)
    requires
        wf(*n),
        old(seen)@.len() == 255,
    ensures
        final(seen)@.len() == 255,
        forall|j: int|
            0 <= j < 255 ==> final(seen)@[j] == (old(seen)@[j] || has_leaf(*n, j as u8)),
    decreases *n,
{
    if n.i < NULL {
        let idx = n.i as usize;
        seen[idx] = true;
    } else {
        match (&n.left, &n.right) {
            (Some(l), Some(r)) => {
                mark_leaves(&**l, seen);
                mark_leaves(&**r, seen);
            },
            _ => {
                proof {
                    assert(false);
                }
            },
        }
    }
}

/// Computes the greatest leaf index of a well-formed tree.
fn tree_max_leaf(n: &Node) -> (r: u8)
    requires
        wf(*n),
    ensures
        r == max_leaf(*n),
    decreases *n,
{
    if n.i < NULL {
        n.i
    } else {
        match (&n.left, &n.right) {
            (Some(l), Some(r)) => {
                let a = tree_max_leaf(&**l);
                let b = tree_max_leaf(&**r);
                if a >= b {
                    a
                } else {
                    b
                }
            },
            _ => {
                proof {
                    assert(false);
                }
                0
            },
        }
    }
}

/// The tree encoding is injective: two well-formed trees with the same
/// bytes are the same tree.
pub proof fn lemma_bytes_injective(t1: Node, t2: Node)
    requires
        wf(t1),
        wf(t2),
        spec_bytes(t1) == spec_bytes(t2),
    ensures
        t1 == t2,
{
    lemma_round_trip(t1);
    lemma_round_trip(t2);
}

/// A single-leaf tree evaluates to exactly its leaf's outcome bit.
pub proof fn lemma_eval_single_leaf(i: u8, mask: u64)
    ensures
        spec_eval((Node { i, is_and: false, left: None, right: None }), mask) == spec_bit(mask, i),
{
}

/// No well-formed leaf carries an index at or above the marker byte.
pub proof fn lemma_max_leaf_bound(t: Node)
    requires
        wf(t),
    ensures
        max_leaf(t) < NULL,
    decreases t,
{
    if t.i == NULL {
        lemma_max_leaf_bound(*t.left.unwrap());
        lemma_max_leaf_bound(*t.right.unwrap());
    }
}

} // verus!
