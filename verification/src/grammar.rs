//! The grammar of Brainfreak source, stated over the bytes of the text.
//!
//! The eight symbols are ASCII, so each is one byte of the UTF-8 text and
//! no byte of a longer character can be taken for one. An offset into the
//! text is therefore an index into its bytes.

use vstd::prelude::*;
use crate::tree::{leaf_count, leaves_in, loop_count, loops_in, Node};

verus! {

/// The byte `+`.
pub const DATA_INC: u8 = 0x2B;

/// The byte `-`.
pub const DATA_DEC: u8 = 0x2D;

/// The byte `>`.
pub const PTR_INC: u8 = 0x3E;

/// The byte `<`.
pub const PTR_DEC: u8 = 0x3C;

/// The byte `.`.
pub const OUTPUT: u8 = 0x2E;

/// The byte `,`.
pub const INPUT: u8 = 0x2C;

/// The byte `[`.
pub const LOOP_OPEN: u8 = 0x5B;

/// The byte `]`.
pub const LOOP_CLOSE: u8 = 0x5D;

/// The node that a byte stands for by itself, if it is one of the six
/// symbols that are not brackets.
pub open spec fn leaf(b: u8) -> Option<Node> {
    if b == DATA_INC {
        Some(Node::DataInc)
    } else if b == DATA_DEC {
        Some(Node::DataDec)
    } else if b == PTR_INC {
        Some(Node::PtrInc)
    } else if b == PTR_DEC {
        Some(Node::PtrDec)
    } else if b == OUTPUT {
        Some(Node::Output)
    } else if b == INPUT {
        Some(Node::Input)
    } else {
        None
    }
}

/// What reading a stretch of source gives.
pub struct Run {
    /// The nodes read, in source order. Empty when a bracket is unmatched.
    pub nodes: Seq<Node>,
    /// The offset at which reading stopped.
    pub end: int,
    /// The offset of a `[` that has no `]`, if reading ran into one.
    pub unmatched: Option<int>,
}

/// Reads what starts at `pos`: one byte, or a whole loop when the byte is `[`.
///
/// A `]` read here closes nothing and, like any byte that is no symbol,
/// gives no node.
pub open spec fn read_item(s: Seq<u8>, pos: int) -> Run
    recommends
        0 <= pos < s.len(),
    decreases s.len() - pos, 0int,
{
    if !(0 <= pos < s.len()) {
        Run { nodes: Seq::empty(), end: pos, unmatched: None }
    } else if s[pos] == LOOP_OPEN {
        let body = read_items(s, pos + 1, true);
        if body.unmatched is Some {
            Run { nodes: Seq::empty(), end: s.len() as int, unmatched: body.unmatched }
        } else if body.end < s.len() {
            Run { nodes: seq![Node::Loop(body.nodes)], end: body.end + 1, unmatched: None }
        } else {
            Run { nodes: Seq::empty(), end: s.len() as int, unmatched: Some(pos) }
        }
    } else {
        match leaf(s[pos]) {
            Some(node) => Run { nodes: seq![node], end: pos + 1, unmatched: None },
            None => Run { nodes: Seq::empty(), end: pos + 1, unmatched: None },
        }
    }
}

/// Reads items from `pos` up to the end of the source or, inside a loop
/// (`nested`), up to the `]` that closes it, which is left unread.
pub open spec fn read_items(s: Seq<u8>, pos: int, nested: bool) -> Run
    decreases s.len() - pos, 1int,
{
    if !(0 <= pos < s.len()) || (nested && s[pos] == LOOP_CLOSE) {
        Run { nodes: Seq::empty(), end: pos, unmatched: None }
    } else {
        let first = read_item(s, pos);
        if first.unmatched is Some {
            first
        } else if !(pos < first.end <= s.len()) {
            Run { nodes: Seq::empty(), end: pos, unmatched: None }
        } else {
            let rest = read_items(s, first.end, nested);
            Run {
                nodes: if rest.unmatched is Some {
                    Seq::empty()
                } else {
                    first.nodes + rest.nodes
                },
                end: rest.end,
                unmatched: rest.unmatched,
            }
        }
    }
}

/// The result of parsing the whole of `s`: its nodes, or the offset of
/// the unmatched `[`.
pub open spec fn parse_source(s: Seq<u8>) -> Result<Seq<Node>, int> {
    let run = read_items(s, 0, false);
    match run.unmatched {
        Some(at) => Err(at),
        None => Ok(run.nodes),
    }
}

/// Reading an item moves forward, and stays inside the source.
pub proof fn lemma_read_item_advances(s: Seq<u8>, pos: int)
    requires
        0 <= pos < s.len(),
    ensures
        pos < read_item(s, pos).end <= s.len(),
        read_item(s, pos).unmatched is Some ==> read_item(s, pos).end == s.len(),
{
    if s[pos] == LOOP_OPEN {
        lemma_read_items_advances(s, pos + 1, true);
    }
}

/// Reading items never moves back, and stays inside the source.
pub proof fn lemma_read_items_advances(s: Seq<u8>, pos: int, nested: bool)
    requires
        0 <= pos <= s.len(),
    ensures
        pos <= read_items(s, pos, nested).end <= s.len(),
        read_items(s, pos, nested).unmatched is Some ==> read_items(s, pos, nested).end == s.len(),
        read_items(s, pos, nested).unmatched is None && read_items(s, pos, nested).end < s.len()
            ==> nested && s[read_items(s, pos, nested).end] == LOOP_CLOSE,
    decreases s.len() - pos,
{
    if !(0 <= pos < s.len()) || (nested && s[pos] == LOOP_CLOSE) {
    } else {
        let first = read_item(s, pos);
        if s[pos] == LOOP_OPEN {
            lemma_read_items_advances(s, pos + 1, true);
        }
        if first.unmatched is None {
            lemma_read_items_advances(s, first.end, nested);
        }
    }
}

/// The offsets of the `[` among the first `n` bytes of `s` that are still
/// open after those bytes, the innermost last. A `]` closes the innermost
/// open `[`; where none is open it closes nothing.
pub open spec fn open_brackets(s: Seq<u8>, n: int) -> Seq<int>
    decreases n,
{
    if n <= 0 {
        Seq::empty()
    } else {
        let before = open_brackets(s, n - 1);
        if s[n - 1] == LOOP_OPEN {
            before.push(n - 1)
        } else if s[n - 1] == LOOP_CLOSE && before.len() > 0 {
            before.drop_last()
        } else {
            before
        }
    }
}

/// Every `]` of `s` closes a `[`, and every `[` is closed.
pub open spec fn balanced(s: Seq<u8>) -> bool {
    &&& open_brackets(s, s.len() as int).len() == 0
    &&& forall|i: int|
        0 <= i < s.len() && s[i] == LOOP_CLOSE ==> (#[trigger] open_brackets(s, i)).len() > 0
}

/// The number of bytes among the first `n` of `s` that are one of the six
/// symbols that are not brackets.
pub open spec fn leaf_bytes(s: Seq<u8>, n: int) -> nat
    decreases n,
{
    if n <= 0 {
        0
    } else {
        leaf_bytes(s, n - 1) + if leaf(s[n - 1]) is Some {
            1nat
        } else {
            0nat
        }
    }
}

/// The number of bytes among the first `n` of `s` that are `[`.
pub open spec fn open_bytes(s: Seq<u8>, n: int) -> nat
    decreases n,
{
    if n <= 0 {
        0
    } else {
        open_bytes(s, n - 1) + if s[n - 1] == LOOP_OPEN {
            1nat
        } else {
            0nat
        }
    }
}

/// The leaves of two runs of nodes add up, and so do their loops.
pub proof fn lemma_counts_add(a: Seq<Node>, b: Seq<Node>)
    ensures
        leaf_count(a + b) == leaf_count(a) + leaf_count(b),
        loop_count(a + b) == loop_count(a) + loop_count(b),
    decreases b.len(),
{
    if b.len() == 0 {
        assert(a + b == a);
    } else {
        assert((a + b).drop_last() == a + b.drop_last());
        lemma_counts_add(a, b.drop_last());
    }
}

/// A run of one node has the leaves and the loops of that node.
pub proof fn lemma_counts_one(node: Node)
    ensures
        leaf_count(seq![node]) == leaves_in(node),
        loop_count(seq![node]) == loops_in(node),
{
    assert(seq![node].drop_last() == Seq::<Node>::empty());
    assert(leaf_count(seq![node]) == leaf_count(seq![node].drop_last()) + leaves_in(node));
    assert(loop_count(seq![node]) == loop_count(seq![node].drop_last()) + loops_in(node));
}

/// What reading an item does to the open brackets, and what it counts.
///
/// Where the item is read in full, the brackets open after it are those
/// open before it, and its nodes hold one leaf for each symbol byte and one
/// loop for each `[` that was read. Where a bracket is unmatched, it is
/// the innermost bracket open at the end of the source.
pub proof fn lemma_read_item(s: Seq<u8>, pos: int)
    requires
        0 <= pos < s.len(),
        s[pos] == LOOP_CLOSE ==> open_brackets(s, pos).len() == 0,
    ensures
        ({
            let item = read_item(s, pos);
            match item.unmatched {
                Some(at) => open_brackets(s, s.len() as int).len() > 0 && open_brackets(
                    s,
                    s.len() as int,
                ).last() == at,
                None => {
                    &&& open_brackets(s, item.end) == open_brackets(s, pos)
                    &&& leaf_count(item.nodes) == leaf_bytes(s, item.end) - leaf_bytes(s, pos)
                    &&& loop_count(item.nodes) == open_bytes(s, item.end) - open_bytes(s, pos)
                },
            }
        }),
    decreases s.len() - pos, 0int,
{
    let item = read_item(s, pos);
    if s[pos] == LOOP_OPEN {
        let body = read_items(s, pos + 1, true);
        lemma_read_items_advances(s, pos + 1, true);
        lemma_read_items(s, pos + 1, true);
        if body.unmatched is None && body.end < s.len() {
            lemma_counts_one(Node::Loop(body.nodes));
        }
    } else {
        match leaf(s[pos]) {
            Some(node) => {
                lemma_counts_one(node);
            },
            None => {},
        }
    }
}

/// What reading items does to the open brackets, and what it counts: as
/// for one item.
pub proof fn lemma_read_items(s: Seq<u8>, pos: int, nested: bool)
    requires
        0 <= pos <= s.len(),
        nested <==> open_brackets(s, pos).len() > 0,
    ensures
        ({
            let run = read_items(s, pos, nested);
            match run.unmatched {
                Some(at) => open_brackets(s, s.len() as int).len() > 0 && open_brackets(
                    s,
                    s.len() as int,
                ).last() == at,
                None => {
                    &&& open_brackets(s, run.end) == open_brackets(s, pos)
                    &&& leaf_count(run.nodes) == leaf_bytes(s, run.end) - leaf_bytes(s, pos)
                    &&& loop_count(run.nodes) == open_bytes(s, run.end) - open_bytes(s, pos)
                },
            }
        }),
    decreases s.len() - pos, 1int,
{
    if !(0 <= pos < s.len()) || (nested && s[pos] == LOOP_CLOSE) {
    } else {
        let first = read_item(s, pos);
        lemma_read_item_advances(s, pos);
        lemma_read_item(s, pos);
        if first.unmatched is None {
            lemma_read_items(s, first.end, nested);
            let rest = read_items(s, first.end, nested);
            if rest.unmatched is None {
                lemma_counts_add(first.nodes, rest.nodes);
            }
        }
    }
}

/// Parsing fails exactly when a `[` is left open at the end of the source,
/// and the offset it reports is that of the innermost such `[`.
pub proof fn lemma_unmatched_bracket_is_reported(s: Seq<u8>)
    ensures
        parse_source(s) is Err <==> open_brackets(s, s.len() as int).len() > 0,
        parse_source(s) matches Err(at) ==> at == open_brackets(s, s.len() as int).last() && 0
            <= at < s.len() && s[at] == LOOP_OPEN,
{
    lemma_read_items(s, 0, false);
    lemma_read_items_advances(s, 0, false);
    lemma_open_brackets_are_open(s, s.len() as int);
}

/// Each open bracket is the offset of a `[` among the bytes read.
pub proof fn lemma_open_brackets_are_open(s: Seq<u8>, n: int)
    requires
        0 <= n <= s.len(),
    ensures
        forall|k: int|
            0 <= k < open_brackets(s, n).len() ==> 0 <= (#[trigger] open_brackets(s, n)[k]) < n
                && s[open_brackets(s, n)[k]] == LOOP_OPEN,
    decreases n,
{
    if n > 0 {
        lemma_open_brackets_are_open(s, n - 1);
        let before = open_brackets(s, n - 1);
        let now = open_brackets(s, n);
        assert forall|k: int| 0 <= k < now.len() implies 0 <= (#[trigger] now[k]) < n && s[now[k]]
            == LOOP_OPEN by {
            if k < before.len() {
                assert(now[k] == before[k]);
            }
        }
    }
}

/// Parsing a source whose brackets are balanced succeeds, and gives one
/// leaf for each symbol byte that is not a bracket and one loop for each
/// `[`.
pub proof fn lemma_balanced_source_parses(s: Seq<u8>)
    requires
        balanced(s),
    ensures
        parse_source(s) is Ok,
        leaf_count(parse_source(s)->Ok_0) == leaf_bytes(s, s.len() as int),
        loop_count(parse_source(s)->Ok_0) == open_bytes(s, s.len() as int),
{
    lemma_read_items(s, 0, false);
    lemma_read_items_advances(s, 0, false);
}

} // verus!
