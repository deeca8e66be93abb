//! Edit operations and their application to document content.
//!
//! Content is addressed at character (code point) granularity: a document
//! body is a sequence of `char`, and every offset counts characters, never
//! bytes. This is a hard contract of the whole crate; mixing in byte offsets
//! would corrupt multi-byte text.

use vstd::prelude::*;

verus! {

/// One atomic edit instruction, immutable once constructed.
///
/// `Insert` places `data` before the character at `offset`; offset `0`
/// prepends and offset `len(content)` appends. `Delete` removes `length`
/// characters starting at `offset`.
pub enum Operation {
    Insert { offset: usize, data: Vec<char> },
    Delete { offset: usize, length: usize },
}

/// Mathematical form of an [`Operation`], used by every contract.
pub enum OpView {
    Insert { offset: int, data: Seq<char> },
    Delete { offset: int, length: int },
}

impl View for Operation {
    type V = OpView;

    open spec fn view(&self) -> OpView {
        match self {
            Operation::Insert { offset, data } => OpView::Insert {
                offset: *offset as int,
                data: data@,
            },
            Operation::Delete { offset, length } => OpView::Delete {
                offset: *offset as int,
                length: *length as int,
            },
        }
    }
}

/// An equal copy of a character vector.
pub fn copy_chars(src: &Vec<char>) -> (r: Vec<char>)
    ensures
        r@ == src@,
{
    let mut out: Vec<char> = Vec::new();
    let mut i: usize = 0;
    while i < src.len()
        invariant
            i <= src@.len(),
            out@ == src@.take(i as int),
        decreases src@.len() - i,
    {
        out.push(src[i]);
        proof {
            assert(out@ =~= src@.take(i + 1 as int));
        }
        i = i + 1;
    }
    proof {
        assert(out@ =~= src@);
    }
    out
}

impl Operation {
    /// An equal copy. Operations are value objects: they are copied to the
    /// change log and to every broadcast recipient, never shared or mutated.
    pub fn duplicate(&self) -> (r: Operation)
        ensures
            r@ == self@,
    {
        match self {
            Operation::Insert { offset, data } => Operation::Insert {
                offset: *offset,
                data: copy_chars(data),
            },
            Operation::Delete { offset, length } => Operation::Delete {
                offset: *offset,
                length: *length,
            },
        }
    }
}

/// Why [`apply`] rejected an operation.
#[derive(PartialEq, Eq, Structural, Clone, Copy, Debug)]
pub enum ApplyError {
    /// The operation addresses positions beyond the end of the content.
    OutOfBounds,
}

/// Whether every position `op` addresses exists in `content`.
pub open spec fn op_valid(content: Seq<char>, op: OpView) -> bool {
    match op {
        OpView::Insert { offset, data } => 0 <= offset <= content.len(),
        OpView::Delete { offset, length } => {
            &&& 0 <= offset
            &&& 0 <= length
            &&& offset + length <= content.len()
        },
    }
}

/// The content a valid operation produces.
pub open spec fn spec_apply(content: Seq<char>, op: OpView) -> Seq<char> {
    match op {
        OpView::Insert { offset, data } => content.take(offset) + data + content.skip(offset),
        OpView::Delete { offset, length } => content.take(offset) + content.skip(offset + length),
    }
}

/// By how many characters an operation changes the content length.
pub open spec fn op_delta(op: OpView) -> int {
    match op {
        OpView::Insert { offset, data } => data.len() as int,
        OpView::Delete { offset, length } => -length,
    }
}

/// Applies one operation to `content`, or reports exactly why it cannot be
/// applied. Pure: no knowledge of sessions or persistence, and never panics
/// and never clamps an out-of-range offset.
pub fn apply(content: &Vec<char>, op: &Operation) -> (r: Result<Vec<char>, ApplyError>)
    ensures
        r is Ok <==> op_valid(content@, op@),
        r matches Ok(c) ==> c@ == spec_apply(content@, op@),
        r matches Err(e) ==> e == ApplyError::OutOfBounds,
{
    match op {
        Operation::Insert { offset, data } => {
            let off: usize = *offset;
            if off > content.len() {
                return Err(ApplyError::OutOfBounds);
            }
            let mut out: Vec<char> = Vec::new();
            let mut i: usize = 0;
            while i < off
                invariant
                    i <= off <= content@.len(),
                    out@ == content@.take(i as int),
                decreases off - i,
            {
                out.push(content[i]);
                proof {
                    assert(out@ =~= content@.take(i + 1 as int));
                }
                i = i + 1;
            }
            let mut j: usize = 0;
            while j < data.len()
                invariant
                    j <= data@.len(),
                    off <= content@.len(),
                    out@ == content@.take(off as int) + data@.take(j as int),
                decreases data@.len() - j,
            {
                out.push(data[j]);
                proof {
                    assert(out@ =~= content@.take(off as int) + data@.take(j + 1 as int));
                }
                j = j + 1;
            }
            let mut k: usize = off;
            while k < content.len()
                invariant
                    off <= k <= content@.len(),
                    out@ == content@.take(off as int) + data@ + content@.subrange(
                        off as int,
                        k as int,
                    ),
                decreases content@.len() - k,
            {
                out.push(content[k]);
                proof {
                    assert(out@ =~= content@.take(off as int) + data@ + content@.subrange(
                        off as int,
                        k + 1 as int,
                    ));
                }
                k = k + 1;
            }
            proof {
                assert(out@ =~= spec_apply(content@, op@));
            }
            Ok(out)
        },
        Operation::Delete { offset, length } => {
            let off: usize = *offset;
            let len: usize = *length;
            if off > content.len() || len > content.len() - off {
                return Err(ApplyError::OutOfBounds);
            }
            let mut out: Vec<char> = Vec::new();
            let mut i: usize = 0;
            while i < off
                invariant
                    i <= off,
                    off + len <= content@.len(),
                    out@ == content@.take(i as int),
                decreases off - i,
            {
                out.push(content[i]);
                proof {
                    assert(out@ =~= content@.take(i + 1 as int));
                }
                i = i + 1;
            }
            let mut k: usize = off + len;
            while k < content.len()
                invariant
                    off + len <= k <= content@.len(),
                    out@ == content@.take(off as int) + content@.subrange(
                        off + len as int,
                        k as int,
                    ),
                decreases content@.len() - k,
            {
                out.push(content[k]);
                proof {
                    assert(out@ =~= content@.take(off as int) + content@.subrange(
                        off + len as int,
                        k + 1 as int,
                    ));
                }
                k = k + 1;
            }
            proof {
                assert(out@ =~= spec_apply(content@, op@));
            }
            Ok(out)
        },
    }
}

/// A valid operation changes the content length by exactly its delta.
pub proof fn lemma_apply_length(content: Seq<char>, op: OpView)
    requires
        op_valid(content, op),
    ensures
        spec_apply(content, op).len() == content.len() + op_delta(op),
{
}

/// Law: a valid insert keeps the prefix before the offset, places the
/// inserted data exactly at the offset, and shifts the remainder right by
/// the length of the data; the result is longer by exactly that length.
pub proof fn lemma_insert_shape(content: Seq<char>, offset: int, data: Seq<char>)
    requires
        0 <= offset <= content.len(),
    ensures
        spec_apply(content, OpView::Insert { offset, data }).len() == content.len() + data.len(),
        forall|i: int|
            0 <= i < offset ==> spec_apply(content, OpView::Insert { offset, data })[i]
                == content[i],
        forall|i: int|
            0 <= i < data.len() ==> spec_apply(content, OpView::Insert { offset, data })[offset
                + i] == data[i],
        forall|i: int|
            offset <= i < content.len() ==> spec_apply(content, OpView::Insert { offset, data })[i
                + data.len()] == content[i],
{
}

/// Whether each operation of `ops`, applied in order, is valid against the
/// content left by the operations before it.
pub open spec fn ops_all_valid(content: Seq<char>, ops: Seq<OpView>) -> bool
    decreases ops.len(),
{
    ops.len() == 0 || {
        &&& op_valid(content, ops[0])
        &&& ops_all_valid(spec_apply(content, ops[0]), ops.drop_first())
    }
}

/// The content left after applying `ops` in order.
pub open spec fn apply_all(content: Seq<char>, ops: Seq<OpView>) -> Seq<char>
    decreases ops.len(),
{
    if ops.len() == 0 {
        content
    } else {
        apply_all(spec_apply(content, ops[0]), ops.drop_first())
    }
}

/// The algebraic sum of the operations' length deltas.
pub open spec fn delta_sum(ops: Seq<OpView>) -> int
    decreases ops.len(),
{
    if ops.len() == 0 {
        0
    } else {
        op_delta(ops[0]) + delta_sum(ops.drop_first())
    }
}

/// Law: operations serialized into some total order lose no effect. However
/// many sessions submitted them, once each operation was validated against
/// the content left by its predecessors, the final content length equals the
/// initial length plus the algebraic sum of every operation's delta.
pub proof fn lemma_apply_all_length(content: Seq<char>, ops: Seq<OpView>)
    requires
        ops_all_valid(content, ops),
    ensures
        apply_all(content, ops).len() == content.len() + delta_sum(ops),
    decreases ops.len(),
{
    if ops.len() > 0 {
        lemma_apply_length(content, ops[0]);
        lemma_apply_all_length(spec_apply(content, ops[0]), ops.drop_first());
    }
}

/// Law: a valid delete removes exactly the addressed span, keeping the
/// prefix and shifting the suffix left; the result is shorter by `length`,
/// and a zero-length delete is the identity.
pub proof fn lemma_delete_shape(content: Seq<char>, offset: int, length: int)
    requires
        0 <= offset,
        0 <= length,
        offset + length <= content.len(),
    ensures
        spec_apply(content, OpView::Delete { offset, length }).len() == content.len() - length,
        forall|i: int|
            0 <= i < offset ==> spec_apply(content, OpView::Delete { offset, length })[i]
                == content[i],
        forall|i: int|
            offset <= i < content.len() - length ==> spec_apply(
                content,
                OpView::Delete { offset, length },
            )[i] == content[i + length],
        length == 0 ==> spec_apply(content, OpView::Delete { offset, length }) == content,
{
    if length == 0 {
        assert(spec_apply(content, OpView::Delete { offset, length }) =~= content);
    }
}

} // verus!
