//! The walk of a PhotoDB chunk tree as a mathematical function: what a walk
//! of a range of chunks finds, one chunk step at a time.

use vstd::prelude::*;
use crate::error::DecodeError;
use crate::photodb::parser::{EntrySpec, leaf_effect, container_header, child_chunk_at};
use crate::photodb::types::{known_magic, remaining, short_of, u32_at, MHFD, MHSD, MHII, MHNI, MHIF, MHOD};

verus! {

/// What one chunk step of the walk gives: an error, a stop with the
/// entries so far, or the position of the next chunk with the entries so far.
pub enum ChunkStep {
    Fail(DecodeError),
    Stop(Seq<EntrySpec>),
    Next(int, Seq<EntrySpec>),
}

/// The step the walk takes at the chunk at `pos`, below `end`, at recursion
/// depth `depth`, with the entries found so far `acc`: it stops at a header
/// that does not fit, an unknown magic, a header size below 8 or an MHII
/// whose total length does not advance; containers are walked one level
/// deeper; leaves add or annotate entries.
pub closed spec fn chunk_step(d: Seq<u8>, pos: int, end: int, le: bool, acc: Seq<EntrySpec>, depth: int) -> ChunkStep
    decreases 65 - depth, d.len() - pos, 0int,
{
    if depth > 64 || pos < 0 || pos + 8 > d.len() || pos + 8 > end {
        ChunkStep::Stop(acc)
    } else {
        let magic = u32_at(d, pos, le);
        let hs = u32_at(d, pos + 4, le);
        if !known_magic(magic) || hs < 8 {
            ChunkStep::Stop(acc)
        } else {
            let ce: int = if pos + hs < d.len() {
                pos + hs
            } else {
                d.len() as int
            };
            if magic == MHII {
                if remaining(d.len() as int, pos) < 12 {
                    ChunkStep::Fail(short_of(d, pos, 12))
                } else {
                    let total = u32_at(d, pos + 8, le);
                    let cend: int = if pos + total < d.len() {
                        pos + total
                    } else {
                        d.len() as int
                    };
                    if cend <= pos {
                        ChunkStep::Stop(acc)
                    } else {
                        let inner = if pos + 12 < cend {
                            walk_spec(d, pos + 12, cend, le, acc, depth + 1)
                        } else {
                            Ok(acc)
                        };
                        match inner {
                            Err(e) => ChunkStep::Fail(e),
                            Ok(a2) => ChunkStep::Next(cend, a2),
                        }
                    }
                }
            } else if magic == MHNI || magic == MHOD || magic == MHIF {
                match leaf_effect(d, pos, ce, le, acc, magic) {
                    Err(e) => ChunkStep::Fail(e),
                    Ok(a2) => ChunkStep::Next(ce, a2),
                }
            } else {
                let hsz = container_header(magic);
                if remaining(d.len() as int, pos) < hsz {
                    ChunkStep::Fail(short_of(d, pos, hsz as usize))
                } else {
                    let cs = pos + hsz;
                    let descend = if magic == MHFD {
                        true
                    } else if magic == MHSD {
                        cs < ce && child_chunk_at(d, cs, ce, le)
                    } else {
                        cs < ce
                    };
                    let inner = if descend {
                        walk_spec(d, cs, ce, le, acc, depth + 1)
                    } else {
                        Ok(acc)
                    };
                    match inner {
                        Err(e) => ChunkStep::Fail(e),
                        Ok(a2) => ChunkStep::Next(ce, a2),
                    }
                }
            }
        }
    }
}

/// The chunk loop of a walk, from the chunk at `pos` on.
pub closed spec fn walk_from(d: Seq<u8>, pos: int, end: int, le: bool, acc: Seq<EntrySpec>, depth: int) -> Result<
    Seq<EntrySpec>,
    DecodeError,
>
    decreases 65 - depth, d.len() - pos, 1int,
{
    if depth > 64 || pos < 0 || pos >= end || pos >= d.len() {
        Ok(acc)
    } else {
        match chunk_step(d, pos, end, le, acc, depth) {
            ChunkStep::Fail(e) => Err(e),
            ChunkStep::Stop(a) => Ok(a),
            ChunkStep::Next(n, a) => if pos < n <= d.len() {
                walk_from(d, n, end, le, a, depth)
            } else {
                Ok(a)
            },
        }
    }
}

/// Walking the chunks in `[start, end)` at recursion depth `depth` with the
/// entries found so far `acc`: the entries found in the end, or the first
/// header that runs past the data.
pub closed spec fn walk_spec(d: Seq<u8>, start: int, end: int, le: bool, acc: Seq<EntrySpec>, depth: int) -> Result<
    Seq<EntrySpec>,
    DecodeError,
>
    decreases 65 - depth, d.len() - start, 2int,
{
    if depth > 64 || start < 0 || start >= end || start >= d.len() {
        Ok(acc)
    } else {
        walk_from(d, start, end, le, acc, depth)
    }
}

/// One step of the chunk loop of a walk.
pub proof fn lemma_walk_from_unfold(d: Seq<u8>, pos: int, end: int, le: bool, acc: Seq<EntrySpec>, depth: int)
    ensures
        walk_from(d, pos, end, le, acc, depth) == (if depth > 64 || pos < 0 || pos >= end || pos >= d.len() {
            Ok(acc)
        } else {
            match chunk_step(d, pos, end, le, acc, depth) {
                ChunkStep::Fail(e) => Err(e),
                ChunkStep::Stop(a) => Ok(a),
                ChunkStep::Next(n, a) => if pos < n <= d.len() {
                    walk_from(d, n, end, le, a, depth)
                } else {
                    Ok(a)
                },
            }
        }),
{
}

/// A walk of a non-empty range starts the chunk loop at its start.
pub proof fn lemma_walk_spec_unfold(d: Seq<u8>, start: int, end: int, le: bool, acc: Seq<EntrySpec>, depth: int)
    ensures
        walk_spec(d, start, end, le, acc, depth) == (if depth > 64 || start < 0 || start >= end || start >= d.len() {
            Ok(acc)
        } else {
            walk_from(d, start, end, le, acc, depth)
        }),
{
}

/// The step the walk takes at one chunk, spelled out.
pub proof fn lemma_chunk_step_unfold(d: Seq<u8>, pos: int, end: int, le: bool, acc: Seq<EntrySpec>, depth: int)
    ensures
        chunk_step(d, pos, end, le, acc, depth) == ({
        if depth > 64 || pos < 0 || pos + 8 > d.len() || pos + 8 > end {
            ChunkStep::Stop(acc)
        } else {
            let magic = u32_at(d, pos, le);
            let hs = u32_at(d, pos + 4, le);
            if !known_magic(magic) || hs < 8 {
                ChunkStep::Stop(acc)
            } else {
                let ce: int = if pos + hs < d.len() {
                    pos + hs
                } else {
                    d.len() as int
                };
                if magic == MHII {
                    if remaining(d.len() as int, pos) < 12 {
                        ChunkStep::Fail(short_of(d, pos, 12))
                    } else {
                        let total = u32_at(d, pos + 8, le);
                        let cend: int = if pos + total < d.len() {
                            pos + total
                        } else {
                            d.len() as int
                        };
                        if cend <= pos {
                            ChunkStep::Stop(acc)
                        } else {
                            let inner = if pos + 12 < cend {
                                walk_spec(d, pos + 12, cend, le, acc, depth + 1)
                            } else {
                                Ok(acc)
                            };
                            match inner {
                                Err(e) => ChunkStep::Fail(e),
                                Ok(a2) => ChunkStep::Next(cend, a2),
                            }
                        }
                    }
                } else if magic == MHNI || magic == MHOD || magic == MHIF {
                    match leaf_effect(d, pos, ce, le, acc, magic) {
                        Err(e) => ChunkStep::Fail(e),
                        Ok(a2) => ChunkStep::Next(ce, a2),
                    }
                } else {
                    let hsz = container_header(magic);
                    if remaining(d.len() as int, pos) < hsz {
                        ChunkStep::Fail(short_of(d, pos, hsz as usize))
                    } else {
                        let cs = pos + hsz;
                        let descend = if magic == MHFD {
                            true
                        } else if magic == MHSD {
                            cs < ce && child_chunk_at(d, cs, ce, le)
                        } else {
                            cs < ce
                        };
                        let inner = if descend {
                            walk_spec(d, cs, ce, le, acc, depth + 1)
                        } else {
                            Ok(acc)
                        };
                        match inner {
                            Err(e) => ChunkStep::Fail(e),
                            Ok(a2) => ChunkStep::Next(ce, a2),
                        }
                    }
                }
            }
        }
        }),
{
}

/// `es` keeps the entries `acc`: it holds at least as many, the same ones
/// in front except that the last of `acc` may have gained a path or
/// metadata, and every one of them with its format ID and data unchanged.
pub open spec fn keeps_entries(acc: Seq<EntrySpec>, es: Seq<EntrySpec>) -> bool {
    &&& acc.len() <= es.len()
    &&& forall|i: int| 0 <= i < acc.len() - 1 ==> #[trigger] es[i] == acc[i]
    &&& forall|i: int| 0 <= i < acc.len() ==> (#[trigger] es[i]).data == acc[i].data && es[i].format_id == acc[i].format_id
}

proof fn lemma_keeps_refl(acc: Seq<EntrySpec>)
    ensures
        keeps_entries(acc, acc),
{
}

proof fn lemma_keeps_trans(a: Seq<EntrySpec>, b: Seq<EntrySpec>, c: Seq<EntrySpec>)
    requires
        keeps_entries(a, b),
        keeps_entries(b, c),
    ensures
        keeps_entries(a, c),
{
    assert forall|i: int| 0 <= i < a.len() - 1 implies #[trigger] c[i] == a[i] by {
        assert(b[i] == a[i]);
        assert(c[i] == b[i]);
    }
    assert forall|i: int| 0 <= i < a.len() implies (#[trigger] c[i]).data == a[i].data && c[i].format_id
        == a[i].format_id by {
        assert(b[i].data == a[i].data && b[i].format_id == a[i].format_id);
        assert(c[i].data == b[i].data && c[i].format_id == b[i].format_id);
    }
}

proof fn lemma_leaf_keeps(d: Seq<u8>, pos: int, ce: int, le: bool, acc: Seq<EntrySpec>, magic: u32)
    ensures
        leaf_effect(d, pos, ce, le, acc, magic) matches Ok(a2) ==> keeps_entries(acc, a2),
{
    match leaf_effect(d, pos, ce, le, acc, magic) {
        Ok(a2) => {
            if acc.len() > 0 {
                assert(a2[acc.len() - 1].data == acc[acc.len() - 1].data);
            }
            assert(keeps_entries(acc, a2));
        },
        Err(_) => {},
    }
}

/// The chunk loop keeps the entries it was given.
proof fn lemma_walk_from_keeps(d: Seq<u8>, pos: int, end: int, le: bool, acc: Seq<EntrySpec>, depth: int)
    ensures
        walk_from(d, pos, end, le, acc, depth) matches Ok(es) ==> keeps_entries(acc, es),
    decreases 65 - depth, d.len() - pos, 1int,
{
    if depth > 64 || pos < 0 || pos >= end || pos >= d.len() {
        lemma_keeps_refl(acc);
    } else {
        lemma_chunk_step_keeps(d, pos, end, le, acc, depth);
        match chunk_step(d, pos, end, le, acc, depth) {
            ChunkStep::Fail(_) => {},
            ChunkStep::Stop(_) => {},
            ChunkStep::Next(n, a) => {
                if pos < n <= d.len() {
                    lemma_walk_from_keeps(d, n, end, le, a, depth);
                    if let Ok(es) = walk_from(d, n, end, le, a, depth) {
                        lemma_keeps_trans(acc, a, es);
                    }
                }
            },
        }
    }
}

/// One chunk step keeps the entries it was given.
proof fn lemma_chunk_step_keeps(d: Seq<u8>, pos: int, end: int, le: bool, acc: Seq<EntrySpec>, depth: int)
    ensures
        match chunk_step(d, pos, end, le, acc, depth) {
            ChunkStep::Fail(_) => true,
            ChunkStep::Stop(a) => keeps_entries(acc, a),
            ChunkStep::Next(_, a) => keeps_entries(acc, a),
        },
    decreases 65 - depth, d.len() - pos, 0int,
{
    lemma_keeps_refl(acc);
    if depth > 64 || pos < 0 || pos + 8 > d.len() || pos + 8 > end {
    } else {
        let magic = u32_at(d, pos, le);
        let hs = u32_at(d, pos + 4, le);
        if !known_magic(magic) || hs < 8 {
        } else {
            let ce: int = if pos + hs < d.len() {
                pos + hs
            } else {
                d.len() as int
            };
            if magic == MHII {
                if remaining(d.len() as int, pos) >= 12 {
                    let total = u32_at(d, pos + 8, le);
                    let cend: int = if pos + total < d.len() {
                        pos + total
                    } else {
                        d.len() as int
                    };
                    if cend > pos && pos + 12 < cend {
                        lemma_walk_spec_keeps(d, pos + 12, cend, le, acc, depth + 1);
                    }
                }
            } else if magic == MHNI || magic == MHOD || magic == MHIF {
                lemma_leaf_keeps(d, pos, ce, le, acc, magic);
            } else {
                let hsz = container_header(magic);
                if remaining(d.len() as int, pos) >= hsz {
                    let cs = pos + hsz;
                    lemma_walk_spec_keeps(d, cs, ce, le, acc, depth + 1);
                }
            }
        }
    }
}

/// A walk keeps the entries it was given: it appends the entries it finds
/// after them and, of those, may only annotate the last.
pub proof fn lemma_walk_spec_keeps(d: Seq<u8>, start: int, end: int, le: bool, acc: Seq<EntrySpec>, depth: int)
    ensures
        walk_spec(d, start, end, le, acc, depth) matches Ok(es) ==> keeps_entries(acc, es),
    decreases 65 - depth, d.len() - start, 2int,
{
    if depth > 64 || start < 0 || start >= end || start >= d.len() {
        lemma_keeps_refl(acc);
    } else {
        lemma_walk_from_keeps(d, start, end, le, acc, depth);
    }
}

} // verus!
