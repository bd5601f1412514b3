//! Where the arguments of a workflow stand in the input buffer.
//!
//! Workflow arguments are tracked by the highlighted text runs of the editor.
//! Syntax highlighting can split one argument into several runs, so runs that
//! overlap or touch are merged into one range.
use vstd::prelude::*;

verus! {

/// A range of byte offsets, `start` included and `end` excluded.
#[derive(Clone, Copy, Debug, PartialEq, Eq, Structural)]
pub struct ByteRange {
    pub start: usize,
    pub end: usize,
}

pub open spec fn well_formed_ranges(rs: Seq<ByteRange>) -> bool {
    forall|i: int| 0 <= i < rs.len() ==> (#[trigger] rs[i]).start <= rs[i].end
}

/// Whether offset `p` lies in one of the ranges, both ends counted: ranges
/// that touch at an offset are joined there.
pub open spec fn covers(rs: Seq<ByteRange>, p: int) -> bool {
    exists|i: int| 0 <= i < rs.len() && (#[trigger] rs[i]).start <= p <= rs[i].end
}

/// The ranges are ordered and neither overlap nor touch.
pub open spec fn separated(rs: Seq<ByteRange>) -> bool {
    forall|i: int, j: int| 0 <= i < j < rs.len() ==> (#[trigger] rs[i]).end < (#[trigger] rs[j]).start
}

pub open spec fn sorted_by_start(rs: Seq<ByteRange>) -> bool {
    forall|i: int, j: int|
        0 <= i <= j < rs.len() ==> (#[trigger] rs[i]).start <= (#[trigger] rs[j]).start
}

/// `rs` and `other` hold the same ranges.
pub open spec fn same_elements(rs: Seq<ByteRange>, other: Seq<ByteRange>) -> bool {
    forall|r: ByteRange| rs.contains(r) <==> other.contains(r)
}

/// One step of the merge: `next`, which starts no earlier than the ranges
/// merged so far, joins the last of them when it overlaps or touches it
/// (the last one's end reaches `next`'s start), and follows it otherwise.
pub open spec fn merge_step(merged: Seq<ByteRange>, next: ByteRange) -> Seq<ByteRange> {
    if merged.len() > 0 && merged.last().end >= next.start {
        let current = merged.last();
        merged.drop_last().push(
            ByteRange {
                start: if current.start < next.start {
                    current.start
                } else {
                    next.start
                },
                end: if current.end > next.end {
                    current.end
                } else {
                    next.end
                },
            },
        )
    } else {
        merged.push(next)
    }
}

/// The runs merged one after the other, in the order given.
pub open spec fn merge_runs(runs: Seq<ByteRange>) -> Seq<ByteRange>
    decreases runs.len(),
{
    if runs.len() == 0 {
        Seq::empty()
    } else {
        merge_step(merge_runs(runs.drop_last()), runs.last())
    }
}

/// Orders the ranges by start, keeping every range.
fn sort_by_start(ranges: &[ByteRange]) -> (res: Vec<ByteRange>)
    ensures
        sorted_by_start(res@),
        same_elements(res@, ranges@),
        res@.len() == ranges@.len(),
{
    let mut res: Vec<ByteRange> = Vec::new();
    let n = ranges.len();
    for i in 0..n
        invariant
            n == ranges@.len(),
            sorted_by_start(res@),
            res@.len() == i,
            same_elements(res@, ranges@.take(i as int)),
    {
        let x = ranges[i];
        let mut pos: usize = 0;
        while pos < res.len() && res[pos].start <= x.start
            invariant
                pos <= res@.len(),
                forall|k: int| 0 <= k < pos ==> (#[trigger] res@[k]).start <= x.start,
            decreases res@.len() - pos,
        {
            pos = pos + 1;
        }
        let ghost before = res@;
        res.insert(pos, x);
        proof {
            assert(res@ == before.insert(pos as int, x));
            assert forall|a: int, b: int| 0 <= a <= b < res@.len() implies (
            #[trigger] res@[a]).start <= (#[trigger] res@[b]).start by {
                if a < pos && b < pos {
                    assert(res@[a] == before[a] && res@[b] == before[b]);
                } else if a < pos && b == pos {
                    assert(res@[a] == before[a]);
                } else if a < pos && b > pos {
                    assert(res@[a] == before[a] && res@[b] == before[b - 1]);
                    assert(before[a].start <= before[b - 1].start);
                } else if a == pos && b > pos {
                    assert(res@[b] == before[b - 1]);
                    assert(pos < before.len());
                    assert(before[pos as int].start > x.start);
                    assert(before[pos as int].start <= before[b - 1].start);
                } else if a > pos {
                    assert(res@[a] == before[a - 1] && res@[b] == before[b - 1]);
                }
            }
            let prefix = ranges@.take(i + 1);
            assert(prefix =~= ranges@.take(i as int).push(x));
            assert forall|r: ByteRange| res@.contains(r) <==> prefix.contains(r) by {
                if res@.contains(r) {
                    let k = choose|k: int| 0 <= k < res@.len() && (#[trigger] res@[k]) == r;
                    if k < pos {
                        assert(before[k] == r);
                        assert(before.contains(r));
                    } else if k > pos {
                        assert(before[k - 1] == r);
                        assert(before.contains(r));
                    }
                    if r != x {
                        assert(ranges@.take(i as int).contains(r));
                        let j = choose|j: int|
                            0 <= j < ranges@.take(i as int).len() && (#[trigger] ranges@.take(i as int)[j])
                                == r;
                        assert(prefix[j] == r);
                    } else {
                        assert(prefix[i as int] == r);
                    }
                }
                if prefix.contains(r) {
                    let j = choose|j: int| 0 <= j < prefix.len() && (#[trigger] prefix[j]) == r;
                    if j == i {
                        assert(res@[pos as int] == r);
                    } else {
                        assert(ranges@.take(i as int)[j] == r);
                        assert(before.contains(r));
                        let k = choose|k: int| 0 <= k < before.len() && (#[trigger] before[k]) == r;
                        if k < pos {
                            assert(res@[k] == r);
                        } else {
                            assert(res@[k + 1] == r);
                        }
                    }
                }
            }
        }
    }
    proof {
        assert(ranges@.take(n as int) =~= ranges@);
    }
    res
}

/// Merges the highlighted runs of the input into the ranges of the workflow
/// arguments: overlapping or touching runs become one range.
pub fn build_text_run_ranges_for_workflows(text_style_runs: &[ByteRange]) -> (res: Vec<ByteRange>)
    requires
        well_formed_ranges(text_style_runs@),
    ensures
        well_formed_ranges(res@),
        separated(res@),
        forall|p: int| covers(res@, p) <==> covers(text_style_runs@, p),
        exists|sorted: Seq<ByteRange>|
            sorted_by_start(sorted) && same_elements(sorted, text_style_runs@) && sorted.len()
                == text_style_runs@.len() && res@ == merge_runs(sorted),
{
    let sorted = sort_by_start(text_style_runs);
    let mut acc: Vec<ByteRange> = Vec::new();
    let n = sorted.len();
    proof {
        assert forall|i: int| 0 <= i < sorted@.len() implies (#[trigger] sorted@[i]).start
            <= sorted@[i].end by {
            assert(sorted@.contains(sorted@[i]));
            assert(text_style_runs@.contains(sorted@[i]));
        }
    }
    for i in 0..n
        invariant
            n == sorted@.len(),
            well_formed_ranges(sorted@),
            sorted_by_start(sorted@),
            well_formed_ranges(acc@),
            separated(acc@),
            i == 0 <==> acc@.len() == 0,
            i > 0 ==> acc@.last().start <= sorted@[i - 1].start,
            forall|p: int| covers(acc@, p) <==> covers(sorted@.take(i as int), p),
            acc@ == merge_runs(sorted@.take(i as int)),
    {
        let next = sorted[i];
        let ghost before = acc@;
        let ghost prefix = sorted@.take(i + 1);
        proof {
            assert(prefix =~= sorted@.take(i as int).push(next));
            assert(prefix.drop_last() =~= sorted@.take(i as int));
            assert(merge_runs(prefix) == merge_step(before, next));
        }
        if acc.len() > 0 && acc[acc.len() - 1].end >= next.start {
            let current = acc.pop().unwrap();
            let start = if current.start < next.start {
                current.start
            } else {
                next.start
            };
            let end = if current.end > next.end {
                current.end
            } else {
                next.end
            };
            acc.push(ByteRange { start, end });
            proof {
                let rest = before.drop_last();
                assert(acc@ =~= rest.push(ByteRange { start, end }));
                assert(start == current.start);
                assert forall|p: int| covers(acc@, p) <==> covers(prefix, p) by {
                    if covers(acc@, p) {
                        let k = choose|k: int| 0 <= k < acc@.len() && (#[trigger] acc@[k]).start <= p <= acc@[k].end;
                        if k < rest.len() {
                            assert(before[k] == acc@[k]);
                            assert(covers(before, p));
                        } else if p <= current.end {
                            assert(before[before.len() - 1] == current);
                            assert(covers(before, p));
                        } else {
                            assert(prefix[i as int] == next);
                            assert(covers(prefix, p));
                        }
                        if covers(before, p) {
                            assert(covers(sorted@.take(i as int), p));
                            let j = choose|j: int| 0 <= j < i && (#[trigger] sorted@[j]).start <= p <= sorted@[j].end;
                            assert(prefix[j] == sorted@[j]);
                        }
                    }
                    if covers(prefix, p) {
                        let j = choose|j: int| 0 <= j < prefix.len() && (#[trigger] prefix[j]).start <= p <= prefix[j].end;
                        if j == i {
                            assert(acc@[acc@.len() - 1].start <= p);
                        } else {
                            assert(sorted@.take(i as int)[j] == prefix[j]);
                            assert(covers(sorted@.take(i as int), p));
                            assert(covers(before, p));
                            let k = choose|k: int|
                                0 <= k < before.len() && (#[trigger] before[k]).start <= p <= before[k].end;
                            if k < rest.len() {
                                assert(acc@[k] == before[k]);
                            } else {
                                assert(acc@[acc@.len() - 1].start <= p);
                            }
                        }
                    }
                }
                assert forall|a: int, b: int| 0 <= a < b < acc@.len() implies (
                #[trigger] acc@[a]).end < (#[trigger] acc@[b]).start by {
                    assert(acc@[a] == before[a]);
                    if b < rest.len() {
                        assert(acc@[b] == before[b]);
                    } else {
                        assert(before[b] == current);
                    }
                }
            }
        } else {
            acc.push(next);
            proof {
                assert(acc@ =~= before.push(next));
                if i > 0 {
                    assert(sorted@[i - 1].start <= next.start);
                    assert forall|a: int| 0 <= a < before.len() implies (#[trigger] before[a]).end
                        < next.start by {
                        if a < before.len() - 1 {
                            assert(before[a].end < before[before.len() - 1].start);
                        }
                    }
                }
                assert forall|a: int, b: int| 0 <= a < b < acc@.len() implies (
                #[trigger] acc@[a]).end < (#[trigger] acc@[b]).start by {
                    assert(acc@[a] == before[a]);
                    if b < before.len() {
                        assert(acc@[b] == before[b]);
                    }
                }
                assert forall|p: int| covers(acc@, p) <==> covers(prefix, p) by {
                    if covers(acc@, p) {
                        let k = choose|k: int| 0 <= k < acc@.len() && (#[trigger] acc@[k]).start <= p <= acc@[k].end;
                        if k < before.len() {
                            assert(acc@[k] == before[k]);
                            assert(covers(before, p));
                            assert(covers(sorted@.take(i as int), p));
                            let j = choose|j: int| 0 <= j < i && (#[trigger] sorted@[j]).start <= p <= sorted@[j].end;
                            assert(prefix[j] == sorted@[j]);
                        } else {
                            assert(prefix[i as int] == next);
                        }
                    }
                    if covers(prefix, p) {
                        let j = choose|j: int| 0 <= j < prefix.len() && (#[trigger] prefix[j]).start <= p <= prefix[j].end;
                        if j == i {
                            assert(acc@[acc@.len() - 1] == next);
                        } else {
                            assert(sorted@.take(i as int)[j] == prefix[j]);
                            assert(covers(sorted@.take(i as int), p));
                            assert(covers(before, p));
                            let k = choose|k: int|
                                0 <= k < before.len() && (#[trigger] before[k]).start <= p <= before[k].end;
                            assert(acc@[k] == before[k]);
                        }
                    }
                }
            }
        }
    }
    proof {
        assert(sorted@.take(n as int) =~= sorted@);
        assert(acc@ == merge_runs(sorted@));
        assert forall|p: int| covers(sorted@, p) <==> covers(text_style_runs@, p) by {
            if covers(sorted@, p) {
                let k = choose|k: int| 0 <= k < sorted@.len() && (#[trigger] sorted@[k]).start <= p <= sorted@[k].end;
                assert(sorted@.contains(sorted@[k]));
                assert(text_style_runs@.contains(sorted@[k]));
                let j = choose|j: int| 0 <= j < text_style_runs@.len() && (#[trigger] text_style_runs@[j]) == sorted@[k];
                assert(text_style_runs@[j].start <= p <= text_style_runs@[j].end);
            }
            if covers(text_style_runs@, p) {
                let j = choose|j: int|
                    0 <= j < text_style_runs@.len() && (#[trigger] text_style_runs@[j]).start <= p
                        <= text_style_runs@[j].end;
                assert(text_style_runs@.contains(text_style_runs@[j]));
                assert(sorted@.contains(text_style_runs@[j]));
                let k = choose|k: int| 0 <= k < sorted@.len() && (#[trigger] sorted@[k]) == text_style_runs@[j];
                assert(sorted@[k].start <= p <= sorted@[k].end);
            }
        }
    }
    acc
}

} // verus!
