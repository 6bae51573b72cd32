//! Speech segment construction: turning detected non-silent ranges into the
//! padded, merged segments a timeline keeps.

use vstd::prelude::*;

verus! {

/// One kept span of a timeline, in milliseconds.
#[derive(Debug, Clone, Copy, PartialEq, Eq, Structural)]
pub struct Segment {
    pub start_ms: u64,
    pub end_ms: u64,
}

/// A detected range widened by the padding on both sides, clipped to the
/// start of time and to the total duration.
pub open spec fn sp_pad(r: (u64, u64), total: u64, pad: u64) -> (u64, u64) {
    (
        if r.0 >= pad {
            (r.0 - pad) as u64
        } else {
            0u64
        },
        if r.1 + pad <= total {
            (r.1 + pad) as u64
        } else {
            total
        },
    )
}

/// All ranges padded.
pub open spec fn sp_pad_all(rs: Seq<(u64, u64)>, total: u64, pad: u64) -> Seq<(u64, u64)> {
    rs.map_values(|r: (u64, u64)| sp_pad(r, total, pad))
}

/// Ranges merged left to right: a range that starts at or before the end of
/// the growing last segment extends it, any other range opens a new one.
pub open spec fn sp_merge(ps: Seq<(u64, u64)>) -> Seq<(u64, u64)>
    decreases ps.len(),
{
    if ps.len() <= 1 {
        ps
    } else {
        let m = sp_merge(ps.drop_last());
        let p = ps.last();
        if m.len() == 0 {
            seq![p]
        } else {
            let tail = m.last();
            if p.0 <= tail.1 {
                m.update(
                    m.len() - 1,
                    (
                        tail.0,
                        if tail.1 >= p.1 {
                            tail.1
                        } else {
                            p.1
                        },
                    ),
                )
            } else {
                m.push(p)
            }
        }
    }
}

/// Ranges listed start-to-start in order, each no earlier than it ends.
pub open spec fn ranges_ordered(ps: Seq<(u64, u64)>) -> bool {
    &&& forall|i: int| 0 <= i < ps.len() ==> (#[trigger] ps[i]).0 <= ps[i].1
    &&& forall|i: int, j: int| 0 <= i < j < ps.len() ==> (#[trigger] ps[i]).0 <= (
    #[trigger] ps[j]).0
}

/// Well-formed, strictly separated ranges: each spans forward, and each
/// ends before the next begins.
pub open spec fn ranges_disjoint(ms: Seq<(u64, u64)>) -> bool {
    &&& forall|i: int| 0 <= i < ms.len() ==> (#[trigger] ms[i]).0 <= ms[i].1
    &&& forall|i: int| 0 <= i < ms.len() - 1 ==> (#[trigger] ms[i]).1 < ms[i + 1].0
}

/// Merging ordered ranges yields well-formed, strictly separated ranges.
pub proof fn lemma_merge_disjoint(ps: Seq<(u64, u64)>)
    requires
        ranges_ordered(ps),
    ensures
        ranges_disjoint(sp_merge(ps)),
        ps.len() > 0 ==> sp_merge(ps).len() > 0,
    decreases ps.len(),
{
    if ps.len() > 1 {
        assert(ranges_ordered(ps.drop_last())) by {
            assert(forall|i: int| 0 <= i < ps.len() - 1 ==> ps.drop_last()[i] == ps[i]);
        }
        lemma_merge_disjoint(ps.drop_last());
        let m = sp_merge(ps.drop_last());
        let p = ps.last();
        let out = sp_merge(ps);
        if p.0 <= m.last().1 {
            assert(out == m.update(
                m.len() - 1,
                (
                    m.last().0,
                    if m.last().1 >= p.1 {
                        m.last().1
                    } else {
                        p.1
                    },
                ),
            ));
            assert forall|i: int| 0 <= i < out.len() implies (#[trigger] out[i]).0 <= out[i].1 by {
                if i < out.len() - 1 {
                    assert(out[i] == m[i]);
                }
            }
            assert forall|i: int| 0 <= i < out.len() - 1 implies (#[trigger] out[i]).1 < out[i
                + 1].0 by {
                assert(out[i] == m[i]);
                assert(out[i + 1].0 == m[i + 1].0);
            }
        } else {
            assert(out == m.push(p));
            assert forall|i: int| 0 <= i < out.len() implies (#[trigger] out[i]).0 <= out[i].1 by {
                if i < m.len() {
                    assert(out[i] == m[i]);
                } else {
                    assert(out[i] == p);
                }
            }
            assert forall|i: int| 0 <= i < out.len() - 1 implies (#[trigger] out[i]).1 < out[i
                + 1].0 by {
                assert(out[i] == m[i]);
                if i < m.len() - 1 {
                    assert(out[i + 1] == m[i + 1]);
                } else {
                    assert(out[i + 1] == p);
                }
            }
        }
    }
}

/// Law: for detected ranges listed in order and lying within the recording,
/// the built segments are well formed and strictly disjoint — no kept span
/// overlaps or touches the next.
pub proof fn lemma_build_padded_segments_disjoint(rs: Seq<(u64, u64)>, total: u64, pad: u64)
    requires
        forall|i: int| 0 <= i < rs.len() ==> (#[trigger] rs[i]).0 <= rs[i].1 && rs[i].1 <= total,
        forall|i: int, j: int| 0 <= i < j < rs.len() ==> (#[trigger] rs[i]).0 <= (
        #[trigger] rs[j]).0,
    ensures
        ({
            let segs = sp_build_padded_segments(rs, total, pad);
            &&& forall|i: int|
                0 <= i < segs.len() ==> (#[trigger] segs[i]).start_ms <= segs[i].end_ms
            &&& forall|i: int|
                0 <= i < segs.len() - 1 ==> (#[trigger] segs[i]).end_ms < segs[i + 1].start_ms
        }),
{
    let padded = sp_pad_all(rs, total, pad);
    assert(ranges_ordered(padded)) by {
        assert forall|i: int| 0 <= i < padded.len() implies (#[trigger] padded[i]).0
            <= padded[i].1 by {
            assert(padded[i] == sp_pad(rs[i], total, pad));
        }
        assert forall|i: int, j: int| 0 <= i < j < padded.len() implies (#[trigger] padded[i]).0
            <= (#[trigger] padded[j]).0 by {
            assert(padded[i] == sp_pad(rs[i], total, pad));
            assert(padded[j] == sp_pad(rs[j], total, pad));
            assert(rs[i].0 <= rs[j].0);
        }
    }
    lemma_merge_disjoint(padded);
    let merged = sp_merge(padded);
    let segs = sp_build_padded_segments(rs, total, pad);
    assert forall|i: int| 0 <= i < segs.len() implies (#[trigger] segs[i]).start_ms
        <= segs[i].end_ms by {
        assert(segs[i] == (Segment { start_ms: merged[i].0, end_ms: merged[i].1 }));
    }
    assert forall|i: int| 0 <= i < segs.len() - 1 implies (#[trigger] segs[i]).end_ms < segs[i
        + 1].start_ms by {
        assert(segs[i] == (Segment { start_ms: merged[i].0, end_ms: merged[i].1 }));
        assert(segs[i + 1] == (Segment { start_ms: merged[i + 1].0, end_ms: merged[i + 1].1 }));
    }
}

/// The padded, merged segments of the given ranges.
pub open spec fn sp_build_padded_segments(rs: Seq<(u64, u64)>, total: u64, pad: u64) -> Seq<
    Segment,
> {
    sp_merge(sp_pad_all(rs, total, pad)).map_values(
        |p: (u64, u64)| Segment { start_ms: p.0, end_ms: p.1 },
    )
}

/// Convert detected non-silent ranges into padded, merged segments: each
/// range is widened by the padding and clipped to the recording, and
/// overlapping or touching ranges collapse into one segment.
pub fn build_padded_segments(
    ranges: &Vec<(u64, u64)>,
    total_duration_ms: u64,
    padding_ms: u64,
) -> (r: Vec<Segment>)
    ensures
        r@ == sp_build_padded_segments(ranges@, total_duration_ms, padding_ms),
        ranges@.len() > 0 ==> r@.len() > 0,
        ranges@.len() == 0 ==> r@.len() == 0,
{
    if ranges.len() == 0 {
        proof {
            assert(sp_pad_all(ranges@, total_duration_ms, padding_ms) =~= Seq::<
                (u64, u64),
            >::empty());
            assert(sp_build_padded_segments(ranges@, total_duration_ms, padding_ms) =~= Seq::<
                Segment,
            >::empty());
        }
        return Vec::new();
    }

    // pad every range
    let mut padded: Vec<(u64, u64)> = Vec::new();
    let mut i: usize = 0;
    while i < ranges.len()
        invariant
            i <= ranges@.len(),
            padded@ == sp_pad_all(ranges@.take(i as int), total_duration_ms, padding_ms),
        decreases ranges@.len() - i,
    {
        let (s, e) = ranges[i];
        let ps = s.saturating_sub(padding_ms);
        let pe_raw = e.saturating_add(padding_ms);
        let pe = if pe_raw <= total_duration_ms {
            pe_raw
        } else {
            total_duration_ms
        };
        proof {
            assert((ps, pe) == sp_pad(ranges@[i as int], total_duration_ms, padding_ms));
        }
        padded.push((ps, pe));
        proof {
            assert(padded@ =~= sp_pad_all(
                ranges@.take(i + 1 as int),
                total_duration_ms,
                padding_ms,
            ));
        }
        i = i + 1;
    }
    proof {
        assert(ranges@.take(ranges@.len() as int) =~= ranges@);
    }

    // merge overlapping or touching ranges
    let mut merged: Vec<(u64, u64)> = Vec::new();
    merged.push(padded[0]);
    proof {
        assert(padded@.take(1) =~= seq![padded@[0]]);
        assert(merged@ =~= sp_merge(padded@.take(1)));
    }
    let mut j: usize = 1;
    while j < padded.len()
        invariant
            1 <= j <= padded@.len(),
            merged@ == sp_merge(padded@.take(j as int)),
            merged@.len() > 0,
        decreases padded@.len() - j,
    {
        proof {
            assert(padded@.take(j + 1 as int).drop_last() =~= padded@.take(j as int));
            assert(padded@.take(j + 1 as int).last() == padded@[j as int]);
        }
        let (s, e) = padded[j];
        let tail = match merged.pop() {
            Some(t) => t,
            None => {
                proof {
                    assert(false);
                }
                (0, 0)
            },
        };
        if s <= tail.1 {
            let new_end = if tail.1 >= e {
                tail.1
            } else {
                e
            };
            merged.push((tail.0, new_end));
            proof {
                assert(merged@ =~= sp_merge(padded@.take(j + 1 as int)));
            }
        } else {
            merged.push(tail);
            merged.push((s, e));
            proof {
                assert(merged@ =~= sp_merge(padded@.take(j + 1 as int)));
            }
        }
        j = j + 1;
    }
    proof {
        assert(padded@.take(padded@.len() as int) =~= padded@);
    }

    // hand the merged ranges out as segments
    let mut out: Vec<Segment> = Vec::new();
    let mut k: usize = 0;
    while k < merged.len()
        invariant
            k <= merged@.len(),
            out@ == merged@.take(k as int).map_values(
                |p: (u64, u64)| Segment { start_ms: p.0, end_ms: p.1 },
            ),
        decreases merged@.len() - k,
    {
        let (s, e) = merged[k];
        out.push(Segment { start_ms: s, end_ms: e });
        proof {
            assert(out@ =~= merged@.take(k + 1 as int).map_values(
                |p: (u64, u64)| Segment { start_ms: p.0, end_ms: p.1 },
            ));
        }
        k = k + 1;
    }
    proof {
        assert(merged@.take(merged@.len() as int) =~= merged@);
    }
    out
}

} // verus!
