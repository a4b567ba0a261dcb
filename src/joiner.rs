//! Joining a bag of same-style segments into continuous subpaths.
use vstd::prelude::*;

use std::collections::VecDeque;

use crate::geometry::{command_of, same_point, segment_command, PathCommand, Segment, Vector2D};

verus! {

/// One forward pass that grows a chain from `first` over `rest`, in order.
///
/// The result is `(chain, deferred, chain_start, chain_end)`: a segment that
/// starts at the chain's end is appended, one that ends at the chain's start is
/// prepended, and any other is deferred, in the order met.
pub open spec fn scan_chain(first: Segment, rest: Seq<Segment>) -> (
    Seq<Segment>,
    Seq<Segment>,
    Vector2D,
    Vector2D,
)
    decreases rest.len(),
{
    if rest.len() == 0 {
        (seq![first], Seq::empty(), first.start, first.end)
    } else {
        let (chain, deferred, start, end) = scan_chain(first, rest.drop_last());
        let s = rest.last();
        if s.start == end {
            (chain.push(s), deferred, start, s.end)
        } else if s.end == start {
            (seq![s] + chain, deferred, s.start, end)
        } else {
            (chain, deferred.push(s), start, end)
        }
    }
}

/// Every segment of the pass lands either in the chain or among the deferred ones.
pub proof fn lemma_scan_chain_len(first: Segment, rest: Seq<Segment>)
    ensures
        scan_chain(first, rest).0.len() + scan_chain(first, rest).1.len() == rest.len() + 1,
        scan_chain(first, rest).0.len() >= 1,
    decreases rest.len(),
{
    if rest.len() > 0 {
        lemma_scan_chain_len(first, rest.drop_last());
    }
}

/// A pass yields a chain whose segments meet end to end, from the chain's
/// start point to its end point.
pub proof fn lemma_scan_chain_connected(first: Segment, rest: Seq<Segment>)
    ensures
        ({
            let (chain, deferred, start, end) = scan_chain(first, rest);
            &&& chain.len() >= 1
            &&& chain[0].start == start
            &&& chain.last().end == end
            &&& forall|i: int| 0 <= i < chain.len() - 1 ==> (#[trigger] chain[i]).end == chain[i + 1].start
        }),
    decreases rest.len(),
{
    if rest.len() > 0 {
        lemma_scan_chain_connected(first, rest.drop_last());
        let (chain, deferred, start, end) = scan_chain(first, rest.drop_last());
        let s = rest.last();
        if s.start == end {
            let c2 = chain.push(s);
            assert forall|i: int| 0 <= i < c2.len() - 1 implies (#[trigger] c2[i]).end == c2[i
                + 1].start by {
                if i < chain.len() - 1 {
                    assert(c2[i] == chain[i] && c2[i + 1] == chain[i + 1]);
                }
            }
        } else if s.end == start {
            let c2 = seq![s] + chain;
            assert forall|i: int| 0 <= i < c2.len() - 1 implies (#[trigger] c2[i]).end == c2[i
                + 1].start by {
                if i > 0 {
                    assert(c2[i] == chain[i - 1] && c2[i + 1] == chain[i]);
                }
            }
        }
    }
}

/// A pass loses no segment and adds none: the chain and the deferred
/// segments together hold exactly the segments given.
pub proof fn lemma_scan_chain_complete(first: Segment, rest: Seq<Segment>)
    ensures
        scan_chain(first, rest).0.to_multiset().add(scan_chain(first, rest).1.to_multiset())
            == rest.to_multiset().insert(first),
    decreases rest.len(),
{
    broadcast use vstd::seq_lib::to_multiset_build;
    broadcast use vstd::seq_lib::to_multiset_len;
    broadcast use vstd::multiset::group_multiset_axioms;

    let empty = Seq::<Segment>::empty();
    vstd::multiset::lemma_multiset_empty_len(empty.to_multiset());
    if rest.len() == 0 {
        assert(rest =~= empty);
        assert(seq![first] =~= empty.push(first));
        assert(seq![first].to_multiset().add(empty.to_multiset()) =~= rest.to_multiset().insert(
            first,
        ));
    } else {
        lemma_scan_chain_complete(first, rest.drop_last());
        let (chain, deferred, start, end) = scan_chain(first, rest.drop_last());
        let s = rest.last();
        let before = rest.drop_last().to_multiset().insert(first);
        assert(rest =~= rest.drop_last().push(s));
        assert(rest.to_multiset() == rest.drop_last().to_multiset().insert(s));
        assert(rest.to_multiset().insert(first) =~= before.insert(s));
        if s.start == end {
            assert(chain.push(s).to_multiset() == chain.to_multiset().insert(s));
            assert(chain.push(s).to_multiset().add(deferred.to_multiset()) =~= before.insert(s));
        } else if s.end == start {
            vstd::seq_lib::lemma_multiset_commutative(seq![s], chain);
            assert(seq![s] =~= empty.push(s));
            assert((seq![s] + chain).to_multiset().add(deferred.to_multiset()) =~= before.insert(
                s,
            ));
        } else {
            assert(deferred.push(s).to_multiset() == deferred.to_multiset().insert(s));
            assert(chain.to_multiset().add(deferred.push(s).to_multiset()) =~= before.insert(s));
        }
    }
}

/// The commands of one subpath: a move to the chain's first point, then one
/// command per segment.
pub open spec fn chain_commands(chain: Seq<Segment>) -> Seq<PathCommand> {
    seq![PathCommand::MoveTo(chain[0].start)] + chain.map_values(|s: Segment| command_of(s))
}

/// The path made of `segs`: chains are taken one after another, each from the
/// segments that earlier passes deferred.
pub open spec fn joined_path(segs: Seq<Segment>) -> Seq<PathCommand>
    decreases segs.len(),
    via joined_path_decreases
{
    if segs.len() == 0 {
        Seq::empty()
    } else {
        let (chain, deferred, _, _) = scan_chain(segs[0], segs.drop_first());
        chain_commands(chain) + joined_path(deferred)
    }
}

#[via_fn]
proof fn joined_path_decreases(segs: Seq<Segment>) {
    if segs.len() > 0 {
        lemma_scan_chain_len(segs[0], segs.drop_first());
    }
}

/// Splits off the chain grown from the first segment; returns the deferred
/// segments and the chain.
pub fn extract_continuous(open_set: VecDeque<Segment>) -> (r: (VecDeque<Segment>, VecDeque<Segment>))
    requires
        open_set@.len() > 0,
    ensures
        r.0@ == scan_chain(open_set@[0], open_set@.drop_first()).1,
        r.1@ == scan_chain(open_set@[0], open_set@.drop_first()).0,
{
    let ghost all = open_set@;
    let mut open_set = open_set;
    let first = open_set.pop_front().unwrap();
    let ghost rest = open_set@;
    assert(rest == all.drop_first());
    let mut start: Vector2D = first.start;
    let mut end: Vector2D = first.end;
    let mut remaining: VecDeque<Segment> = VecDeque::new();
    let mut result: VecDeque<Segment> = VecDeque::new();
    result.push_front(first);
    let mut i: usize = 0;
    let n = open_set.len();
    while i < n
        invariant
            n == rest.len(),
            open_set@ == rest.skip(i as int),
            i <= n,
            scan_chain(first, rest.take(i as int)) == (result@, remaining@, start, end),
        decreases n - i,
    {
        let segment = open_set.pop_front().unwrap();
        assert(segment == rest[i as int]);
        assert(rest.take(i as int + 1).drop_last() == rest.take(i as int));
        if same_point(segment.start, end) {
            end = segment.end;
            result.push_back(segment);
        } else if same_point(segment.end, start) {
            start = segment.start;
            result.push_front(segment);
            assert(result@ =~= seq![segment] + scan_chain(first, rest.take(i as int)).0);
        } else {
            remaining.push_back(segment);
        }
        i = i + 1;
        assert(open_set@ =~= rest.skip(i as int));
    }
    assert(rest.take(n as int) == rest);
    (remaining, result)
}

/// Builds the path of one style's segments, chain after chain.
pub fn segments_to_path(open_set: VecDeque<Segment>) -> (r: Vec<PathCommand>)
    ensures
        r@ == joined_path(open_set@),
{
    let ghost all = open_set@;
    let mut open_set = open_set;
    let mut path: Vec<PathCommand> = Vec::new();
    while open_set.len() > 0
        invariant
            path@ + joined_path(open_set@) == joined_path(all),
        decreases open_set@.len(),
    {
        proof {
            lemma_scan_chain_len(open_set@[0], open_set@.drop_first());
        }
        let ghost before = open_set@;
        let ghost old_path = path@;
        let (next_open_set, continuous) = extract_continuous(open_set);
        open_set = next_open_set;
        let ghost chain = continuous@;
        let mut continuous = continuous;
        let first = continuous.pop_front().unwrap();
        path.push(PathCommand::MoveTo(first.start));
        path.push(segment_command(&first));
        let ghost mut done: int = 1;
        assert(path@ =~= old_path + seq![PathCommand::MoveTo(chain[0].start)] + chain.take(
            done,
        ).map_values(|s: Segment| command_of(s)));
        while continuous.len() > 0
            invariant
                chain.len() >= 1,
                continuous@ == chain.skip(done),
                1 <= done <= chain.len(),
                path@ == old_path + seq![PathCommand::MoveTo(chain[0].start)] + chain.take(
                    done,
                ).map_values(|s: Segment| command_of(s)),
            decreases continuous@.len(),
        {
            let segment = continuous.pop_front().unwrap();
            assert(segment == chain[done]);
            path.push(segment_command(&segment));
            assert(chain.take(done + 1) =~= chain.take(done).push(segment));
            proof {
                done = done + 1;
            }
            assert(continuous@ =~= chain.skip(done));
            assert(path@ =~= old_path + seq![PathCommand::MoveTo(chain[0].start)] + chain.take(
                done,
            ).map_values(|s: Segment| command_of(s)));
        }
        assert(chain.take(done) =~= chain);
        assert(path@ =~= old_path + chain_commands(chain));
        assert(joined_path(before) == chain_commands(chain) + joined_path(open_set@));
        assert(path@ + joined_path(open_set@) =~= old_path + joined_path(before));
    }
    path
}

} // verus!
