//! Selecting events for benchmark samples: by kind, size category and tag
//! category. The random draws themselves are made outside the library.

use vstd::prelude::*;
use crate::event::{json_size_estimate, size_category_of, tag_category_of, NostrEvent, SizeCategory, TagCategory};

verus! {

/// Kinds left out of benchmarks: seen in the data set, but in no NIP
/// (application-specific, test or spam kinds).
pub open spec fn is_excluded_kind_spec(kind: u16) -> bool {
    kind == 443 || kind == 1000 || kind == 1009 || kind == 10174 || kind == 11998 || kind == 30166
        || kind == 31111 || kind == 31234 || kind == 31402 || kind == 32222 || kind == 38225
        || kind == 38383
}

/// The kinds left out of benchmarks, in ascending order.
pub fn excluded_kinds() -> (r: Vec<u16>)
    ensures
        forall|k: u16| is_excluded_kind_spec(k) <==> r@.contains(k),
{
    let r: Vec<u16> = vec![443, 1000, 1009, 10174, 11998, 30166, 31111, 31234, 31402, 32222, 38225, 38383];
    assert forall|k: u16| is_excluded_kind_spec(k) implies r@.contains(k) by {
        if k == 443 { assert(r@[0] == k); }
        else if k == 1000 { assert(r@[1] == k); }
        else if k == 1009 { assert(r@[2] == k); }
        else if k == 10174 { assert(r@[3] == k); }
        else if k == 11998 { assert(r@[4] == k); }
        else if k == 30166 { assert(r@[5] == k); }
        else if k == 31111 { assert(r@[6] == k); }
        else if k == 31234 { assert(r@[7] == k); }
        else if k == 31402 { assert(r@[8] == k); }
        else if k == 32222 { assert(r@[9] == k); }
        else if k == 38225 { assert(r@[10] == k); }
        else { assert(r@[11] == k); }
    }
    r
}

/// The events whose kind is not in `kinds`, in their order.
pub open spec fn without_kinds_spec(events: Seq<NostrEvent>, kinds: Seq<u16>) -> Seq<NostrEvent>
    decreases events.len(),
{
    if events.len() == 0 {
        Seq::empty()
    } else {
        let rest = without_kinds_spec(events.drop_last(), kinds);
        if kinds.contains(events.last().kind) { rest } else { rest.push(events.last()) }
    }
}

/// Whether `kinds` holds `kind`.
fn holds_kind(kinds: &[u16], kind: u16) -> (r: bool)
    ensures
        r == kinds@.contains(kind),
{
    let mut i: usize = 0;
    while i < kinds.len()
        invariant
            i <= kinds@.len(),
            forall|k: int| 0 <= k < i ==> kinds@[k] != kind,
        decreases kinds@.len() - i,
    {
        if kinds[i] == kind {
            return true;
        }
        i = i + 1;
    }
    false
}

/// Drops the events whose kind is in `kinds`, keeping the order of the rest.
pub fn without_kinds(events: Vec<NostrEvent>, kinds: &[u16]) -> (r: Vec<NostrEvent>)
    ensures
        r@ == without_kinds_spec(events@, kinds@),
{
    let ghost all = events@;
    let mut out: Vec<NostrEvent> = Vec::new();
    let mut rest = events;
    let ghost mut taken: Seq<NostrEvent> = Seq::empty();
    while rest.len() > 0
        invariant
            all == taken + rest@,
            out@ == without_kinds_spec(taken, kinds@),
        decreases rest@.len(),
    {
        let e = rest.remove(0);
        let keep = !holds_kind(kinds, e.kind);
        proof {
            assert(taken.push(e).drop_last() =~= taken);
            assert(taken.push(e) + rest@ =~= all);
            taken = taken.push(e);
        }
        if keep {
            out.push(e);
        }
    }
    assert(taken =~= all);
    out
}

/// Positions below `n` of the events that `sel` selects, ascending.
pub open spec fn positions(sel: spec_fn(NostrEvent) -> bool, events: Seq<NostrEvent>, n: nat) -> Seq<usize>
    decreases n,
{
    if n == 0 {
        Seq::empty()
    } else {
        let rest = positions(sel, events, (n - 1) as nat);
        if sel(events[n - 1]) { rest.push((n - 1) as usize) } else { rest }
    }
}

pub open spec fn of_kind(kind: u16) -> spec_fn(NostrEvent) -> bool {
    |e: NostrEvent| e.kind == kind
}

pub open spec fn of_size(category: SizeCategory) -> spec_fn(NostrEvent) -> bool {
    |e: NostrEvent| size_category_of(json_size_estimate(e@)) == category
}

pub open spec fn of_tag_category(category: TagCategory) -> spec_fn(NostrEvent) -> bool {
    |e: NostrEvent| tag_category_of(e.tags@.len()) == category
}

/// Positions of the events of kind `kind`, ascending.
pub fn kind_positions(events: &[NostrEvent], kind: u16) -> (r: Vec<usize>)
    ensures
        r@ == positions(of_kind(kind), events@, events@.len()),
{
    let mut out: Vec<usize> = Vec::new();
    let mut i: usize = 0;
    while i < events.len()
        invariant
            i <= events@.len(),
            out@ == positions(of_kind(kind), events@, i as nat),
        decreases events@.len() - i,
    {
        if events[i].kind == kind {
            out.push(i);
        }
        i = i + 1;
    }
    out
}

/// Positions of the events of size category `category`, ascending.
pub fn size_positions(events: &[NostrEvent], category: SizeCategory) -> (r: Vec<usize>)
    ensures
        r@ == positions(of_size(category), events@, events@.len()),
{
    let mut out: Vec<usize> = Vec::new();
    let mut i: usize = 0;
    while i < events.len()
        invariant
            i <= events@.len(),
            out@ == positions(of_size(category), events@, i as nat),
        decreases events@.len() - i,
    {
        if events[i].size_category() == category {
            out.push(i);
        }
        i = i + 1;
    }
    out
}

/// Positions of the events of tag category `category`, ascending.
pub fn tag_positions(events: &[NostrEvent], category: TagCategory) -> (r: Vec<usize>)
    ensures
        r@ == positions(of_tag_category(category), events@, events@.len()),
{
    let mut out: Vec<usize> = Vec::new();
    let mut i: usize = 0;
    while i < events.len()
        invariant
            i <= events@.len(),
            out@ == positions(of_tag_category(category), events@, i as nat),
        decreases events@.len() - i,
    {
        if events[i].tag_category() == category {
            out.push(i);
        }
        i = i + 1;
    }
    out
}

} // verus!
