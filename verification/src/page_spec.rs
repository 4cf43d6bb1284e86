//! Page selectors such as `1,3,5-10`: which pages a selector names, and the
//! sorted list without repeats that the conversion endpoint hands on.
use vstd::prelude::*;
use crate::text::{
    chars_of, find_in_range, first_index_spec, lemma_parse_unsigned_bounds, lemma_split_nonempty, parse_unsigned,
    parse_unsigned_spec, split_spec, trim_range, trim_spec,
};

verus! {

/// The inclusive page range that one comma-separated part of a selector names:
/// after trimming, `a-b` (split at the first `-`, both sides trimmed and read as
/// `u32`, and `a <= b`) or a single page `n`. Anything else names no page.
pub open spec fn part_range_spec(part: Seq<char>) -> Option<(u32, u32)> {
    let t = trim_spec(part);
    match first_index_spec(t, '-') {
        Some(k) => match (
            parse_unsigned_spec(trim_spec(t.take(k)), u32::MAX as int),
            parse_unsigned_spec(trim_spec(t.skip(k + 1)), u32::MAX as int),
        ) {
            (Some(a), Some(b)) => if a <= b {
                Some((a as u32, b as u32))
            } else {
                None
            },
            _ => None,
        },
        None => match parse_unsigned_spec(t, u32::MAX as int) {
            Some(n) => Some((n as u32, n as u32)),
            None => None,
        },
    }
}

pub open spec fn in_range(r: Option<(u32, u32)>, n: u32) -> bool {
    r matches Some((a, b)) && a <= n <= b
}

/// Whether one of `parts` names page `n`.
pub open spec fn parts_cover(parts: Seq<Seq<char>>, n: u32) -> bool {
    exists|k: int| 0 <= k < parts.len() && #[trigger] in_range(part_range_spec(parts[k]), n)
}

/// The pages that the selector `spec` names.
pub open spec fn selected_pages(spec: Seq<char>) -> Set<u32> {
    Set::new(|n: u32| parts_cover(split_spec(spec, ','), n))
}

/// Whether one of the inclusive `ranges` holds page `n`.
pub open spec fn ranges_cover(ranges: Seq<(u32, u32)>, n: u32) -> bool {
    exists|k: int| 0 <= k < ranges.len() && #[trigger] ranges[k].0 <= n && n <= ranges[k].1
}

pub open spec fn strictly_increasing(s: Seq<u32>) -> bool {
    forall|i: int, j: int| 0 <= i < j < s.len() ==> s[i] < s[j]
}

/// A part never names a range whose first page comes after its last.
pub proof fn lemma_part_range_ordered(part: Seq<char>)
    ensures
        part_range_spec(part) matches Some(r) ==> r.0 <= r.1,
{
    let t = trim_spec(part);
    if let Some(k) = first_index_spec(t, '-') {
        lemma_parse_unsigned_bounds(trim_spec(t.take(k)), u32::MAX as int);
        lemma_parse_unsigned_bounds(trim_spec(t.skip(k + 1)), u32::MAX as int);
    }
}

proof fn lemma_parts_cover_push(parts: Seq<Seq<char>>, p: Seq<char>, n: u32)
    ensures
        parts_cover(parts.push(p), n) <==> parts_cover(parts, n) || in_range(
            part_range_spec(p),
            n,
        ),
{
    let q = parts.push(p);
    if parts_cover(parts, n) {
        let k = choose|k: int| 0 <= k < parts.len() && #[trigger] in_range(
            part_range_spec(parts[k]),
            n,
        );
        assert(q[k] == parts[k]);
    }
    if in_range(part_range_spec(p), n) {
        assert(q[parts.len() as int] == p);
    }
    if parts_cover(q, n) {
        let k = choose|k: int| 0 <= k < q.len() && #[trigger] in_range(part_range_spec(q[k]), n);
        if k < parts.len() {
            assert(q[k] == parts[k]);
        }
    }
}

proof fn lemma_ranges_cover_push(ranges: Seq<(u32, u32)>, r: (u32, u32), n: u32)
    ensures
        ranges_cover(ranges.push(r), n) <==> ranges_cover(ranges, n) || (r.0 <= n && n <= r.1),
{
    let q = ranges.push(r);
    if ranges_cover(ranges, n) {
        let k = choose|k: int| 0 <= k < ranges.len() && #[trigger] ranges[k].0 <= n && n
            <= ranges[k].1;
        assert(q[k] == ranges[k]);
    }
    if r.0 <= n && n <= r.1 {
        assert(q[ranges.len() as int] == r);
    }
}

/// The page range that the part `s[lo..hi]` of a selector names.
pub fn part_range(s: &Vec<char>, lo: usize, hi: usize) -> (r: Option<(u32, u32)>)
    requires
        lo <= hi <= s.len(),
    ensures
        r == part_range_spec(s@.subrange(lo as int, hi as int)),
        r matches Some(pr) ==> pr.0 <= pr.1,
{
    proof {
        lemma_part_range_ordered(s@.subrange(lo as int, hi as int));
    }
    let (a, b) = trim_range(s, lo, hi);
    let ghost t = s@.subrange(a as int, b as int);
    match find_in_range(s, a, b, '-') {
        Some(k) => {
            assert(t.take(k - a) =~= s@.subrange(a as int, k as int));
            assert(t.skip(k - a + 1) =~= s@.subrange(k + 1, b as int));
            let (l0, l1) = trim_range(s, a, k);
            let (r0, r1) = trim_range(s, k + 1, b);
            let first = parse_unsigned(s, l0, l1, 0xffff_ffff);
            let last = parse_unsigned(s, r0, r1, 0xffff_ffff);
            match (first, last) {
                (Some(x), Some(y)) => {
                    if x <= y {
                        Some((x as u32, y as u32))
                    } else {
                        None
                    }
                },
                _ => None,
            }
        },
        None => match parse_unsigned(s, a, b, 0xffff_ffff) {
            Some(n) => Some((n as u32, n as u32)),
            None => None,
        },
    }
}

/// The ranges that the parts of the selector `s` name, one per part that names any page.
fn page_ranges(s: &Vec<char>) -> (ranges: Vec<(u32, u32)>)
    ensures
        forall|k: int| 0 <= k < ranges.len() ==> #[trigger] ranges[k].0 <= ranges[k].1,
        forall|n: u32| ranges_cover(ranges@, n) <==> parts_cover(split_spec(s@, ','), n),
{
    let mut ranges: Vec<(u32, u32)> = Vec::new();
    let mut start: usize = 0;
    let mut i: usize = 0;
    let ghost mut done: Seq<Seq<char>> = Seq::empty();
    assert(s@.take(0) =~= Seq::<char>::empty());
    assert(split_spec(Seq::<char>::empty(), ',') =~= done.push(s@.subrange(0, 0)));
    while i < s.len()
        invariant
            start <= i <= s.len(),
            split_spec(s@.take(i as int), ',') == done.push(s@.subrange(start as int, i as int)),
            forall|k: int| 0 <= k < ranges.len() ==> #[trigger] ranges[k].0 <= ranges[k].1,
            forall|n: u32| ranges_cover(ranges@, n) <==> parts_cover(done, n),
        decreases s.len() - i,
    {
        let ghost prev = s@.take(i as int);
        assert(s@.take(i + 1).drop_last() =~= prev);
        proof {
            lemma_split_nonempty(prev, ',');
        }
        if s[i] == ',' {
            let ghost part = s@.subrange(start as int, i as int);
            let r = part_range(s, start, i);
            let ghost old_ranges = ranges@;
            if let Some(pr) = r {
                ranges.push(pr);
            }
            assert forall|n: u32| ranges_cover(ranges@, n) <==> parts_cover(done.push(part), n) by {
                lemma_parts_cover_push(done, part, n);
                if let Some(pr) = r {
                    lemma_ranges_cover_push(old_ranges, pr, n);
                }
            }
            proof {
                done = done.push(part);
            }
            start = i + 1;
            assert(s@.take(i + 1).last() == ',');
            assert(s@.subrange(start as int, i + 1) =~= Seq::<char>::empty());
            assert(split_spec(s@.take(i + 1), ',') =~= done.push(
                s@.subrange(start as int, i + 1),
            ));
        } else {
            assert(s@.subrange(start as int, i + 1) =~= s@.subrange(start as int, i as int).push(
                s[i as int],
            ));
            assert(split_spec(s@.take(i + 1), ',') =~= done.push(
                s@.subrange(start as int, i + 1),
            ));
        }
        i = i + 1;
    }
    let ghost part = s@.subrange(start as int, i as int);
    let r = part_range(s, start, i);
    let ghost old_ranges = ranges@;
    if let Some(pr) = r {
        ranges.push(pr);
    }
    assert(s@.take(i as int) =~= s@);
    assert forall|n: u32| ranges_cover(ranges@, n) <==> parts_cover(split_spec(s@, ','), n) by {
        lemma_parts_cover_push(done, part, n);
        if let Some(pr) = r {
            lemma_ranges_cover_push(old_ranges, pr, n);
        }
    }
    ranges
}

/// Every page that `ranges` hold, in increasing order and each once.
///
/// Sweeps upwards: each round finds the lowest page at or above `next` that a
/// range holds and emits the run up to the end of that range.
fn pages_in_ranges(ranges: &Vec<(u32, u32)>) -> (pages: Vec<u32>)
    requires
        forall|k: int| 0 <= k < ranges.len() ==> #[trigger] ranges[k].0 <= ranges[k].1,
    ensures
        strictly_increasing(pages@),
        forall|n: u32| pages@.contains(n) <==> ranges_cover(ranges@, n),
{
    let mut pages: Vec<u32> = Vec::new();
    // every page below `next` that a range holds is in `pages`, and no other page is
    let mut next: u64 = 0;
    loop
        invariant
            next <= 0x1_0000_0000,
            forall|k: int| 0 <= k < ranges.len() ==> #[trigger] ranges[k].0 <= ranges[k].1,
            strictly_increasing(pages@),
            forall|i: int| 0 <= i < pages.len() ==> pages[i] < next,
            forall|n: u32| pages@.contains(n) <==> (ranges_cover(ranges@, n) && n < next),
        ensures
            strictly_increasing(pages@),
            forall|n: u32| pages@.contains(n) <==> ranges_cover(ranges@, n),
        decreases 0x1_0000_0000 - next,
    {
        // the lowest candidate page and the end of the range it comes from
        let mut best: Option<(u64, u32)> = None;
        let mut k: usize = 0;
        while k < ranges.len()
            invariant
                k <= ranges.len(),
                next <= 0x1_0000_0000,
                forall|k: int| 0 <= k < ranges.len() ==> #[trigger] ranges[k].0 <= ranges[k].1,
                match best {
                    None => forall|j: int| 0 <= j < k ==> (#[trigger] ranges[j]).1 < next,
                    Some((c, e)) => {
                        &&& next <= c <= e
                        &&& exists|j: int|
                            0 <= j < k && (#[trigger] ranges[j]).0 <= c && ranges[j].1 == e
                        &&& forall|j: int|
                            0 <= j < k && (#[trigger] ranges[j]).1 >= next ==> c <= ranges[j].0
                                || c == next
                    },
                },
            decreases ranges.len() - k,
        {
            let (a, b) = ranges[k];
            if b as u64 >= next {
                let c: u64 = if (a as u64) < next {
                    next
                } else {
                    a as u64
                };
                let better = match best {
                    None => true,
                    Some((bc, _)) => c < bc,
                };
                if better {
                    best = Some((c, b));
                }
            }
            k = k + 1;
        }
        match best {
            None => {
                assert forall|n: u32| pages@.contains(n) <==> ranges_cover(ranges@, n) by {
                    if ranges_cover(ranges@, n) {
                        let j = choose|j: int| 0 <= j < ranges.len() && #[trigger] ranges[j].0
                            <= n && n <= ranges[j].1;
                        assert(ranges[j].1 < next);
                    }
                }
                break ;
            },
            Some((c, e)) => {
                assert forall|n: u32| next <= n < c implies !ranges_cover(ranges@, n) by {
                    if ranges_cover(ranges@, n) {
                        let j = choose|j: int| 0 <= j < ranges.len() && #[trigger] ranges[j].0
                            <= n && n <= ranges[j].1;
                        assert(ranges[j].1 >= next);
                    }
                }
                let ghost before = pages@;
                let mut p: u64 = c;
                while p <= e as u64
                    invariant
                        next <= c <= p <= e as u64 + 1,
                        e < 0x1_0000_0000,
                        pages@.len() == before.len() + (p - c),
                        forall|i: int| 0 <= i < before.len() ==> pages@[i] == before[i],
                        forall|i: int| before.len() <= i < pages.len() ==> pages@[i] == c + (i
                            - before.len()),
                        forall|i: int| 0 <= i < before.len() ==> before[i] < next,
                        strictly_increasing(before),
                    decreases e as u64 + 1 - p,
                {
                    pages.push(p as u32);
                    p = p + 1;
                }
                assert forall|x: int, y: int| 0 <= x < y < pages.len() implies pages@[x]
                    < pages@[y] by {
                    if y < before.len() {
                        assert(pages@[x] == before[x] && pages@[y] == before[y]);
                        assert(before[x] < before[y]);
                    } else if x < before.len() {
                        assert(pages@[x] == before[x]);
                        assert(pages@[y] == c + (y - before.len()));
                    } else {
                        assert(pages@[x] == c + (x - before.len()));
                        assert(pages@[y] == c + (y - before.len()));
                    }
                }
                let ghost j = choose|j: int|
                    0 <= j < ranges.len() && (#[trigger] ranges[j]).0 <= c && ranges[j].1 == e;
                assert forall|n: u32|
                    pages@.contains(n) <==> (ranges_cover(ranges@, n) && n < e as u64 + 1) by {
                    if pages@.contains(n) {
                        let i = choose|i: int| 0 <= i < pages.len() && pages@[i] == n;
                        if i < before.len() {
                            assert(before[i] == n);
                            assert(before.contains(n));
                        } else {
                            assert(ranges[j].0 <= n && n <= ranges[j].1);
                        }
                    }
                    if ranges_cover(ranges@, n) && n < e as u64 + 1 {
                        if n < next {
                            assert(before.contains(n));
                            let i = choose|i: int| 0 <= i < before.len() && before[i] == n;
                            assert(pages@[i] == n);
                        } else {
                            let i: int = before.len() + (n - c);
                            assert(pages@[i] == n);
                        }
                    }
                }
                assert(p == e as u64 + 1);
                assert forall|i: int| 0 <= i < pages.len() implies pages@[i] < e as u64 + 1 by {
                    if i >= before.len() {
                        assert(pages@[i] == c + (i - before.len()));
                    } else {
                        assert(pages@[i] == before[i]);
                    }
                }
                next = e as u64 + 1;
            },
        }
    }
    pages
}

/// Parses a page selector such as `1,3,5-10` into the pages it names, in
/// increasing order and each once.
///
/// The selector is split at every `,`; each part is trimmed of whitespace and is
/// either `a-b` (split at its first `-`, both sides trimmed, read as `u32`,
/// naming `a..=b` when `a <= b`) or a single page `n`. Parts that are empty or
/// do not read that way name no page.
pub fn parse_page_spec(spec: &str) -> (pages: Vec<u32>)
    ensures
        strictly_increasing(pages@),
        pages@.to_set() == selected_pages(spec@),
{
    let chars = chars_of(spec);
    let ranges = page_ranges(&chars);
    let pages = pages_in_ranges(&ranges);
    assert(pages@.to_set() =~= selected_pages(spec@));
    pages
}

proof fn lemma_increasing_drop_first_set(s: Seq<u32>)
    requires
        strictly_increasing(s),
        s.len() > 0,
    ensures
        s.drop_first().to_set() == s.to_set().remove(s[0]),
{
    assert forall|x: u32| s.drop_first().to_set().contains(x) <==> s.to_set().remove(
        s[0],
    ).contains(x) by {
        if s.drop_first().contains(x) {
            let i = choose|i: int| 0 <= i < s.drop_first().len() && s.drop_first()[i] == x;
            assert(s[i + 1] == x);
            assert(s.contains(x));
        }
        if s.contains(x) && x != s[0] {
            let i = choose|i: int| 0 <= i < s.len() && s[i] == x;
            assert(s.drop_first()[i - 1] == x);
        }
    }
    assert(s.drop_first().to_set() =~= s.to_set().remove(s[0]));
}

/// Two increasing lists without repeats that hold the same pages are the same
/// list: the result of `parse_page_spec` is fixed by the set of pages alone.
pub proof fn lemma_increasing_list_unique(s1: Seq<u32>, s2: Seq<u32>)
    requires
        strictly_increasing(s1),
        strictly_increasing(s2),
        s1.to_set() == s2.to_set(),
    ensures
        s1 == s2,
    decreases s1.len(),
{
    if s1.len() == 0 {
        if s2.len() > 0 {
            assert(s2.contains(s2[0]));
            assert(s2.to_set().contains(s2[0]));
        }
        assert(s1 =~= s2);
    } else if s2.len() == 0 {
        assert(s1.contains(s1[0]));
        assert(s1.to_set().contains(s1[0]));
    } else {
        assert(s1.contains(s1[0]));
        assert(s1.to_set().contains(s1[0]));
        assert(s2.to_set().contains(s1[0]));
        assert(s2.contains(s1[0]));
        assert(s2.contains(s2[0]));
        assert(s2.to_set().contains(s2[0]));
        assert(s1.to_set().contains(s2[0]));
        assert(s1.contains(s2[0]));
        let i = choose|i: int| 0 <= i < s1.len() && s1[i] == s2[0];
        let j = choose|j: int| 0 <= j < s2.len() && s2[j] == s1[0];
        if i > 0 {
            assert(s1[0] < s1[i]);
        }
        if j > 0 {
            assert(s2[0] < s2[j]);
        }
        assert(s1[0] == s2[0]);
        lemma_increasing_drop_first_set(s1);
        lemma_increasing_drop_first_set(s2);
        lemma_increasing_list_unique(s1.drop_first(), s2.drop_first());
        assert(s1.len() == s2.len());
        assert forall|k: int| 0 <= k < s1.len() implies s1[k] == s2[k] by {
            if k > 0 {
                assert(s1[k] == s1.drop_first()[k - 1]);
                assert(s2[k] == s2.drop_first()[k - 1]);
            }
        }
        assert(s1 =~= s2);
    }
}

/// Splitting at `,` a text made of `a`, a comma and `b` gives the pieces of `a`
/// followed by the pieces of `b`.
pub proof fn lemma_split_at_comma(a: Seq<char>, b: Seq<char>)
    ensures
        split_spec(a + seq![','] + b, ',') == split_spec(a, ',') + split_spec(b, ','),
    decreases b.len(),
{
    let whole = a + seq![','] + b;
    if b.len() == 0 {
        assert(whole.drop_last() =~= a);
        assert(split_spec(b, ',') =~= seq![Seq::<char>::empty()]);
        assert(split_spec(whole, ',') =~= split_spec(a, ',') + split_spec(b, ','));
    } else {
        let b0 = b.drop_last();
        assert(whole.drop_last() =~= a + seq![','] + b0);
        lemma_split_at_comma(a, b0);
        lemma_split_nonempty(b0, ',');
        lemma_split_nonempty(a, ',');
        assert(split_spec(whole, ',') =~= split_spec(a, ',') + split_spec(b, ','));
    }
}

/// The pages of the selector `a,b` are the pages of `a` together with those of `b`.
pub proof fn lemma_selected_pages_concat(a: Seq<char>, b: Seq<char>)
    ensures
        selected_pages(a + seq![','] + b) == selected_pages(a).union(selected_pages(b)),
{
    lemma_split_at_comma(a, b);
    let pa = split_spec(a, ',');
    let pb = split_spec(b, ',');
    let pw = pa + pb;
    assert forall|n: u32| parts_cover(pw, n) <==> parts_cover(pa, n) || parts_cover(pb, n) by {
        if parts_cover(pw, n) {
            let k = choose|k: int| 0 <= k < pw.len() && #[trigger] in_range(
                part_range_spec(pw[k]),
                n,
            );
            if k < pa.len() {
                assert(pw[k] == pa[k]);
            } else {
                assert(pw[k] == pb[k - pa.len()]);
            }
        }
        if parts_cover(pa, n) {
            let k = choose|k: int| 0 <= k < pa.len() && #[trigger] in_range(
                part_range_spec(pa[k]),
                n,
            );
            assert(pw[k] == pa[k]);
        }
        if parts_cover(pb, n) {
            let k = choose|k: int| 0 <= k < pb.len() && #[trigger] in_range(
                part_range_spec(pb[k]),
                n,
            );
            assert(pw[k + pa.len()] == pb[k]);
        }
    }
    assert(selected_pages(a + seq![','] + b) =~= selected_pages(a).union(selected_pages(b)));
}

/// The order of the parts of a selector does not change what it selects:
/// `a,b` and `b,a` name the same pages, so `parse_page_spec` gives the same list.
pub proof fn lemma_selector_parts_commute(a: Seq<char>, b: Seq<char>)
    ensures
        selected_pages(a + seq![','] + b) == selected_pages(b + seq![','] + a),
{
    lemma_selected_pages_concat(a, b);
    lemma_selected_pages_concat(b, a);
    assert(selected_pages(a).union(selected_pages(b)) =~= selected_pages(b).union(
        selected_pages(a),
    ));
}

/// `parse_page_spec` gives the same list for `a,b` as for `b,a`: any two
/// increasing lists without repeats that hold the pages of the two selectors
/// are equal.
pub proof fn lemma_selector_order_same_list(a: Seq<char>, b: Seq<char>, ab: Seq<u32>, ba: Seq<u32>)
    requires
        strictly_increasing(ab),
        ab.to_set() == selected_pages(a + seq![','] + b),
        strictly_increasing(ba),
        ba.to_set() == selected_pages(b + seq![','] + a),
    ensures
        ab == ba,
{
    lemma_selector_parts_commute(a, b);
    lemma_increasing_list_unique(ab, ba);
}

/// Repeating a selector names no more pages than the selector once.
pub proof fn lemma_selector_repeat(a: Seq<char>)
    ensures
        selected_pages(a + seq![','] + a) == selected_pages(a),
{
    lemma_selected_pages_concat(a, a);
    assert(selected_pages(a).union(selected_pages(a)) =~= selected_pages(a));
}

} // verus!
