use vstd::prelude::*;

use crate::records::NetworkInfo;

verus! {

/// Whether interface `a` is listed before `b`: more bytes received, or as many received and
/// more transmitted.
pub open spec fn goes_before(a: NetworkInfo, b: NetworkInfo) -> bool {
    a.received_bytes > b.received_bytes || (a.received_bytes == b.received_bytes
        && a.transmitted_bytes > b.transmitted_bytes)
}

/// `x` placed into the ordered list `sorted`, after every entry that it does not go before.
pub open spec fn insert_by_traffic(sorted: Seq<NetworkInfo>, x: NetworkInfo) -> Seq<NetworkInfo>
    decreases sorted.len(),
{
    if sorted.len() == 0 {
        seq![x]
    } else if goes_before(x, sorted[0]) {
        seq![x] + sorted
    } else {
        seq![sorted[0]] + insert_by_traffic(sorted.drop_first(), x)
    }
}

/// The interfaces in order of traffic, most received first, ties broken by most transmitted;
/// interfaces with equal figures keep their order (a stable sort).
pub open spec fn sorted_by_traffic(s: Seq<NetworkInfo>) -> Seq<NetworkInfo>
    decreases s.len(),
{
    if s.len() == 0 {
        seq![]
    } else {
        insert_by_traffic(sorted_by_traffic(s.drop_last()), s.last())
    }
}

/// No interface goes before one listed earlier.
pub open spec fn in_traffic_order(s: Seq<NetworkInfo>) -> bool {
    forall|i: int, j: int| 0 <= i < j < s.len() ==> !goes_before(#[trigger] s[j], #[trigger] s[i])
}

proof fn lemma_insert_bounded(s: Seq<NetworkInfo>, x: NetworkInfo, b: NetworkInfo)
    requires
        forall|i: int| 0 <= i < s.len() ==> !goes_before(#[trigger] s[i], b),
        !goes_before(x, b),
    ensures
        forall|k: int|
            0 <= k < insert_by_traffic(s, x).len() ==> !goes_before(
                #[trigger] insert_by_traffic(s, x)[k],
                b,
            ),
        insert_by_traffic(s, x).len() == s.len() + 1,
    decreases s.len(),
{
    if s.len() > 0 && !goes_before(x, s[0]) {
        let rest = s.drop_first();
        assert forall|i: int| 0 <= i < rest.len() implies !goes_before(#[trigger] rest[i], b) by {
            assert(rest[i] == s[i + 1]);
        }
        lemma_insert_bounded(rest, x, b);
        let ins = insert_by_traffic(s, x);
        assert forall|k: int| 0 <= k < ins.len() implies !goes_before(#[trigger] ins[k], b) by {
            if k > 0 {
                assert(ins[k] == insert_by_traffic(rest, x)[k - 1]);
            }
        }
    }
}

proof fn lemma_insert_in_order(s: Seq<NetworkInfo>, x: NetworkInfo)
    requires
        in_traffic_order(s),
    ensures
        in_traffic_order(insert_by_traffic(s, x)),
    decreases s.len(),
{
    if s.len() == 0 {
    } else if goes_before(x, s[0]) {
        let ins = seq![x] + s;
        assert(insert_by_traffic(s, x) == ins);
        assert forall|i: int, j: int| 0 <= i < j < ins.len() implies !goes_before(
            #[trigger] ins[j],
            #[trigger] ins[i],
        ) by {
            if i == 0 {
                assert(ins[j] == s[j - 1]);
                if j > 1 {
                    assert(!goes_before(s[j - 1], s[0]));
                }
            } else {
                assert(ins[i] == s[i - 1] && ins[j] == s[j - 1]);
            }
        }
    } else {
        let rest = s.drop_first();
        assert forall|i: int, j: int| 0 <= i < j < rest.len() implies !goes_before(
            #[trigger] rest[j],
            #[trigger] rest[i],
        ) by {
            assert(rest[i] == s[i + 1] && rest[j] == s[j + 1]);
        }
        lemma_insert_in_order(rest, x);
        assert forall|i: int| 0 <= i < rest.len() implies !goes_before(#[trigger] rest[i], s[0]) by {
            assert(rest[i] == s[i + 1]);
        }
        lemma_insert_bounded(rest, x, s[0]);
        let tail = insert_by_traffic(rest, x);
        let ins = insert_by_traffic(s, x);
        assert(ins == seq![s[0]] + tail);
        assert forall|i: int, j: int| 0 <= i < j < ins.len() implies !goes_before(
            #[trigger] ins[j],
            #[trigger] ins[i],
        ) by {
            assert(ins[j] == tail[j - 1]);
            if i > 0 {
                assert(ins[i] == tail[i - 1]);
            }
        }
    }
}

proof fn lemma_insert_multiset(s: Seq<NetworkInfo>, x: NetworkInfo)
    ensures
        insert_by_traffic(s, x).to_multiset() =~= s.to_multiset().insert(x),
    decreases s.len(),
{
    broadcast use vstd::seq_lib::group_to_multiset_ensures;

    if s.len() == 0 {
        assert(seq![x] =~= Seq::<NetworkInfo>::empty().push(x));
    } else if goes_before(x, s[0]) {
        vstd::seq_lib::lemma_multiset_commutative(seq![x], s);
        assert(seq![x] =~= Seq::<NetworkInfo>::empty().push(x));
    } else {
        let rest = s.drop_first();
        lemma_insert_multiset(rest, x);
        vstd::seq_lib::lemma_multiset_commutative(seq![s[0]], insert_by_traffic(rest, x));
        vstd::seq_lib::lemma_multiset_commutative(seq![s[0]], rest);
        assert(seq![s[0]] + rest =~= s);
        assert(seq![s[0]] =~= Seq::<NetworkInfo>::empty().push(s[0]));
    }
}

/// The traffic order lists interfaces from most to least traffic, and holds exactly the
/// interfaces it was given.
pub proof fn lemma_sorted_by_traffic(s: Seq<NetworkInfo>)
    ensures
        in_traffic_order(sorted_by_traffic(s)),
        sorted_by_traffic(s).to_multiset() =~= s.to_multiset(),
    decreases s.len(),
{
    broadcast use vstd::seq_lib::group_to_multiset_ensures;

    if s.len() > 0 {
        lemma_sorted_by_traffic(s.drop_last());
        lemma_insert_in_order(sorted_by_traffic(s.drop_last()), s.last());
        lemma_insert_multiset(sorted_by_traffic(s.drop_last()), s.last());
        assert(s.drop_last().push(s.last()) =~= s);
    }
}

/// The traffic order compares the figures themselves: in the sorted list an interface never
/// received fewer bytes than one listed after it, and of two that received as many, the
/// earlier never transmitted fewer. The sorted list holds exactly the given interfaces.
pub proof fn lemma_traffic_order_by_figures(s: Seq<NetworkInfo>)
    ensures
        sorted_by_traffic(s).to_multiset() =~= s.to_multiset(),
        forall|i: int, j: int|
            0 <= i < j < sorted_by_traffic(s).len() ==> #[trigger] sorted_by_traffic(s)[i].received_bytes
                >= #[trigger] sorted_by_traffic(s)[j].received_bytes && (sorted_by_traffic(
                s,
            )[i].received_bytes == sorted_by_traffic(s)[j].received_bytes ==> sorted_by_traffic(
                s,
            )[i].transmitted_bytes >= sorted_by_traffic(s)[j].transmitted_bytes),
{
    lemma_sorted_by_traffic(s);
    let r = sorted_by_traffic(s);
    assert forall|i: int, j: int| 0 <= i < j < r.len() implies #[trigger] r[i].received_bytes
        >= #[trigger] r[j].received_bytes && (r[i].received_bytes == r[j].received_bytes
        ==> r[i].transmitted_bytes >= r[j].transmitted_bytes) by {
        assert(!goes_before(r[j], r[i]));
    }
}

proof fn lemma_insert_at(s: Seq<NetworkInfo>, x: NetworkInfo, j: int)
    requires
        0 <= j <= s.len(),
        forall|k: int| 0 <= k < j ==> !goes_before(x, #[trigger] s[k]),
        j == s.len() || goes_before(x, s[j]),
    ensures
        insert_by_traffic(s, x) == s.insert(j, x),
    decreases j,
{
    if j == 0 {
        if s.len() == 0 {
            assert(s.insert(0, x) =~= seq![x]);
        } else {
            assert(s.insert(0, x) =~= seq![x] + s);
        }
    } else {
        let rest = s.drop_first();
        assert(!goes_before(x, s[0]));
        assert forall|k: int| 0 <= k < j - 1 implies !goes_before(x, #[trigger] rest[k]) by {
            assert(rest[k] == s[k + 1]);
        }
        if j < s.len() {
            assert(rest[j - 1] == s[j]);
        }
        lemma_insert_at(rest, x, j - 1);
        assert(seq![s[0]] + rest.insert(j - 1, x) =~= s.insert(j, x));
    }
}

fn traffic_before(a: &NetworkInfo, b: &NetworkInfo) -> (r: bool)
    ensures
        r == goes_before(*a, *b),
{
    a.received_bytes > b.received_bytes || (a.received_bytes == b.received_bytes
        && a.transmitted_bytes > b.transmitted_bytes)
}

/// Orders interfaces by traffic, most received first, ties broken by most transmitted,
/// keeping the order of interfaces with equal figures.
pub fn sort_by_traffic(networks: Vec<NetworkInfo>) -> (r: Vec<NetworkInfo>)
    ensures
        r@ == sorted_by_traffic(networks@),
        r@.to_multiset() =~= networks@.to_multiset(),
        forall|i: int, j: int|
            0 <= i < j < r@.len() ==> #[trigger] r@[i].received_bytes >= #[trigger] r@[j].received_bytes
                && (r@[i].received_bytes == r@[j].received_bytes ==> r@[i].transmitted_bytes
                >= r@[j].transmitted_bytes),
{
    let ghost orig = networks@;
    let mut input = networks;
    let mut out: Vec<NetworkInfo> = Vec::new();
    let n = input.len();
    let mut i: usize = 0;
    assert(orig.skip(0) =~= orig);
    assert(orig.take(0) =~= Seq::<NetworkInfo>::empty());
    while i < n
        invariant
            n == orig.len(),
            i <= n,
            input@ == orig.skip(i as int),
            out@ == sorted_by_traffic(orig.take(i as int)),
        decreases n - i,
    {
        let x = input.remove(0);
        assert(x == orig[i as int]);
        assert(input@ =~= orig.skip(i + 1));
        let mut j: usize = 0;
        while j < out.len() && !traffic_before(&x, &out[j])
            invariant
                j <= out@.len(),
                forall|k: int| 0 <= k < j ==> !goes_before(x, #[trigger] out@[k]),
            decreases out@.len() - j,
        {
            j = j + 1;
        }
        proof {
            lemma_insert_at(out@, x, j as int);
            assert(orig.take(i + 1).drop_last() =~= orig.take(i as int));
            assert(orig.take(i + 1).last() == x);
        }
        out.insert(j, x);
        i = i + 1;
    }
    assert(orig.take(n as int) =~= orig);
    proof {
        lemma_traffic_order_by_figures(orig);
    }
    out
}

} // verus!
