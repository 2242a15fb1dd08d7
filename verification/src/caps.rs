use vstd::prelude::*;

verus! {

// Capability negotiation: the transform advertises plain UTF-8 text on its
// input side and mono 32-bit float audio at a fixed rate on its output side.
// A caller-supplied filter is intersected entry by entry; where both sides
// constrain a field the filter's preference order wins, because intersection
// walks the filter's entries and rate lists first.

/// The sample rate the output side is fixed to at negotiation time.
pub const DEFAULT_SAMPLE_RATE: u32 = 22050;

/// Which side of the transform a negotiation asks about: upstream is the
/// text input side, downstream the audio output side.
#[derive(Debug, PartialEq, Eq, Structural, Clone, Copy)]
pub enum Direction {
    Upstream,
    Downstream,
}

#[derive(Debug, PartialEq, Eq, Structural, Clone, Copy)]
pub enum MediaKind {
    TextUtf8,
    AudioPcmF32,
}

/// One capability descriptor. `channels == 0` and an empty `rates` list
/// leave that field unconstrained; a non-empty `rates` lists the acceptable
/// sample rates in preference order.
pub struct CapsEntry {
    pub media: MediaKind,
    pub channels: u32,
    pub rates: Vec<u32>,
}

/// Mathematical model of a descriptor.
pub struct CapsEntryModel {
    pub media: MediaKind,
    pub channels: u32,
    pub rates: Seq<u32>,
}

impl View for CapsEntry {
    type V = CapsEntryModel;

    open spec fn view(&self) -> CapsEntryModel {
        CapsEntryModel { media: self.media, channels: self.channels, rates: self.rates@ }
    }
}

/// An ordered set of capability descriptors; an empty set means no match.
pub struct CapabilitySet {
    pub entries: Vec<CapsEntry>,
}

impl View for CapabilitySet {
    type V = Seq<CapsEntryModel>;

    open spec fn view(&self) -> Seq<CapsEntryModel> {
        self.entries@.map(|i: int, e: CapsEntry| e@)
    }
}

/// The rates of `a` that `b` also accepts, in `a`'s order.
pub open spec fn filter_rates(a: Seq<u32>, b: Seq<u32>) -> Seq<u32>
    decreases a.len(),
{
    if a.len() == 0 {
        Seq::empty()
    } else {
        let rest = filter_rates(a.skip(1), b);
        if b.contains(a[0]) {
            seq![a[0]] + rest
        } else {
            rest
        }
    }
}

/// Rate intersection; an empty list constrains nothing, and when both sides
/// constrain, the first side's preference order is kept.
pub open spec fn rates_intersect(a: Seq<u32>, b: Seq<u32>) -> Seq<u32> {
    if a.len() == 0 {
        b
    } else if b.len() == 0 {
        a
    } else {
        filter_rates(a, b)
    }
}

pub open spec fn entry_compatible(a: CapsEntryModel, b: CapsEntryModel) -> bool {
    &&& a.media == b.media
    &&& (a.channels == 0 || b.channels == 0 || a.channels == b.channels)
    &&& (a.rates.len() == 0 || b.rates.len() == 0 || filter_rates(a.rates, b.rates).len() > 0)
}

pub open spec fn entry_intersection(a: CapsEntryModel, b: CapsEntryModel) -> CapsEntryModel {
    CapsEntryModel {
        media: a.media,
        channels: if a.channels == 0 {
            b.channels
        } else {
            a.channels
        },
        rates: rates_intersect(a.rates, b.rates),
    }
}

/// Intersection of one filter entry with every entry of `n`, in `n`'s order.
pub open spec fn intersect_one(a: CapsEntryModel, n: Seq<CapsEntryModel>) -> Seq<CapsEntryModel>
    decreases n.len(),
{
    if n.len() == 0 {
        Seq::empty()
    } else {
        let rest = intersect_one(a, n.skip(1));
        if entry_compatible(a, n[0]) {
            seq![entry_intersection(a, n[0])] + rest
        } else {
            rest
        }
    }
}

/// Intersection of two capability sets, ordered by the filter's entries
/// first: the "first wins" tie-break.
pub open spec fn intersect_sets(f: Seq<CapsEntryModel>, n: Seq<CapsEntryModel>) -> Seq<
    CapsEntryModel,
>
    decreases f.len(),
{
    if f.len() == 0 {
        Seq::empty()
    } else {
        intersect_one(f[0], n) + intersect_sets(f.skip(1), n)
    }
}

/// The transform's native capability set for one direction.
pub open spec fn native_caps_model(direction: Direction) -> Seq<CapsEntryModel> {
    match direction {
        Direction::Upstream => seq![
            CapsEntryModel { media: MediaKind::TextUtf8, channels: 0, rates: Seq::empty() },
        ],
        Direction::Downstream => seq![
            CapsEntryModel {
                media: MediaKind::AudioPcmF32,
                channels: 1,
                rates: seq![DEFAULT_SAMPLE_RATE],
            },
        ],
    }
}

fn rates_contain(v: &Vec<u32>, x: u32) -> (b: bool)
    ensures
        b == v@.contains(x),
{
    let mut i: usize = 0;
    while i < v.len()
        invariant
            i <= v@.len(),
            forall|j: int| 0 <= j < i ==> v@[j] != x,
        decreases v@.len() - i,
    {
        if v[i] == x {
            proof {
                assert(v@[i as int] == x);
            }
            return true;
        }
        i = i + 1;
    }
    false
}

fn copy_rates(v: &Vec<u32>) -> (r: Vec<u32>)
    ensures
        r@ == v@,
{
    let mut out: Vec<u32> = Vec::new();
    let mut i: usize = 0;
    while i < v.len()
        invariant
            i <= v@.len(),
            out@ == v@.take(i as int),
        decreases v@.len() - i,
    {
        out.push(v[i]);
        proof {
            assert(out@ =~= v@.take(i as int + 1));
        }
        i = i + 1;
    }
    proof {
        assert(v@.take(v@.len() as int) =~= v@);
    }
    out
}

fn filter_rates_exec(a: &Vec<u32>, b: &Vec<u32>) -> (r: Vec<u32>)
    ensures
        r@ == filter_rates(a@, b@),
{
    let mut out: Vec<u32> = Vec::new();
    let mut i: usize = 0;
    proof {
        assert(a@.skip(0) =~= a@);
    }
    while i < a.len()
        invariant
            i <= a@.len(),
            out@ + filter_rates(a@.skip(i as int), b@) == filter_rates(a@, b@),
        decreases a@.len() - i,
    {
        let hit = rates_contain(b, a[i]);
        proof {
            assert(a@.skip(i as int).skip(1) =~= a@.skip(i as int + 1));
            assert(a@.skip(i as int)[0] == a@[i as int]);
        }
        let ghost pre = out@;
        if hit {
            out.push(a[i]);
            proof {
                assert(out@ + filter_rates(a@.skip(i as int + 1), b@) =~= pre + filter_rates(
                    a@.skip(i as int),
                    b@,
                ));
            }
        }
        i = i + 1;
    }
    proof {
        assert(a@.skip(a@.len() as int) =~= Seq::<u32>::empty());
        assert(out@ =~= out@ + filter_rates(a@.skip(a@.len() as int), b@));
    }
    out
}

/// Intersects two descriptors; yields nothing when the media kinds differ,
/// a constrained field conflicts, or no rate survives.
fn intersect_entry(a: &CapsEntry, b: &CapsEntry) -> (r: Option<CapsEntry>)
    ensures
        match r {
            Option::Some(e) => entry_compatible(a@, b@) && e@ == entry_intersection(a@, b@),
            Option::None => !entry_compatible(a@, b@),
        },
{
    if a.media != b.media {
        return Option::None;
    }
    if a.channels != 0 && b.channels != 0 && a.channels != b.channels {
        return Option::None;
    }
    let channels = if a.channels == 0 {
        b.channels
    } else {
        a.channels
    };
    let rates: Vec<u32>;
    if a.rates.len() == 0 {
        rates = copy_rates(&b.rates);
    } else if b.rates.len() == 0 {
        rates = copy_rates(&a.rates);
    } else {
        rates = filter_rates_exec(&a.rates, &b.rates);
        if rates.len() == 0 {
            return Option::None;
        }
    }
    Option::Some(CapsEntry { media: a.media, channels, rates })
}

/// Intersects a filter set against a native set, filter entries first.
pub fn intersect(filter: &CapabilitySet, native: &CapabilitySet) -> (r: CapabilitySet)
    ensures
        r@ == intersect_sets(filter@, native@),
{
    let ghost fv = filter@;
    let ghost nv = native@;
    let mut out: Vec<CapsEntry> = Vec::new();
    let mut i: usize = 0;
    proof {
        assert(fv.skip(0) =~= fv);
    }
    while i < filter.entries.len()
        invariant
            i <= filter.entries@.len(),
            fv == filter@,
            nv == native@,
            fv.len() == filter.entries@.len(),
            out@.map(|q: int, e: CapsEntry| e@) + intersect_sets(fv.skip(i as int), nv)
                == intersect_sets(fv, nv),
        decreases filter.entries@.len() - i,
    {
        let a = &filter.entries[i];
        let ghost av = a@;
        proof {
            assert(fv.skip(i as int).skip(1) =~= fv.skip(i as int + 1));
            assert(fv.skip(i as int)[0] == fv[i as int]);
            assert(fv[i as int] == av);
        }
        let mut j: usize = 0;
        let ghost base = out@.map(|q: int, e: CapsEntry| e@);
        proof {
            assert(nv.skip(0) =~= nv);
        }
        while j < native.entries.len()
            invariant
                j <= native.entries@.len(),
                nv == native@,
                nv.len() == native.entries@.len(),
                a@ == av,
                out@.map(|q: int, e: CapsEntry| e@) + intersect_one(av, nv.skip(j as int)) == base
                    + intersect_one(av, nv),
            decreases native.entries@.len() - j,
        {
            let b = &native.entries[j];
            proof {
                assert(nv.skip(j as int).skip(1) =~= nv.skip(j as int + 1));
                assert(nv.skip(j as int)[0] == nv[j as int]);
                assert(nv[j as int] == b@);
            }
            let ghost pre = out@.map(|q: int, e: CapsEntry| e@);
            let m = intersect_entry(a, b);
            match m {
                Option::Some(e) => {
                    let ghost ev = e@;
                    out.push(e);
                    proof {
                        let fm = out@.map(|q: int, e: CapsEntry| e@);
                        assert(fm =~= pre + seq![ev]);
                        assert(ev == entry_intersection(av, nv[j as int]));
                        assert(intersect_one(av, nv.skip(j as int)) == seq![
                            entry_intersection(av, nv[j as int]),
                        ] + intersect_one(av, nv.skip(j as int + 1)));
                        assert(fm + intersect_one(av, nv.skip(j as int + 1)) =~= pre
                            + intersect_one(av, nv.skip(j as int)));
                    }
                },
                Option::None => {
                    proof {
                        assert(intersect_one(av, nv.skip(j as int)) == intersect_one(
                            av,
                            nv.skip(j as int + 1),
                        ));
                    }
                },
            }
            j = j + 1;
        }
        proof {
            assert(nv.skip(nv.len() as int) =~= Seq::<CapsEntryModel>::empty());
            assert(out@.map(|q: int, e: CapsEntry| e@) =~= base + intersect_one(av, nv));
            assert(base + intersect_one(av, nv) + intersect_sets(fv.skip(i as int + 1), nv) =~= base
                + intersect_sets(fv.skip(i as int), nv));
        }
        i = i + 1;
    }
    proof {
        assert(fv.skip(fv.len() as int) =~= Seq::<CapsEntryModel>::empty());
        assert(out@.map(|q: int, e: CapsEntry| e@) =~= intersect_sets(fv, nv));
    }
    CapabilitySet { entries: out }
}

/// The transform's native capability set for one direction.
pub fn native_caps(direction: Direction) -> (r: CapabilitySet)
    ensures
        r@ == native_caps_model(direction),
{
    match direction {
        Direction::Upstream => {
            let mut entries: Vec<CapsEntry> = Vec::new();
            entries.push(
                CapsEntry { media: MediaKind::TextUtf8, channels: 0, rates: Vec::new() },
            );
            let r = CapabilitySet { entries };
            proof {
                assert(r@ =~= native_caps_model(Direction::Upstream));
            }
            r
        },
        Direction::Downstream => {
            let mut rates: Vec<u32> = Vec::new();
            rates.push(DEFAULT_SAMPLE_RATE);
            let mut entries: Vec<CapsEntry> = Vec::new();
            entries.push(CapsEntry { media: MediaKind::AudioPcmF32, channels: 1, rates });
            let r = CapabilitySet { entries };
            proof {
                assert(r@[0].rates =~= seq![DEFAULT_SAMPLE_RATE]);
                assert(r@ =~= native_caps_model(Direction::Downstream));
            }
            r
        },
    }
}

/// Computes the capability set for one direction, intersected with the
/// caller's filter when one is given. Total: it yields a set (possibly
/// empty, meaning no match), never a fault.
pub fn negotiate(direction: Direction, filter: Option<&CapabilitySet>) -> (r: CapabilitySet)
    ensures
        filter matches Option::Some(f) ==> r@ == intersect_sets(f@, native_caps_model(direction)),
        filter is None ==> r@ == native_caps_model(direction),
{
    let native = native_caps(direction);
    match filter {
        Option::Some(f) => intersect(f, &native),
        Option::None => native,
    }
}

/// A filter with no entry compatible with any native entry intersects to
/// the empty set: a disjoint filter yields "no match", never a fault.
pub proof fn lemma_disjoint_filter_empty(f: Seq<CapsEntryModel>, n: Seq<CapsEntryModel>)
    requires
        forall|i: int, j: int|
            0 <= i < f.len() && 0 <= j < n.len() ==> !entry_compatible(f[i], n[j]),
    ensures
        intersect_sets(f, n).len() == 0,
    decreases f.len(),
{
    if f.len() > 0 {
        lemma_incompatible_entry_empty(f[0], n);
        assert forall|i: int, j: int|
            0 <= i < f.skip(1).len() && 0 <= j < n.len() implies !entry_compatible(
            f.skip(1)[i],
            n[j],
        ) by {
            assert(f.skip(1)[i] == f[i + 1]);
        }
        lemma_disjoint_filter_empty(f.skip(1), n);
    }
}

proof fn lemma_incompatible_entry_empty(a: CapsEntryModel, n: Seq<CapsEntryModel>)
    requires
        forall|j: int| 0 <= j < n.len() ==> !entry_compatible(a, n[j]),
    ensures
        intersect_one(a, n).len() == 0,
    decreases n.len(),
{
    if n.len() > 0 {
        assert(!entry_compatible(a, n[0]));
        assert forall|j: int| 0 <= j < n.skip(1).len() implies !entry_compatible(
            a,
            n.skip(1)[j],
        ) by {
            assert(n.skip(1)[j] == n[j + 1]);
        }
        lemma_incompatible_entry_empty(a, n.skip(1));
    }
}

} // verus!
