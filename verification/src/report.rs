//! The report of a run: which image stands for the build in which region.

use vstd::prelude::*;
use crate::text::same_text;

verus! {

/// One published image: the region it is in and its identifier there.
#[derive(Debug, Clone, PartialEq, Eq)]
pub struct ImageRecord {
    pub region: String,
    pub image_id: String,
}

/// Region and identifier of each record, as texts.
pub open spec fn spec_records(records: Seq<ImageRecord>) -> Seq<(Seq<char>, Seq<char>)> {
    Seq::new(records.len(), |i: int| (records[i].region@, records[i].image_id@))
}

/// `base` with each record entered in turn under its region.
pub open spec fn spec_merge(
    base: Map<Seq<char>, Seq<char>>,
    records: Seq<(Seq<char>, Seq<char>)>,
) -> Map<Seq<char>, Seq<char>>
    decreases records.len(),
{
    if records.len() == 0 {
        base
    } else {
        spec_merge(base, records.drop_last()).insert(records.last().0, records.last().1)
    }
}

/// The report that a home image and the replicas made of it give: the home
/// entry first, then each replica.
pub open spec fn spec_aggregate(
    home: (Seq<char>, Seq<char>),
    replicas: Seq<(Seq<char>, Seq<char>)>,
) -> Map<Seq<char>, Seq<char>> {
    spec_merge(Map::empty().insert(home.0, home.1), replicas)
}

/// The mapping from region to image identifier. Entries are kept in the
/// order in which they were entered; a later entry for a region stands for
/// that region.
#[derive(Debug, Clone, PartialEq, Eq)]
pub struct Report {
    pub entries: Vec<ImageRecord>,
}

impl View for Report {
    type V = Map<Seq<char>, Seq<char>>;

    open spec fn view(&self) -> Map<Seq<char>, Seq<char>> {
        spec_merge(Map::empty(), spec_records(self.entries@))
    }
}

/// Entering one record more enters it into the merged map.
pub proof fn lemma_merge_push(
    base: Map<Seq<char>, Seq<char>>,
    records: Seq<(Seq<char>, Seq<char>)>,
    last: (Seq<char>, Seq<char>),
)
    ensures
        spec_merge(base, records.push(last)) == spec_merge(base, records).insert(last.0, last.1),
{
    assert(records.push(last).drop_last() =~= records);
}

/// Merging onto a first entry is merging the list that starts with it.
pub proof fn lemma_merge_front(
    first: (Seq<char>, Seq<char>),
    rest: Seq<(Seq<char>, Seq<char>)>,
)
    ensures
        spec_merge(Map::empty(), seq![first] + rest) == spec_aggregate(first, rest),
    decreases rest.len(),
{
    let base = Map::<Seq<char>, Seq<char>>::empty();
    if rest.len() == 0 {
        let one = seq![first];
        assert(seq![first] + rest =~= one);
        assert(one.drop_last() =~= Seq::<(Seq<char>, Seq<char>)>::empty());
        assert(one.last() == first);
        assert(spec_merge(base, one.drop_last()) == base);
        assert(spec_merge(base, one) == base.insert(first.0, first.1));
        assert(spec_merge(base.insert(first.0, first.1), rest) == base.insert(first.0, first.1));
    } else {
        let all = seq![first] + rest;
        lemma_merge_front(first, rest.drop_last());
        assert(all.drop_last() =~= seq![first] + rest.drop_last());
        assert(all.last() == rest.last());
        assert(spec_merge(base, all) == spec_merge(base, all.drop_last()).insert(
            all.last().0,
            all.last().1,
        ));
    }
}

/// What a merged map holds for a region: the last record entered for it, or
/// what the base held where no record names it.
pub proof fn lemma_merge_lookup(
    base: Map<Seq<char>, Seq<char>>,
    records: Seq<(Seq<char>, Seq<char>)>,
    region: Seq<char>,
    from: int,
)
    requires
        0 <= from <= records.len(),
        forall|j: int| from <= j < records.len() ==> (#[trigger] records[j]).0 != region,
    ensures
        from > 0 && records[from - 1].0 == region ==> spec_merge(base, records).contains_key(region)
            && spec_merge(base, records)[region] == records[from - 1].1,
        from == 0 ==> (spec_merge(base, records).contains_key(region) <==> base.contains_key(
            region,
        )),
        from == 0 && base.contains_key(region) ==> spec_merge(base, records)[region]
            == base[region],
    decreases records.len(),
{
    if records.len() > from {
        let front = records.drop_last();
        assert(records.last() == records[records.len() - 1]);
        assert forall|j: int| from <= j < front.len() implies (#[trigger] front[j]).0 != region by {
            assert(front[j] == records[j]);
        }
        lemma_merge_lookup(base, front, region, from);
        if from > 0 {
            assert(front[from - 1] == records[from - 1]);
        }
    } else if from > 0 {
        assert(records.last() == records[from - 1]);
    }
}

/// A report made by `spec_aggregate` always has an entry for the home
/// region, and it names the home image unless a replica was recorded under
/// the home region's own name.
pub proof fn law_report_holds_home(
    home: (Seq<char>, Seq<char>),
    replicas: Seq<(Seq<char>, Seq<char>)>,
)
    ensures
        spec_aggregate(home, replicas).contains_key(home.0),
        (forall|j: int| 0 <= j < replicas.len() ==> (#[trigger] replicas[j]).0 != home.0)
            ==> spec_aggregate(home, replicas)[home.0] == home.1,
    decreases replicas.len(),
{
    if replicas.len() > 0 {
        law_report_holds_home(home, replicas.drop_last());
        assert(replicas.last() == replicas[replicas.len() - 1]);
        if forall|j: int| 0 <= j < replicas.len() ==> (#[trigger] replicas[j]).0 != home.0 {
            assert forall|j: int| 0 <= j < replicas.drop_last().len() implies (
            #[trigger] replicas.drop_last()[j]).0 != home.0 by {
                assert(replicas.drop_last()[j] == replicas[j]);
            }
        }
    }
}

/// A report has an entry for exactly the home region and the regions of the
/// replicas recorded: a region whose copy was not recorded is absent.
pub proof fn law_report_regions(
    home: (Seq<char>, Seq<char>),
    replicas: Seq<(Seq<char>, Seq<char>)>,
    region: Seq<char>,
)
    ensures
        spec_aggregate(home, replicas).contains_key(region) <==> region == home.0 || exists|
            j: int,
        | 0 <= j < replicas.len() && (#[trigger] replicas[j]).0 == region,
    decreases replicas.len(),
{
    if replicas.len() > 0 {
        let front = replicas.drop_last();
        law_report_regions(home, front, region);
        assert(replicas.last() == replicas[replicas.len() - 1]);
        if exists|j: int| 0 <= j < front.len() && (#[trigger] front[j]).0 == region {
            let j = choose|j: int| 0 <= j < front.len() && (#[trigger] front[j]).0 == region;
            assert(replicas[j] == front[j]);
        }
        if exists|j: int| 0 <= j < replicas.len() && (#[trigger] replicas[j]).0 == region {
            let j = choose|j: int| 0 <= j < replicas.len() && (#[trigger] replicas[j]).0 == region;
            if j < front.len() {
                assert(front[j] == replicas[j]);
            }
        }
    }
}

/// No two of `records` are for the same region.
pub open spec fn spec_distinct_regions(records: Seq<(Seq<char>, Seq<char>)>) -> bool {
    forall|i: int, j: int|
        0 <= i < j < records.len() ==> (#[trigger] records[i]).0 != (#[trigger] records[j]).0
}

/// Where no two replicas are for the same region, the report holds each
/// replica's image under its region.
pub proof fn law_report_holds_each_replica(
    home: (Seq<char>, Seq<char>),
    replicas: Seq<(Seq<char>, Seq<char>)>,
    j: int,
)
    requires
        spec_distinct_regions(replicas),
        0 <= j < replicas.len(),
    ensures
        spec_aggregate(home, replicas).contains_key(replicas[j].0),
        spec_aggregate(home, replicas)[replicas[j].0] == replicas[j].1,
{
    lemma_merge_lookup(
        Map::empty().insert(home.0, home.1),
        replicas,
        replicas[j].0,
        j + 1,
    );
}

/// The report does not depend on the order in which the replicas were
/// recorded: the same replicas, each for a region of its own, give the same
/// report however they are arranged.
pub proof fn law_report_ignores_order(
    home: (Seq<char>, Seq<char>),
    a: Seq<(Seq<char>, Seq<char>)>,
    b: Seq<(Seq<char>, Seq<char>)>,
)
    requires
        spec_distinct_regions(a),
        spec_distinct_regions(b),
        forall|x: (Seq<char>, Seq<char>)| a.contains(x) <==> b.contains(x),
    ensures
        spec_aggregate(home, a) == spec_aggregate(home, b),
{
    let ra = spec_aggregate(home, a);
    let rb = spec_aggregate(home, b);
    let base = Map::<Seq<char>, Seq<char>>::empty().insert(home.0, home.1);
    assert forall|k: Seq<char>|
        (#[trigger] ra.dom().contains(k)) == rb.dom().contains(k) && (ra.dom().contains(k)
            ==> ra[k] == rb[k]) by {
        law_report_regions(home, a, k);
        law_report_regions(home, b, k);
        if exists|j: int| 0 <= j < a.len() && (#[trigger] a[j]).0 == k {
            let j = choose|j: int| 0 <= j < a.len() && (#[trigger] a[j]).0 == k;
            assert(a.contains(a[j]));
            assert(b.contains(a[j]));
            let i = choose|i: int| 0 <= i < b.len() && b[i] == a[j];
            assert(b[i].0 == k);
            law_report_holds_each_replica(home, a, j);
            law_report_holds_each_replica(home, b, i);
        } else if exists|i: int| 0 <= i < b.len() && (#[trigger] b[i]).0 == k {
            let i = choose|i: int| 0 <= i < b.len() && (#[trigger] b[i]).0 == k;
            assert(b.contains(b[i]));
            assert(a.contains(b[i]));
            let j = choose|j: int| 0 <= j < a.len() && a[j] == b[i];
            assert(a[j].0 == k);
        } else {
            lemma_merge_lookup(base, a, k, 0);
            lemma_merge_lookup(base, b, k, 0);
        }
    }
    assert(ra =~= rb);
}

impl Report {
    /// A report without entries.
    pub fn new() -> (r: Report)
        ensures
            r@ == Map::<Seq<char>, Seq<char>>::empty(),
    {
        let r = Report { entries: Vec::new() };
        proof {
            assert(spec_records(r.entries@) =~= Seq::<(Seq<char>, Seq<char>)>::empty());
        }
        r
    }

    /// Enters `image_id` under `region`, in place of what stood there.
    pub fn insert(&mut self, region: String, image_id: String)
        ensures
            final(self)@ == old(self)@.insert(region@, image_id@),
    {
        proof {
            lemma_merge_push(Map::empty(), spec_records(self.entries@), (region@, image_id@));
            assert(spec_records(self.entries@.push(ImageRecord { region, image_id }))
                =~= spec_records(self.entries@).push((region@, image_id@)));
        }
        self.entries.push(ImageRecord { region, image_id });
    }

    /// The image identifier recorded for `region`, if there is one.
    pub fn get(&self, region: &String) -> (image_id: Option<String>)
        ensures
            match image_id {
                Some(id) => self@.contains_key(region@) && self@[region@] == id@,
                None => !self@.contains_key(region@),
            },
    {
        let mut i: usize = self.entries.len();
        while i > 0
            invariant
                i <= self.entries.len(),
                forall|j: int|
                    i <= j < self.entries.len() ==> (#[trigger] spec_records(self.entries@)[j]).0
                        != region@,
            decreases i,
        {
            if same_text(&self.entries[i - 1].region, region) {
                proof {
                    lemma_merge_lookup(
                        Map::empty(),
                        spec_records(self.entries@),
                        region@,
                        i as int,
                    );
                }
                return Some(self.entries[i - 1].image_id.clone());
            }
            i = i - 1;
        }
        proof {
            lemma_merge_lookup(Map::empty(), spec_records(self.entries@), region@, 0);
        }
        None
    }
}

/// A copy of `records`, entry for entry.
pub fn clone_records(records: &Vec<ImageRecord>) -> (copy: Vec<ImageRecord>)
    ensures
        spec_records(copy@) == spec_records(records@),
{
    let mut copy: Vec<ImageRecord> = Vec::new();
    let mut i: usize = 0;
    while i < records.len()
        invariant
            i <= records.len(),
            copy@.len() == i,
            forall|j: int|
                0 <= j < i ==> (#[trigger] copy@[j]).region@ == records@[j].region@ && copy@[j].image_id@
                    == records@[j].image_id@,
        decreases records.len() - i,
    {
        copy.push(
            ImageRecord {
                region: records[i].region.clone(),
                image_id: records[i].image_id.clone(),
            },
        );
        i = i + 1;
    }
    proof {
        assert(spec_records(copy@) =~= spec_records(records@));
    }
    copy
}

/// Merges the home image and the replicas made of it into one report: the
/// home entry first, then each replica, keyed by region.
pub fn aggregate(home: ImageRecord, replicas: Vec<ImageRecord>) -> (report: Report)
    ensures
        report@ == spec_aggregate((home.region@, home.image_id@), spec_records(replicas@)),
        report@.contains_key(home.region@),
{
    let ghost first = (home.region@, home.image_id@);
    let mut entries: Vec<ImageRecord> = Vec::new();
    entries.push(home);
    let mut replicas = replicas;
    let ghost rest = spec_records(replicas@);
    proof {
        assert(spec_records(entries@) =~= seq![first]);
    }
    entries.append(&mut replicas);
    proof {
        assert(spec_records(entries@) =~= seq![first] + rest);
        lemma_merge_front(first, rest);
        law_report_holds_home(first, rest);
    }
    Report { entries }
}

} // verus!
