//! Region resolution: from the tokens a caller names, or the regions a
//! directory lists, to one home region and the replica regions around it.

use vstd::prelude::*;
use crate::text::{contains_text, lemma_texts_push, opt_text, same_text, texts};

verus! {

/// What `rusoto_core::Region::from_str` makes of a token: the canonical name
/// of the region it recognises (as `Region::name` gives it), or `None` where
/// it recognises none.
pub uninterp spec fn region_of_token(token: Seq<char>) -> Option<Seq<char>>;

/// Calls `rusoto_core::Region::from_str` on `token` and hands back the name of
/// the region it parsed, by `Region::name`. Believed, not proved: the outcome
/// is the one that `region_of_token` names for this token.
#[verifier::external_body]
pub(crate) fn known_region(token: &str) -> (name: Option<String>)
    ensures
        opt_text(name) == region_of_token(token@),
{
    match <rusoto_core::Region as std::str::FromStr>::from_str(token) {
        Ok(region) => Some(region.name().to_string()),
        Err(_) => None,
    }
}

/// Which regions an invocation asks for.
#[derive(Debug, Clone, PartialEq, Eq)]
pub enum RegionSelector {
    /// Every region that the directory lists.
    All,
    /// The regions named, the first of them being the home region.
    Explicit(Vec<String>),
}

/// Why no region set could be resolved.
#[derive(Debug, Clone, PartialEq, Eq)]
pub enum ResolveError {
    /// The explicit list was empty.
    NoRegionsSpecified,
    /// The token held names no known region.
    InvalidRegion(String),
    /// The directory lookup failed; the text is the provider's.
    RegionDiscoveryFailed(String),
}

/// A `ResolveError` over texts.
pub enum ResolveErrorView {
    NoRegionsSpecified,
    InvalidRegion(Seq<char>),
    RegionDiscoveryFailed(Seq<char>),
}

impl View for ResolveError {
    type V = ResolveErrorView;

    open spec fn view(&self) -> ResolveErrorView {
        match self {
            ResolveError::NoRegionsSpecified => ResolveErrorView::NoRegionsSpecified,
            ResolveError::InvalidRegion(t) => ResolveErrorView::InvalidRegion(t@),
            ResolveError::RegionDiscoveryFailed(m) => ResolveErrorView::RegionDiscoveryFailed(m@),
        }
    }
}

impl ResolveError {
    /// The diagnostic for an operator.
    pub fn message(&self) -> (text: String)
        ensures
            text@ == match self@ {
                ResolveErrorView::NoRegionsSpecified => "must specify one or more regions, or use the default of 'all'"@,
                ResolveErrorView::InvalidRegion(t) => "could not parse region: "@ + t,
                ResolveErrorView::RegionDiscoveryFailed(m) => "could not list regions: "@ + m,
            },
    {
        match self {
            ResolveError::NoRegionsSpecified => String::from_str(
                "must specify one or more regions, or use the default of 'all'",
            ),
            ResolveError::InvalidRegion(t) => String::from_str("could not parse region: ").concat(
                t.as_str(),
            ),
            ResolveError::RegionDiscoveryFailed(m) => String::from_str(
                "could not list regions: ",
            ).concat(m.as_str()),
        }
    }
}

/// The home region and the regions that receive a copy.
#[derive(Debug, Clone, PartialEq, Eq)]
pub struct ResolvedRegionSet {
    pub home: String,
    pub replicas: Vec<String>,
}

/// A `ResolvedRegionSet` over texts.
pub struct ResolvedView {
    pub home: Seq<char>,
    pub replicas: Seq<Seq<char>>,
}

impl View for ResolvedRegionSet {
    type V = ResolvedView;

    open spec fn view(&self) -> ResolvedView {
        ResolvedView { home: self.home@, replicas: texts(self.replicas@) }
    }
}

impl ResolvedView {
    /// The home region is no replica, and no replica is listed twice.
    pub open spec fn wf(self) -> bool {
        &&& !self.replicas.contains(self.home)
        &&& self.replicas.no_duplicates()
    }
}

impl ResolvedRegionSet {
    /// The home region is no replica, and no replica is listed twice.
    pub open spec fn wf(&self) -> bool {
        self@.wf()
    }
}

/// The canonical names of `tokens`, or the first token that names no region.
pub open spec fn spec_canonical(tokens: Seq<Seq<char>>) -> Result<Seq<Seq<char>>, Seq<char>>
    decreases tokens.len(),
{
    if tokens.len() == 0 {
        Ok(Seq::empty())
    } else {
        match spec_canonical(tokens.drop_last()) {
            Err(t) => Err(t),
            Ok(names) => match region_of_token(tokens.last()) {
                Some(n) => Ok(names.push(n)),
                None => Err(tokens.last()),
            },
        }
    }
}

/// `regions` without `home` and without repeats, each kept where it first
/// stood.
pub open spec fn spec_replicas(home: Seq<char>, regions: Seq<Seq<char>>) -> Seq<Seq<char>>
    decreases regions.len(),
{
    if regions.len() == 0 {
        Seq::empty()
    } else {
        let kept = spec_replicas(home, regions.drop_last());
        let r = regions.last();
        if r == home || kept.contains(r) {
            kept
        } else {
            kept.push(r)
        }
    }
}

/// What an explicit list resolves to.
pub open spec fn spec_resolve_explicit(tokens: Seq<Seq<char>>) -> Result<
    ResolvedView,
    ResolveErrorView,
> {
    if tokens.len() == 0 {
        Err(ResolveErrorView::NoRegionsSpecified)
    } else {
        match spec_canonical(tokens) {
            Err(t) => Err(ResolveErrorView::InvalidRegion(t)),
            Ok(names) => Ok(
                ResolvedView { home: names[0], replicas: spec_replicas(names[0], names) },
            ),
        }
    }
}

/// What "all regions" resolves to, given the ambient region and the regions
/// that the directory listed.
pub open spec fn spec_resolve_all(ambient: Seq<char>, discovered: Seq<Seq<char>>) -> Result<
    ResolvedView,
    ResolveErrorView,
> {
    match region_of_token(ambient) {
        None => Err(ResolveErrorView::InvalidRegion(ambient)),
        Some(home) => match spec_canonical(discovered) {
            Err(t) => Err(ResolveErrorView::InvalidRegion(t)),
            Ok(names) => Ok(ResolvedView { home, replicas: spec_replicas(home, names) }),
        },
    }
}

/// What a selector resolves to.
pub open spec fn spec_resolve(
    selector: RegionSelector,
    ambient: Seq<char>,
    discovered: Seq<Seq<char>>,
) -> Result<ResolvedView, ResolveErrorView> {
    match selector {
        RegionSelector::All => spec_resolve_all(ambient, discovered),
        RegionSelector::Explicit(tokens) => spec_resolve_explicit(texts(tokens@)),
    }
}

/// The view of a resolution's outcome.
pub open spec fn resolution_view(r: Result<ResolvedRegionSet, ResolveError>) -> Result<
    ResolvedView,
    ResolveErrorView,
> {
    match r {
        Ok(set) => Ok(set@),
        Err(e) => Err(e@),
    }
}

/// A canonical list is as long as its tokens and names each of them.
pub proof fn lemma_canonical_pointwise(tokens: Seq<Seq<char>>)
    ensures
        match spec_canonical(tokens) {
            Ok(names) => names.len() == tokens.len() && forall|i: int|
                0 <= i < tokens.len() ==> region_of_token(tokens[i]) == Some(#[trigger] names[i]),
            Err(t) => exists|k: int|
                0 <= k < tokens.len() && tokens[k] == t && region_of_token(tokens[k]) is None
                    && forall|j: int| 0 <= j < k ==> region_of_token(#[trigger] tokens[j]) is Some,
        },
    decreases tokens.len(),
{
    if tokens.len() > 0 {
        let front = tokens.drop_last();
        lemma_canonical_pointwise(front);
        match spec_canonical(front) {
            Err(t) => {
                let k = choose|k: int|
                    0 <= k < front.len() && front[k] == t && region_of_token(front[k]) is None
                        && forall|j: int|
                        0 <= j < k ==> region_of_token(#[trigger] front[j]) is Some;
                assert(tokens[k] == front[k]);
                assert forall|j: int| 0 <= j < k implies region_of_token(
                    #[trigger] tokens[j],
                ) is Some by {
                    assert(tokens[j] == front[j]);
                }
            },
            Ok(names) => {
                match region_of_token(tokens.last()) {
                    Some(n) => {
                        assert forall|i: int| 0 <= i < tokens.len() implies region_of_token(
                            tokens[i],
                        ) == Some(#[trigger] names.push(n)[i]) by {
                            if i < front.len() {
                                assert(tokens[i] == front[i]);
                                assert(names.push(n)[i] == names[i]);
                            }
                        }
                    },
                    None => {
                        let k = tokens.len() - 1;
                        assert forall|j: int| 0 <= j < k implies region_of_token(
                            #[trigger] tokens[j],
                        ) is Some by {
                            assert(tokens[j] == front[j]);
                            assert(region_of_token(front[j]) == Some(names[j]));
                        }
                    },
                }
            },
        }
    }
}

/// The replicas are exactly the regions other than home, each once.
pub proof fn lemma_replicas_members(home: Seq<char>, regions: Seq<Seq<char>>)
    ensures
        forall|x: Seq<char>| #[trigger]
            spec_replicas(home, regions).contains(x) <==> regions.contains(x) && x != home,
        spec_replicas(home, regions).no_duplicates(),
    decreases regions.len(),
{
    if regions.len() > 0 {
        let front = regions.drop_last();
        let r = regions.last();
        lemma_replicas_members(home, front);
        let kept = spec_replicas(home, front);
        let now = spec_replicas(home, regions);
        assert(regions =~= front.push(r));
        assert forall|x: Seq<char>| #[trigger] now.contains(x) <==> regions.contains(x) && x
            != home by {
            if now.contains(x) {
                if kept.contains(x) {
                    let j = choose|j: int| 0 <= j < front.len() && front[j] == x;
                    assert(regions[j] == x);
                } else {
                    let j = choose|j: int| 0 <= j < now.len() && now[j] == x;
                    assert(now == kept.push(r));
                    if j < kept.len() {
                        assert(kept[j] == x);
                    }
                    assert(x == r);
                    assert(regions[regions.len() - 1] == x);
                }
            }
            if regions.contains(x) && x != home {
                let j = choose|j: int| 0 <= j < regions.len() && regions[j] == x;
                if j < front.len() {
                    assert(front[j] == x);
                    assert(front.contains(x));
                    assert(kept.contains(x));
                    let k = choose|k: int| 0 <= k < kept.len() && kept[k] == x;
                    if now != kept {
                        assert(now[k] == x);
                    }
                } else {
                    if kept.contains(r) {
                    } else {
                        assert(now == kept.push(r));
                        assert(now[kept.len() as int] == x);
                    }
                }
            }
        }
    } else {
        assert(forall|x: Seq<char>| !regions.contains(x));
    }
}

/// Resolving the same selector twice, with the same surroundings, gives the
/// same home region and the same replicas, or the same error.
pub proof fn law_resolution_is_repeatable(
    selector: RegionSelector,
    ambient: Seq<char>,
    discovered: Seq<Seq<char>>,
    first: Result<ResolvedRegionSet, ResolveError>,
    second: Result<ResolvedRegionSet, ResolveError>,
)
    requires
        resolution_view(first) == spec_resolve(selector, ambient, discovered),
        resolution_view(second) == spec_resolve(selector, ambient, discovered),
    ensures
        resolution_view(first) == resolution_view(second),
        first matches Ok(a) ==> second matches Ok(b) && a.home@ == b.home@ && texts(a.replicas@)
            == texts(b.replicas@),
{
}

/// The home region is never among the replicas, whatever the list holds and
/// however often it names the home region.
pub proof fn law_home_is_no_replica(home: Seq<char>, regions: Seq<Seq<char>>)
    ensures
        !spec_replicas(home, regions).contains(home),
        spec_replicas(home, regions).no_duplicates(),
{
    lemma_replicas_members(home, regions);
}

/// Which regions are replicas depends on which regions a list names, not on
/// where or how often it names them.
pub proof fn law_replica_membership_ignores_order(
    home: Seq<char>,
    a: Seq<Seq<char>>,
    b: Seq<Seq<char>>,
)
    requires
        forall|x: Seq<char>| a.contains(x) <==> b.contains(x),
    ensures
        forall|x: Seq<char>|
            spec_replicas(home, a).contains(x) <==> spec_replicas(home, b).contains(x),
        spec_replicas(home, a).to_set() == spec_replicas(home, b).to_set(),
{
    lemma_replicas_members(home, a);
    lemma_replicas_members(home, b);
    assert forall|x: Seq<char>|
        spec_replicas(home, a).contains(x) <==> spec_replicas(home, b).contains(x) by {
        assert(spec_replicas(home, a).contains(x) <==> a.contains(x) && x != home);
        assert(spec_replicas(home, b).contains(x) <==> b.contains(x) && x != home);
    }
    assert(spec_replicas(home, a).to_set() =~= spec_replicas(home, b).to_set());
}

/// Every resolution is well formed, and an explicit list that resolves has
/// the region of its first token as home.
pub proof fn law_resolution_is_well_formed(
    selector: RegionSelector,
    ambient: Seq<char>,
    discovered: Seq<Seq<char>>,
)
    ensures
        match spec_resolve(selector, ambient, discovered) {
            Ok(set) => set.wf() && match selector {
                RegionSelector::All => region_of_token(ambient) == Some(set.home),
                RegionSelector::Explicit(tokens) => tokens@.len() > 0 && region_of_token(
                    tokens@[0]@,
                ) == Some(set.home),
            },
            Err(_) => true,
        },
{
    match selector {
        RegionSelector::All => {
            match region_of_token(ambient) {
                Some(home) => {
                    match spec_canonical(discovered) {
                        Ok(names) => lemma_replicas_members(home, names),
                        Err(_) => {},
                    }
                },
                None => {},
            }
        },
        RegionSelector::Explicit(tokens) => {
            let t = texts(tokens@);
            if t.len() > 0 {
                lemma_canonical_pointwise(t);
                match spec_canonical(t) {
                    Ok(names) => {
                        lemma_replicas_members(names[0], names);
                        assert(t[0] == tokens@[0]@);
                    },
                    Err(_) => {},
                }
            }
        },
    }
}

/// Validates each token and gives the canonical names, in order; fails on
/// the first token that names no region.
pub fn canonical_regions(tokens: &Vec<String>) -> (r: Result<Vec<String>, ResolveError>)
    ensures
        match r {
            Ok(names) => spec_canonical(texts(tokens@)) == Ok::<Seq<Seq<char>>, Seq<char>>(
                texts(names@),
            ),
            Err(e) => match e {
                ResolveError::InvalidRegion(t) => spec_canonical(texts(tokens@)) == Err::<
                    Seq<Seq<char>>,
                    Seq<char>,
                >(t@),
                _ => false,
            },
        },
{
    let mut names: Vec<String> = Vec::new();
    let mut i: usize = 0;
    proof {
        assert(texts(tokens@).take(0) =~= Seq::<Seq<char>>::empty());
        assert(texts(names@) =~= Seq::<Seq<char>>::empty());
    }
    while i < tokens.len()
        invariant
            i <= tokens.len(),
            spec_canonical(texts(tokens@).take(i as int)) == Ok::<Seq<Seq<char>>, Seq<char>>(
                texts(names@),
            ),
        decreases tokens.len() - i,
    {
        let ghost before = texts(tokens@).take(i as int);
        let ghost after = texts(tokens@).take(i as int + 1);
        proof {
            assert(after.drop_last() =~= before);
            assert(after.last() == tokens@[i as int]@);
        }
        match known_region(tokens[i].as_str()) {
            Some(name) => {
                proof {
                    lemma_texts_push(names@, name);
                }
                names.push(name);
            },
            None => {
                proof {
                    lemma_canonical_stays_failed(texts(tokens@), i as int + 1);
                }
                return Err(ResolveError::InvalidRegion(tokens[i].clone()));
            },
        }
        i = i + 1;
    }
    proof {
        assert(texts(tokens@).take(i as int) =~= texts(tokens@));
    }
    Ok(names)
}

/// Once a prefix has failed, the whole list fails on the same token.
pub proof fn lemma_canonical_stays_failed(tokens: Seq<Seq<char>>, n: int)
    requires
        0 <= n <= tokens.len(),
        spec_canonical(tokens.take(n)) is Err,
    ensures
        spec_canonical(tokens) == spec_canonical(tokens.take(n)),
    decreases tokens.len() - n,
{
    if n < tokens.len() {
        assert(tokens.take(n + 1).drop_last() =~= tokens.take(n));
        lemma_canonical_stays_failed(tokens, n + 1);
    } else {
        assert(tokens.take(n) =~= tokens);
    }
}

/// The regions that receive a copy: `regions` without `home` and without
/// repeats, in the order of first mention.
pub fn replica_set(home: &String, regions: &Vec<String>) -> (replicas: Vec<String>)
    ensures
        texts(replicas@) == spec_replicas(home@, texts(regions@)),
        !texts(replicas@).contains(home@),
        texts(replicas@).no_duplicates(),
        forall|x: Seq<char>| #[trigger]
            texts(replicas@).contains(x) <==> texts(regions@).contains(x) && x != home@,
{
    let mut replicas: Vec<String> = Vec::new();
    let mut i: usize = 0;
    proof {
        assert(texts(regions@).take(0) =~= Seq::<Seq<char>>::empty());
        assert(texts(replicas@) =~= Seq::<Seq<char>>::empty());
    }
    while i < regions.len()
        invariant
            i <= regions.len(),
            texts(replicas@) == spec_replicas(home@, texts(regions@).take(i as int)),
        decreases regions.len() - i,
    {
        proof {
            assert(texts(regions@).take(i as int + 1).drop_last() =~= texts(regions@).take(
                i as int,
            ));
            assert(texts(regions@).take(i as int + 1).last() == regions@[i as int]@);
        }
        let region = &regions[i];
        if !same_text(region, home) && !contains_text(&replicas, region) {
            let kept = region.clone();
            proof {
                lemma_texts_push(replicas@, kept);
            }
            replicas.push(kept);
        }
        i = i + 1;
    }
    proof {
        assert(texts(regions@).take(i as int) =~= texts(regions@));
        lemma_replicas_members(home@, texts(regions@));
    }
    replicas
}

/// Resolves an explicit list: every token must name a region; the first is
/// home, the others are replicas.
pub fn resolve_explicit(tokens: &Vec<String>) -> (r: Result<ResolvedRegionSet, ResolveError>)
    ensures
        resolution_view(r) == spec_resolve_explicit(texts(tokens@)),
        r matches Ok(set) ==> set.wf(),
{
    if tokens.len() == 0 {
        return Err(ResolveError::NoRegionsSpecified);
    }
    match canonical_regions(tokens) {
        Err(e) => Err(e),
        Ok(names) => {
            proof {
                lemma_canonical_pointwise(texts(tokens@));
            }
            let home = names[0].clone();
            let replicas = replica_set(&home, &names);
            Ok(ResolvedRegionSet { home, replicas })
        },
    }
}

/// Resolves "all regions": home is the ambient region, the replicas are the
/// other regions that the directory listed.
pub fn resolve_all(ambient: &str, discovered: &Vec<String>) -> (r: Result<
    ResolvedRegionSet,
    ResolveError,
>)
    ensures
        resolution_view(r) == spec_resolve_all(ambient@, texts(discovered@)),
        r matches Ok(set) ==> set.wf(),
{
    match known_region(ambient) {
        None => Err(ResolveError::InvalidRegion(String::from_str(ambient))),
        Some(home) => match canonical_regions(discovered) {
            Err(e) => Err(e),
            Ok(names) => {
                let replicas = replica_set(&home, &names);
                Ok(ResolvedRegionSet { home, replicas })
            },
        },
    }
}

impl RegionSelector {
    /// Whether resolving this selector needs the directory's listing.
    pub fn needs_discovery(&self) -> (needed: bool)
        ensures
            needed == (self is All),
    {
        match self {
            RegionSelector::All => true,
            RegionSelector::Explicit(_) => false,
        }
    }
}

/// Resolves a selector. `ambient` is the region of the surrounding
/// configuration and `discovered` the directory's listing; an explicit list
/// reads neither.
pub fn resolve(selector: &RegionSelector, ambient: &str, discovered: &Vec<String>) -> (r: Result<
    ResolvedRegionSet,
    ResolveError,
>)
    ensures
        resolution_view(r) == spec_resolve(*selector, ambient@, texts(discovered@)),
        r matches Ok(set) ==> set.wf(),
{
    match selector {
        RegionSelector::All => resolve_all(ambient, discovered),
        RegionSelector::Explicit(tokens) => resolve_explicit(tokens),
    }
}

} // verus!
