use vstd::prelude::*;
use crate::catalog::{has_id, lookup, FoodCatalog};
use crate::models::{strings_view, ComponentView, Food, FoodKindView, FoodView, copy_strings};
use crate::quantity::{add_saturating, mul_scaled, plus, scaled};

verus! {

/// Why a food's calories could not be computed.
#[derive(Debug, Clone, Copy, PartialEq, Eq, Structural)]
pub enum ResolveError {
    /// A composite food's components lead back to a food already being expanded.
    CyclicReference,
}

/// Termination measure of the resolution: foods not yet on the path, plus one.
pub open spec fn room(foods: Seq<FoodView>, path: Seq<Seq<char>>) -> nat {
    if path.len() <= foods.len() {
        (foods.len() - path.len() + 1) as nat
    } else {
        0
    }
}

/// Calories per serving of food `id`, expanding composites while `path` holds
/// the composites that are being expanded already.
///
/// An unknown identifier counts as zero. Expanding a composite that is already
/// on the path, or a path as long as the catalog, is a cyclic reference.
pub open spec fn resolve_from(foods: Seq<FoodView>, id: Seq<char>, path: Seq<Seq<char>>) -> Result<
    nat,
    ResolveError,
>
    decreases room(foods, path), 0nat,
{
    match lookup(foods, id) {
        None => Ok(0),
        Some(f) => match f.kind {
            FoodKindView::Basic(c) => Ok(c),
            FoodKindView::Composite(comps) => {
                if path.contains(id) || path.len() >= foods.len() {
                    Err(ResolveError::CyclicReference)
                } else {
                    components_total(foods, comps, path.push(id))
                }
            },
        },
    }
}

/// Weighted sum, in list order, of the calories of `comps`.
pub open spec fn components_total(
    foods: Seq<FoodView>,
    comps: Seq<ComponentView>,
    path: Seq<Seq<char>>,
) -> Result<nat, ResolveError>
    decreases room(foods, path), comps.len(),
{
    if comps.len() == 0 {
        Ok(0)
    } else {
        match components_total(foods, comps.drop_last(), path) {
            Err(e) => Err(e),
            Ok(t) => match resolve_from(foods, comps.last().food_id, path) {
                Err(e) => Err(e),
                Ok(v) => Ok(plus(t, scaled(comps.last().servings, v))),
            },
        }
    }
}

/// Calories per serving of food `id` in catalog `foods`.
pub open spec fn resolve_spec(foods: Seq<FoodView>, id: Seq<char>) -> Result<nat, ResolveError> {
    resolve_from(foods, id, Seq::empty())
}

/// Once a prefix of the components fails, the whole list fails.
proof fn lemma_total_prefix_err(
    foods: Seq<FoodView>,
    comps: Seq<ComponentView>,
    path: Seq<Seq<char>>,
    k: int,
)
    requires
        0 <= k <= comps.len(),
        components_total(foods, comps.subrange(0, k), path) is Err,
    ensures
        components_total(foods, comps, path) is Err,
    decreases comps.len() - k,
{
    if k < comps.len() {
        let next = comps.subrange(0, k + 1);
        assert(next.drop_last() =~= comps.subrange(0, k));
        lemma_total_prefix_err(foods, comps, path, k + 1);
    } else {
        assert(comps.subrange(0, k) =~= comps);
    }
}

/// A component whose resolution fails makes the whole list fail.
proof fn lemma_total_component_err(
    foods: Seq<FoodView>,
    comps: Seq<ComponentView>,
    path: Seq<Seq<char>>,
    m: int,
)
    requires
        0 <= m < comps.len(),
        resolve_from(foods, comps[m].food_id, path) is Err,
    ensures
        components_total(foods, comps, path) is Err,
{
    let prefix = comps.subrange(0, m + 1);
    assert(prefix.drop_last() =~= comps.subrange(0, m));
    assert(prefix.last() == comps[m]);
    lemma_total_prefix_err(foods, comps, path, m + 1);
}

/// Every identifier of `q` is on `p`, and `q` is no longer than `p`.
pub open spec fn sub_path(q: Seq<Seq<char>>, p: Seq<Seq<char>>) -> bool {
    &&& q.len() <= p.len()
    &&& forall|x: Seq<char>| #[trigger] q.contains(x) ==> p.contains(x)
}

/// A successful resolution does not depend on a longer path than needed.
proof fn lemma_resolve_sub_path(
    foods: Seq<FoodView>,
    id: Seq<char>,
    p: Seq<Seq<char>>,
    q: Seq<Seq<char>>,
)
    requires
        resolve_from(foods, id, p) is Ok,
        sub_path(q, p),
    ensures
        resolve_from(foods, id, q) == resolve_from(foods, id, p),
    decreases room(foods, p), 0nat,
{
    if let Some(f) = lookup(foods, id) {
        if let FoodKindView::Composite(comps) = f.kind {
            assert(!q.contains(id));
            let pp = p.push(id);
            let qq = q.push(id);
            assert forall|x: Seq<char>| #[trigger] qq.contains(x) implies pp.contains(x) by {
                if x != id {
                    let j = choose|j: int| 0 <= j < qq.len() && qq[j] == x;
                    assert(q[j] == x);
                    assert(q.contains(x));
                    let l = choose|l: int| 0 <= l < p.len() && p[l] == x;
                    assert(pp[l] == x);
                } else {
                    assert(pp[p.len() as int] == x);
                }
            }
            lemma_total_sub_path(foods, comps, pp, qq);
        }
    }
}

/// A successful weighted sum does not depend on a longer path than needed.
proof fn lemma_total_sub_path(
    foods: Seq<FoodView>,
    comps: Seq<ComponentView>,
    p: Seq<Seq<char>>,
    q: Seq<Seq<char>>,
)
    requires
        components_total(foods, comps, p) is Ok,
        sub_path(q, p),
    ensures
        components_total(foods, comps, q) == components_total(foods, comps, p),
    decreases room(foods, p), comps.len(),
{
    if comps.len() > 0 {
        lemma_total_sub_path(foods, comps.drop_last(), p, q);
        lemma_resolve_sub_path(foods, comps.last().food_id, p, q);
    }
}

/// An atomic food resolves to exactly its stored calorie value.
pub proof fn lemma_resolve_basic(foods: Seq<FoodView>, i: int)
    requires
        crate::catalog::ids_unique(foods),
        0 <= i < foods.len(),
        foods[i].kind is Basic,
    ensures
        resolve_spec(foods, foods[i].id) == Ok::<nat, ResolveError>(foods[i].kind->Basic_0),
{
    crate::catalog::lemma_lookup_at(foods, i);
}

/// Food `a` is a composite that lists food `b` among its components.
pub open spec fn uses(foods: Seq<FoodView>, a: Seq<char>, b: Seq<char>) -> bool {
    &&& lookup(foods, a) matches Some(f)
    &&& f.kind matches FoodKindView::Composite(comps)
    &&& exists|m: int| 0 <= m < comps.len() && (#[trigger] comps[m]).food_id == b
}

/// Each food of `chain` lists the next one among its components.
pub open spec fn is_chain(foods: Seq<FoodView>, chain: Seq<Seq<char>>) -> bool {
    forall|k: int| 0 <= k < chain.len() - 1 ==> uses(foods, #[trigger] chain[k], chain[k + 1])
}

/// Some chain of components that starts at food `id` visits a food twice.
pub open spec fn revisits_from(foods: Seq<FoodView>, id: Seq<char>) -> bool {
    exists|ch: Seq<Seq<char>>| ch.len() >= 1 && ch[0] == id && is_chain(foods, ch) && !ch.no_duplicates()
}

/// Distinct identifiers that all occur in the catalog are no more than its foods.
proof fn lemma_distinct_ids_bound(foods: Seq<FoodView>, s: Seq<Seq<char>>)
    requires
        s.no_duplicates(),
        forall|k: int| 0 <= k < s.len() ==> has_id(foods, #[trigger] s[k]),
    ensures
        s.len() <= foods.len(),
{
    let ids = foods.map_values(|f: FoodView| f.id);
    s.unique_seq_to_set();
    ids.lemma_cardinality_of_set();
    vstd::seq_lib::seq_to_set_is_finite(ids);
    assert forall|x: Seq<char>| #[trigger] s.to_set().contains(x) implies ids.to_set().contains(x) by {
        let k = choose|k: int| 0 <= k < s.len() && s[k] == x;
        assert(has_id(foods, s[k]));
        let i = choose|i: int| 0 <= i < foods.len() && (#[trigger] foods[i]).id == x;
        assert(ids[i] == x);
    }
    vstd::set_lib::lemma_len_subset(s.to_set(), ids.to_set());
}

/// A failed weighted sum has a component whose resolution fails.
proof fn lemma_total_err_component(foods: Seq<FoodView>, comps: Seq<ComponentView>, path: Seq<Seq<char>>)
    requires
        components_total(foods, comps, path) is Err,
    ensures
        exists|m: int| 0 <= m < comps.len() && resolve_from(foods, (#[trigger] comps[m]).food_id, path) is Err,
    decreases comps.len(),
{
    let prev = comps.drop_last();
    if components_total(foods, prev, path) is Err {
        lemma_total_err_component(foods, prev, path);
        let m = choose|m: int| 0 <= m < prev.len() && resolve_from(foods, (#[trigger] prev[m]).food_id, path) is Err;
        assert(comps[m] == prev[m]);
    } else {
        assert(resolve_from(foods, comps[comps.len() - 1].food_id, path) is Err);
    }
}

/// A failed resolution along a chain of components extends that chain to one
/// that visits a food twice.
proof fn lemma_failure_revisits(foods: Seq<FoodView>, id: Seq<char>, p: Seq<Seq<char>>)
    requires
        is_chain(foods, p.push(id)),
        p.no_duplicates(),
        resolve_from(foods, id, p) is Err,
    ensures
        exists|ch: Seq<Seq<char>>|
            is_chain(foods, ch) && ch.len() > p.len() && ch.subrange(0, p.len() as int + 1) == p.push(id)
                && !ch.no_duplicates(),
    decreases room(foods, p), 0nat,
{
    let pp = p.push(id);
    let f = lookup(foods, id).unwrap();
    let comps = f.kind->Composite_0;
    if p.contains(id) {
        let j = choose|j: int| 0 <= j < p.len() && p[j] == id;
        assert(pp[j] == pp[p.len() as int]);
        assert(pp.subrange(0, p.len() as int + 1) =~= pp);
        assert(!pp.no_duplicates());
        assert(is_chain(foods, pp) && pp.len() > p.len() && pp.subrange(0, p.len() as int + 1) == pp
            && !pp.no_duplicates());
    } else if p.len() >= foods.len() {
        assert forall|k: int| 0 <= k < pp.len() implies has_id(foods, #[trigger] pp[k]) by {
            if k < p.len() {
                assert(uses(foods, pp[k], pp[k + 1]));
            }
        }
        lemma_distinct_ids_bound(foods, pp);
    } else {
        lemma_total_err_component(foods, comps, pp);
        let m = choose|m: int| 0 <= m < comps.len() && resolve_from(foods, (#[trigger] comps[m]).food_id, pp) is Err;
        let g = comps[m].food_id;
        assert(uses(foods, id, g));
        assert(is_chain(foods, pp.push(g))) by {
            assert forall|k: int| 0 <= k < pp.push(g).len() - 1 implies uses(foods, #[trigger] pp.push(g)[k], pp.push(g)[k + 1]) by {
                if k < pp.len() - 1 {
                    assert(uses(foods, pp[k], pp[k + 1]));
                }
            }
        }
        lemma_failure_revisits(foods, g, pp);
        let ch = choose|ch: Seq<Seq<char>>|
            is_chain(foods, ch) && ch.len() > pp.len() && ch.subrange(0, pp.len() as int + 1) == pp.push(g)
                && !ch.no_duplicates();
        assert(ch.subrange(0, p.len() as int + 1) =~= ch.subrange(0, pp.len() as int + 1).subrange(0, p.len() as int + 1));
        assert(pp.push(g).subrange(0, p.len() as int + 1) =~= pp);
        assert(ch.subrange(0, p.len() as int + 1) == pp);
    }
}

/// A composite food none of whose chains of components visits a food twice
/// resolves, and to the weighted sum, in component order, of its components'
/// own resolved calories: each counts `servings` times its calories,
/// truncated to thousandths.
pub proof fn lemma_resolve_composite(foods: Seq<FoodView>, i: int)
    requires
        crate::catalog::ids_unique(foods),
        0 <= i < foods.len(),
        foods[i].kind is Composite,
        !revisits_from(foods, foods[i].id),
    ensures
        resolve_spec(foods, foods[i].id) is Ok,
        resolve_spec(foods, foods[i].id) == components_total(
            foods,
            foods[i].kind->Composite_0,
            Seq::empty(),
        ),
{
    crate::catalog::lemma_lookup_at(foods, i);
    let id = foods[i].id;
    let e = Seq::<Seq<char>>::empty();
    let comps = foods[i].kind->Composite_0;
    if resolve_spec(foods, id) is Err {
        assert(e.push(id) =~= seq![id]);
        lemma_failure_revisits(foods, id, e);
        let ch = choose|ch: Seq<Seq<char>>|
            is_chain(foods, ch) && ch.len() > e.len() && ch.subrange(0, e.len() as int + 1) == e.push(id)
                && !ch.no_duplicates();
        assert(ch.subrange(0, 1)[0] == ch[0]);
        assert(false);
    }
    assert(resolve_from(foods, id, e) == components_total(foods, comps, e.push(id)));
    assert(sub_path(e, e.push(id)));
    lemma_total_sub_path(foods, comps, e.push(id), e);
}

/// Resolving any food of a chain that ends at a food already on the path fails.
proof fn lemma_chain_fails(
    foods: Seq<FoodView>,
    chain: Seq<Seq<char>>,
    k: int,
    path: Seq<Seq<char>>,
)
    requires
        chain.len() >= 2,
        is_chain(foods, chain),
        uses(foods, chain.last(), chain[1]),
        0 <= k < chain.len(),
        path.contains(chain.last()),
    ensures
        resolve_from(foods, chain[k], path) is Err,
    decreases chain.len() - k,
{
    if k < chain.len() - 1 {
        assert(uses(foods, chain[k], chain[k + 1]));
        let f = lookup(foods, chain[k]).unwrap();
        let comps = f.kind->Composite_0;
        if !(path.contains(chain[k]) || path.len() >= foods.len()) {
            let pp = path.push(chain[k]);
            let j = choose|j: int| 0 <= j < path.len() && path[j] == chain.last();
            assert(pp[j] == chain.last());
            lemma_chain_fails(foods, chain, k + 1, pp);
            let m = choose|m: int| 0 <= m < comps.len() && (#[trigger] comps[m]).food_id == chain[k + 1];
            lemma_total_component_err(foods, comps, pp, m);
        }
    } else {
        assert(lookup(foods, chain.last()) is Some);
    }
}

/// A composite food whose components lead, through a chain of composites,
/// back to itself fails to resolve with a cyclic reference.
pub proof fn lemma_resolve_cycle(foods: Seq<FoodView>, chain: Seq<Seq<char>>)
    requires
        chain.len() >= 2,
        is_chain(foods, chain),
        chain[0] == chain.last(),
    ensures
        resolve_spec(foods, chain[0]) == Err::<nat, ResolveError>(ResolveError::CyclicReference),
{
    let id = chain[0];
    let e = Seq::<Seq<char>>::empty();
    assert(uses(foods, chain[0], chain[1]));
    let f = lookup(foods, id).unwrap();
    let comps = f.kind->Composite_0;
    assert(!e.contains(id));
    if e.len() < foods.len() {
        let pp = e.push(id);
        assert(pp[0] == chain.last());
        lemma_chain_fails(foods, chain, 1, pp);
        let m = choose|m: int| 0 <= m < comps.len() && (#[trigger] comps[m]).food_id == chain[1];
        lemma_total_component_err(foods, comps, pp, m);
    }
}

/// Whether `path` holds a string equal to `s`.
fn contains_string(path: &Vec<String>, s: &String) -> (r: bool)
    ensures
        r == strings_view(path@).contains(s@),
{
    let mut i: usize = 0;
    while i < path.len()
        invariant
            i <= path.len(),
            forall|j: int| 0 <= j < i ==> (#[trigger] path@[j])@ != s@,
        decreases path.len() - i,
    {
        if path[i].eq(s) {
            assert(strings_view(path@)[i as int] == s@);
            return true;
        }
        i = i + 1;
    }
    proof {
        if strings_view(path@).contains(s@) {
            let j = choose|j: int| 0 <= j < strings_view(path@).len() && strings_view(path@)[j] == s@;
            assert(path@[j]@ == s@);
        }
    }
    false
}

impl FoodCatalog {
    fn resolve_on_path(&self, id: &String, path: &Vec<String>) -> (r: Result<u64, ResolveError>)
        requires
            self.wf(),
        ensures
            match r {
                Ok(v) => resolve_from(self@, id@, strings_view(path@)) == Ok::<nat, ResolveError>(v as nat),
                Err(e) => resolve_from(self@, id@, strings_view(path@)) == Err::<nat, ResolveError>(e),
            },
        decreases self@.len() - path@.len() + 1,
    {
        let ghost spath = strings_view(path@);
        match self.find_index(id) {
            None => Ok(0),
            Some(i) => {
                assert(self@[i as int] == self.foods@[i as int]@);
                match &self.foods[i] {
                    Food::Basic(b) => Ok(b.calories_per_serving),
                    Food::Composite(c) => {
                        if contains_string(path, id) || path.len() >= self.foods.len() {
                            return Err(ResolveError::CyclicReference);
                        }
                        let mut inner = copy_strings(path);
                        inner.push(id.clone());
                        let ghost ipath = strings_view(inner@);
                        assert(ipath =~= spath.push(id@));
                        let ghost comps = self@[i as int].kind->Composite_0;
                        assert(comps == crate::models::components_view(c.components@));
                        let mut acc: u64 = 0;
                        let mut k: usize = 0;
                        assert(comps.subrange(0, 0) =~= Seq::<ComponentView>::empty());
                        while k < c.components.len()
                            invariant
                                self.wf(),
                                k <= c.components.len(),
                                comps == crate::models::components_view(c.components@),
                                strings_view(inner@) == ipath,
                                ipath.len() == path@.len() + 1,
                                path@.len() < self@.len(),
                                !spath.contains(id@),
                                spath == strings_view(path@),
                                ipath == spath.push(id@),
                                i < self@.len(),
                                lookup(self@, id@) == Some(self@[i as int]),
                                self@[i as int].kind == FoodKindView::Composite(comps),
                                components_total(self@, comps.subrange(0, k as int), ipath)
                                    == Ok::<nat, ResolveError>(acc as nat),
                            decreases c.components.len() - k,
                        {
                            let comp = &c.components[k];
                            let ghost next = comps.subrange(0, k + 1);
                            assert(next.drop_last() =~= comps.subrange(0, k as int));
                            assert(next.last() == comp@);
                            match self.resolve_on_path(&comp.food_id, &inner) {
                                Ok(v) => {
                                    acc = add_saturating(acc, mul_scaled(comp.servings, v));
                                },
                                Err(e) => {
                                    proof {
                                        lemma_total_prefix_err(self@, comps, ipath, k + 1);
                                        assert(resolve_from(self@, id@, spath) == components_total(
                                            self@,
                                            comps,
                                            ipath,
                                        ));
                                    }
                                    return Err(e);
                                },
                            }
                            k = k + 1;
                        }
                        assert(comps.subrange(0, k as int) =~= comps);
                        Ok(acc)
                    },
                }
            },
        }
    }

    /// Calories per serving of the food `food_id`, in thousandths of a kilocalorie.
    ///
    /// An identifier that the catalog lacks counts as zero; a composite whose
    /// components lead back to itself is a `CyclicReference`.
    pub fn resolve(&self, food_id: &String) -> (r: Result<u64, ResolveError>)
        requires
            self.wf(),
        ensures
            match r {
                Ok(v) => resolve_spec(self@, food_id@) == Ok::<nat, ResolveError>(v as nat),
                Err(e) => resolve_spec(self@, food_id@) == Err::<nat, ResolveError>(e),
            },
    {
        let path: Vec<String> = Vec::new();
        assert(strings_view(path@) =~= Seq::<Seq<char>>::empty());
        self.resolve_on_path(food_id, &path)
    }
}

} // verus!
