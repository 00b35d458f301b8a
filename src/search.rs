use vstd::prelude::*;
use crate::catalog::FoodCatalog;
use crate::models::{strings_view, BasicFood, CompositeFood, Food, FoodView};

verus! {

/// The characters of `s` after Unicode lower-casing.
pub uninterp spec fn lower_of(s: Seq<char>) -> Seq<char>;

/// Relies on `str::to_lowercase`: its result depends on the characters of `s` alone.
#[verifier::external_body]
fn lower_chars(s: &String) -> (r: Vec<char>)
    ensures
        r@ == lower_of(s@),
{
    s.to_lowercase().chars().collect()
}

/// `needle` occurs in `hay` as a contiguous run of characters.
pub open spec fn contains_seq(hay: Seq<char>, needle: Seq<char>) -> bool {
    exists|i: int| 0 <= i && i + needle.len() <= hay.len() && #[trigger] hay.subrange(i, i + needle.len()) == needle
}

/// Whether `needle` occurs in `hay` at position `at`.
fn occurs_at(hay: &Vec<char>, needle: &Vec<char>, at: usize) -> (r: bool)
    requires
        at + needle.len() <= hay.len(),
    ensures
        r == (hay@.subrange(at as int, at + needle.len()) == needle@),
{
    let mut k: usize = 0;
    while k < needle.len()
        invariant
            k <= needle.len(),
            at + needle.len() <= hay.len(),
            forall|j: int| 0 <= j < k ==> hay@[at + j] == needle@[j],
        decreases needle.len() - k,
    {
        if hay[at + k] != needle[k] {
            assert(hay@.subrange(at as int, at + needle.len())[k as int] != needle@[k as int]);
            return false;
        }
        k = k + 1;
    }
    assert(hay@.subrange(at as int, at + needle.len()) =~= needle@);
    true
}

/// Substring test on characters.
pub fn contains_chars(hay: &Vec<char>, needle: &Vec<char>) -> (r: bool)
    ensures
        r == contains_seq(hay@, needle@),
{
    if needle.len() == 0 {
        assert(hay@.subrange(0int, 0int + needle@.len()) =~= needle@);
        return true;
    }
    if needle.len() > hay.len() {
        return false;
    }
    let last: usize = hay.len() - needle.len();
    let mut i: usize = 0;
    while i <= last
        invariant
            last + needle.len() == hay.len(),
            needle.len() > 0,
            forall|j: int| 0 <= j < i ==> #[trigger] hay@.subrange(j, j + needle.len()) != needle@,
        decreases last + 1 - i,
    {
        if occurs_at(hay, needle, i) {
            return true;
        }
        i = i + 1;
    }
    false
}

/// The lower-cased characters of each string of a list.
pub open spec fn lowered(v: Seq<Seq<char>>) -> Seq<Seq<char>> {
    v.map_values(|s: Seq<char>| lower_of(s))
}

/// Query keyword `kw` hits a food with identifier `id`, name `name` and tags
/// `tags`: some of them, lower-cased, contains `kw` lower-cased.
pub open spec fn hit(id: Seq<char>, name: Seq<char>, tags: Seq<Seq<char>>, kw: Seq<char>) -> bool {
    ||| contains_seq(lower_of(id), lower_of(kw))
    ||| contains_seq(lower_of(name), lower_of(kw))
    ||| exists|t: int| 0 <= t < tags.len() && contains_seq(lower_of(#[trigger] tags[t]), lower_of(kw))
}

/// The keyword query `kws` selects the food: always for an empty query; else
/// every keyword hits (`match_all`) or at least one does.
pub open spec fn selects(
    id: Seq<char>,
    name: Seq<char>,
    tags: Seq<Seq<char>>,
    kws: Seq<Seq<char>>,
    match_all: bool,
) -> bool {
    if kws.len() == 0 {
        true
    } else if match_all {
        forall|k: int| 0 <= k < kws.len() ==> hit(id, name, tags, #[trigger] kws[k])
    } else {
        exists|k: int| 0 <= k < kws.len() && hit(id, name, tags, #[trigger] kws[k])
    }
}

/// The query selects food `f`.
pub open spec fn selects_food(f: FoodView, kws: Seq<Seq<char>>, match_all: bool) -> bool {
    selects(f.id, f.name, f.keywords, kws, match_all)
}

/// The foods of `foods` that the query selects, in catalog order.
pub open spec fn search_spec(foods: Seq<FoodView>, kws: Seq<Seq<char>>, match_all: bool) -> Seq<FoodView>
    decreases foods.len(),
{
    if foods.len() == 0 {
        Seq::empty()
    } else {
        let rest = search_spec(foods.drop_last(), kws, match_all);
        if selects_food(foods.last(), kws, match_all) {
            rest.push(foods.last())
        } else {
            rest
        }
    }
}

/// Lower-cases each string of a list.
fn lower_all(v: &Vec<String>) -> (r: Vec<Vec<char>>)
    ensures
        r.len() == v.len(),
        forall|j: int| 0 <= j < v.len() ==> (#[trigger] r@[j])@ == lower_of(v@[j]@),
{
    let mut r: Vec<Vec<char>> = Vec::new();
    let mut i: usize = 0;
    while i < v.len()
        invariant
            i <= v.len(),
            r.len() == i,
            forall|j: int| 0 <= j < i ==> (#[trigger] r@[j])@ == lower_of(v@[j]@),
        decreases v.len() - i,
    {
        r.push(lower_chars(&v[i]));
        i = i + 1;
    }
    r
}

/// Whether one lower-cased query keyword hits the lower-cased haystacks.
fn hits_lowered(
    id: &Vec<char>,
    name: &Vec<char>,
    tags: &Vec<Vec<char>>,
    kw: &Vec<char>,
) -> (r: bool)
    ensures
        r == (contains_seq(id@, kw@) || contains_seq(name@, kw@) || exists|t: int|
            0 <= t < tags.len() && contains_seq((#[trigger] tags@[t])@, kw@)),
{
    if contains_chars(id, kw) || contains_chars(name, kw) {
        return true;
    }
    let mut t: usize = 0;
    while t < tags.len()
        invariant
            t <= tags.len(),
            forall|j: int| 0 <= j < t ==> !contains_seq((#[trigger] tags@[j])@, kw@),
        decreases tags.len() - t,
    {
        if contains_chars(&tags[t], kw) {
            return true;
        }
        t = t + 1;
    }
    false
}

/// Keyword match of a food given by its identifier, name and tags.
fn keywords_match(
    id: &String,
    name: &String,
    tags: &Vec<String>,
    keywords: &Vec<String>,
    match_all: bool,
) -> (r: bool)
    ensures
        r == selects(id@, name@, strings_view(tags@), strings_view(keywords@), match_all),
{
    let ghost stags = strings_view(tags@);
    let ghost skws = strings_view(keywords@);
    if keywords.len() == 0 {
        return true;
    }
    let lid = lower_chars(id);
    let lname = lower_chars(name);
    let ltags = lower_all(tags);
    let mut k: usize = 0;
    while k < keywords.len()
        invariant
            k <= keywords.len(),
            skws == strings_view(keywords@),
            stags == strings_view(tags@),
            ltags.len() == tags.len(),
            lid@ == lower_of(id@),
            lname@ == lower_of(name@),
            forall|j: int| 0 <= j < tags.len() ==> (#[trigger] ltags@[j])@ == lower_of(tags@[j]@),
            match_all ==> forall|j: int| 0 <= j < k ==> hit(id@, name@, stags, #[trigger] skws[j]),
            !match_all ==> forall|j: int| 0 <= j < k ==> !hit(id@, name@, stags, #[trigger] skws[j]),
        decreases keywords.len() - k,
    {
        let lkw = lower_chars(&keywords[k]);
        let h = hits_lowered(&lid, &lname, &ltags, &lkw);
        assert(h == hit(id@, name@, stags, skws[k as int])) by {
            if h {
                if !(contains_seq(lid@, lkw@) || contains_seq(lname@, lkw@)) {
                    let t = choose|t: int| 0 <= t < ltags.len() && contains_seq((#[trigger] ltags@[t])@, lkw@);
                    assert(stags[t] == tags@[t]@);
                }
            } else {
                assert forall|t: int| 0 <= t < stags.len() implies !contains_seq(
                    lower_of(#[trigger] stags[t]),
                    lower_of(skws[k as int]),
                ) by {
                    assert(ltags@[t]@ == lower_of(tags@[t]@));
                }
            }
        }
        if match_all && !h {
            return false;
        }
        if !match_all && h {
            return true;
        }
        k = k + 1;
    }
    match_all
}

impl Food {
    /// Whether the keyword query selects this food (see `selects`).
    pub fn matches_keywords(&self, keywords: &Vec<String>, match_all: bool) -> (r: bool)
        ensures
            r == selects_food(self@, strings_view(keywords@), match_all),
    {
        match self {
            Food::Basic(b) => b.matches_keywords(keywords, match_all),
            Food::Composite(c) => c.matches_keywords(keywords, match_all),
        }
    }
}

impl BasicFood {
    /// Whether the keyword query selects this food (see `selects`).
    pub fn matches_keywords(&self, keywords: &Vec<String>, match_all: bool) -> (r: bool)
        ensures
            r == selects(self.id@, self.name@, strings_view(self.keywords@), strings_view(keywords@), match_all),
    {
        keywords_match(&self.id, &self.name, &self.keywords, keywords, match_all)
    }
}

impl CompositeFood {
    /// Whether the keyword query selects this food (see `selects`).
    pub fn matches_keywords(&self, keywords: &Vec<String>, match_all: bool) -> (r: bool)
        ensures
            r == selects(self.id@, self.name@, strings_view(self.keywords@), strings_view(keywords@), match_all),
    {
        keywords_match(&self.id, &self.name, &self.keywords, keywords, match_all)
    }
}

/// The view of each food of a list.
pub open spec fn foods_view(v: Seq<Food>) -> Seq<FoodView> {
    v.map_values(|f: Food| f@)
}

/// Copies of the catalog's foods that the keyword query selects, in catalog order.
pub fn search_foods(catalog: &FoodCatalog, keywords: &Vec<String>, match_all: bool) -> (r: Vec<Food>)
    ensures
        foods_view(r@) == search_spec(catalog@, strings_view(keywords@), match_all),
{
    let ghost kws = strings_view(keywords@);
    let mut r: Vec<Food> = Vec::new();
    let mut i: usize = 0;
    assert(catalog@.subrange(0, 0) =~= Seq::<FoodView>::empty());
    assert(foods_view(r@) =~= Seq::<FoodView>::empty());
    while i < catalog.foods.len()
        invariant
            i <= catalog.foods.len(),
            kws == strings_view(keywords@),
            foods_view(r@) == search_spec(catalog@.subrange(0, i as int), kws, match_all),
        decreases catalog.foods.len() - i,
    {
        let f = &catalog.foods[i];
        let ghost prefix = catalog@.subrange(0, i + 1);
        assert(prefix.drop_last() =~= catalog@.subrange(0, i as int));
        assert(prefix.last() == f@);
        if f.matches_keywords(keywords, match_all) {
            let c = f.clone();
            let ghost before = r@;
            r.push(c);
            assert(foods_view(r@) =~= foods_view(before).push(f@));
        }
        i = i + 1;
    }
    assert(catalog@.subrange(0, i as int) =~= catalog@);
    r
}

/// `q` lower-cased occurs in the identifier or the name of `f`, lower-cased.
pub open spec fn name_hit(f: FoodView, q: Seq<char>) -> bool {
    contains_seq(lower_of(f.id), lower_of(q)) || contains_seq(lower_of(f.name), lower_of(q))
}

/// The foods of `foods` whose identifier or name matches `q`, in catalog order.
pub open spec fn name_search_spec(foods: Seq<FoodView>, q: Seq<char>) -> Seq<FoodView>
    decreases foods.len(),
{
    if foods.len() == 0 {
        Seq::empty()
    } else {
        let rest = name_search_spec(foods.drop_last(), q);
        if name_hit(foods.last(), q) {
            rest.push(foods.last())
        } else {
            rest
        }
    }
}

/// Copies of the catalog's foods whose identifier or name, lower-cased,
/// contains `name` lower-cased, in catalog order. Tags are not consulted.
pub fn search_foods_by_name(catalog: &FoodCatalog, name: &String) -> (r: Vec<Food>)
    ensures
        foods_view(r@) == name_search_spec(catalog@, name@),
{
    let q = lower_chars(name);
    let mut r: Vec<Food> = Vec::new();
    let mut i: usize = 0;
    assert(catalog@.subrange(0, 0) =~= Seq::<FoodView>::empty());
    assert(foods_view(r@) =~= Seq::<FoodView>::empty());
    while i < catalog.foods.len()
        invariant
            i <= catalog.foods.len(),
            q@ == lower_of(name@),
            foods_view(r@) == name_search_spec(catalog@.subrange(0, i as int), name@),
        decreases catalog.foods.len() - i,
    {
        let f = &catalog.foods[i];
        let ghost prefix = catalog@.subrange(0, i + 1);
        assert(prefix.drop_last() =~= catalog@.subrange(0, i as int));
        assert(prefix.last() == f@);
        let lid = lower_chars(f.id());
        let lname = lower_chars(f.name());
        if contains_chars(&lid, &q) || contains_chars(&lname, &q) {
            let c = f.clone();
            let ghost before = r@;
            r.push(c);
            assert(foods_view(r@) =~= foods_view(before).push(f@));
        }
        i = i + 1;
    }
    assert(catalog@.subrange(0, i as int) =~= catalog@);
    r
}

/// An empty keyword list selects every food of the catalog, in catalog
/// order, whichever the mode.
pub proof fn lemma_search_empty_query(foods: Seq<FoodView>, match_all: bool)
    ensures
        search_spec(foods, Seq::empty(), match_all) == foods,
    decreases foods.len(),
{
    if foods.len() > 0 {
        lemma_search_empty_query(foods.drop_last(), match_all);
        assert(foods.drop_last().push(foods.last()) =~= foods);
    }
}

/// A food that every keyword hits is hit by some keyword.
pub proof fn lemma_all_implies_any(f: FoodView, kws: Seq<Seq<char>>)
    ensures
        selects_food(f, kws, true) ==> selects_food(f, kws, false),
{
    if kws.len() > 0 && selects_food(f, kws, true) {
        assert(hit(f.id, f.name, f.keywords, kws[0]));
    }
}

/// ALL-mode search returns a subset of ANY-mode search for the same keyword
/// list: filtering the ANY result by the ALL query gives the ALL result.
pub proof fn lemma_search_all_within_any(foods: Seq<FoodView>, kws: Seq<Seq<char>>)
    ensures
        search_spec(search_spec(foods, kws, false), kws, true) == search_spec(foods, kws, true),
    decreases foods.len(),
{
    if foods.len() > 0 {
        let rest = foods.drop_last();
        let last = foods.last();
        lemma_search_all_within_any(rest, kws);
        lemma_all_implies_any(last, kws);
        let any_rest = search_spec(rest, kws, false);
        if selects_food(last, kws, false) {
            let pushed = any_rest.push(last);
            assert(pushed.drop_last() =~= any_rest);
            assert(pushed.last() == last);
        }
    }
}

} // verus!
