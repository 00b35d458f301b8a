use vstd::prelude::*;
use crate::catalog::{has_id, FoodCatalog};
use crate::models::{
    components_view, copy_components, ActivityLevel, BasicFood, CalorieCalculationMethod,
    ComponentView, CompositeFood, FoodComponent, FoodKindView, FoodView, Gender, UserProfile,
};
use crate::quantity::{add_saturating, plus};
use crate::text::{keyword_list, parse_quantity, parse_whole, quantity_spec, split_keywords, trim, trim_chars, chars_of, whole_spec};

verus! {

/// Why the form for a new atomic food was refused.
#[derive(Debug, Clone, Copy, PartialEq, Eq, Structural)]
pub enum FoodFormError {
    EmptyIdentifier,
    EmptyKeywords,
    InvalidCalories,
    NonPositiveCalories,
    DuplicateIdentifier,
    NoValidKeyword,
}

/// What the form for a new atomic food yields: the food to add, or why not.
pub open spec fn food_form_spec(
    id: Seq<char>,
    keywords: Seq<char>,
    calories: Seq<char>,
    foods: Seq<FoodView>,
) -> Result<FoodView, FoodFormError> {
    if trim(id).len() == 0 {
        Err(FoodFormError::EmptyIdentifier)
    } else if trim(keywords).len() == 0 {
        Err(FoodFormError::EmptyKeywords)
    } else if quantity_spec(calories) is None {
        Err(FoodFormError::InvalidCalories)
    } else if quantity_spec(calories) == Some(0nat) {
        Err(FoodFormError::NonPositiveCalories)
    } else if has_id(foods, id) {
        Err(FoodFormError::DuplicateIdentifier)
    } else if keyword_list(keywords).len() == 0 {
        Err(FoodFormError::NoValidKeyword)
    } else {
        Ok(
            FoodView {
                id,
                name: id,
                keywords: keyword_list(keywords),
                kind: FoodKindView::Basic(quantity_spec(calories)->Some_0),
            },
        )
    }
}

/// Whether text is blank once trimmed.
fn is_blank(s: &str) -> (r: bool)
    ensures
        r == (trim(s@).len() == 0),
{
    let c = chars_of(s);
    let t = trim_chars(&c);
    t.len() == 0
}

/// The form that creates an atomic food: identifier, comma-separated
/// keywords and calories per serving, as typed.
pub struct AddBasicFoodScreen {
    pub new_food_id: String,
    pub new_food_keywords: String,
    pub new_food_calories: String,
    pub error_message: Option<FoodFormError>,
}

impl AddBasicFoodScreen {
    /// An empty form.
    pub fn new() -> (r: Self)
        ensures
            r.new_food_id@ == Seq::<char>::empty(),
            r.new_food_keywords@ == Seq::<char>::empty(),
            r.new_food_calories@ == Seq::<char>::empty(),
            r.error_message is None,
    {
        AddBasicFoodScreen {
            new_food_id: String::new(),
            new_food_keywords: String::new(),
            new_food_calories: String::new(),
            error_message: None,
        }
    }

    /// Empties every field and the error.
    pub fn reset(&mut self)
        ensures
            final(self).new_food_id@ == Seq::<char>::empty(),
            final(self).new_food_keywords@ == Seq::<char>::empty(),
            final(self).new_food_calories@ == Seq::<char>::empty(),
            final(self).error_message is None,
    {
        self.new_food_id = String::new();
        self.new_food_keywords = String::new();
        self.new_food_calories = String::new();
        self.error_message = None;
    }

    /// Validates the form and adds the food to `catalog`, named after its
    /// identifier; on success the form is reset, else it keeps its fields and
    /// records why.
    pub fn save_food(&mut self, catalog: &mut FoodCatalog) -> (r: bool)
        requires
            old(catalog).wf(),
        ensures
            final(catalog).wf(),
            r == food_form_spec(
                old(self).new_food_id@,
                old(self).new_food_keywords@,
                old(self).new_food_calories@,
                old(catalog)@,
            ) is Ok,
            match food_form_spec(
                old(self).new_food_id@,
                old(self).new_food_keywords@,
                old(self).new_food_calories@,
                old(catalog)@,
            ) {
                Ok(f) => {
                    &&& final(catalog)@ == old(catalog)@.push(f)
                    &&& final(self).new_food_id@ == Seq::<char>::empty()
                    &&& final(self).new_food_keywords@ == Seq::<char>::empty()
                    &&& final(self).new_food_calories@ == Seq::<char>::empty()
                    &&& final(self).error_message is None
                },
                Err(e) => {
                    &&& final(catalog)@ == old(catalog)@
                    &&& final(self).new_food_id@ == old(self).new_food_id@
                    &&& final(self).new_food_keywords@ == old(self).new_food_keywords@
                    &&& final(self).new_food_calories@ == old(self).new_food_calories@
                    &&& final(self).error_message == Some(e)
                },
            },
    {
        self.error_message = None;
        if is_blank(self.new_food_id.as_str()) {
            self.error_message = Some(FoodFormError::EmptyIdentifier);
            return false;
        }
        if is_blank(self.new_food_keywords.as_str()) {
            self.error_message = Some(FoodFormError::EmptyKeywords);
            return false;
        }
        let calories = match parse_quantity(self.new_food_calories.as_str()) {
            Some(c) => {
                if c == 0 {
                    self.error_message = Some(FoodFormError::NonPositiveCalories);
                    return false;
                }
                c
            },
            None => {
                self.error_message = Some(FoodFormError::InvalidCalories);
                return false;
            },
        };
        if catalog.find_index(&self.new_food_id).is_some() {
            self.error_message = Some(FoodFormError::DuplicateIdentifier);
            return false;
        }
        let keywords = split_keywords(self.new_food_keywords.as_str());
        if keywords.len() == 0 {
            self.error_message = Some(FoodFormError::NoValidKeyword);
            return false;
        }
        let food = BasicFood {
            id: self.new_food_id.clone(),
            name: self.new_food_id.clone(),
            keywords,
            calories_per_serving: calories,
        };
        let added = catalog.add_basic_food(food);
        self.reset();
        added.is_ok()
    }
}

/// The sign-in form: username and password, as typed.
pub struct LoginScreen {
    pub username: String,
    pub password: String,
    pub error_message: Option<String>,
}

impl LoginScreen {
    /// An empty form.
    pub fn new() -> (r: Self)
        ensures
            r.username@ == Seq::<char>::empty(),
            r.password@ == Seq::<char>::empty(),
            r.error_message is None,
    {
        LoginScreen { username: String::new(), password: String::new(), error_message: None }
    }
}

/// Why the body metrics of the registration form were refused.
#[derive(Debug, Clone, Copy, PartialEq, Eq, Structural)]
pub enum ProfileFormError {
    /// Height, age or weight is missing, not a number, zero or too large.
    InvalidMetrics,
}

/// A metric typed as a quantity in thousandths that is positive and fits a `u32`.
pub open spec fn metric_ok(q: Option<nat>) -> bool {
    q matches Some(v) && 0 < v <= u32::MAX
}

/// The profile that the registration form describes, or why not.
pub open spec fn profile_form_spec(
    height: Seq<char>,
    age: Seq<char>,
    weight: Seq<char>,
    gender: Gender,
    activity_level: ActivityLevel,
    calorie_method: CalorieCalculationMethod,
) -> Result<UserProfile, ProfileFormError> {
    if metric_ok(quantity_spec(height)) && metric_ok(whole_spec(age)) && metric_ok(quantity_spec(weight)) {
        Ok(
            UserProfile {
                gender,
                height_cm: quantity_spec(height)->Some_0 as u32,
                age: whole_spec(age)->Some_0 as u32,
                weight_kg: quantity_spec(weight)->Some_0 as u32,
                activity_level,
                calorie_method,
            },
        )
    } else {
        Err(ProfileFormError::InvalidMetrics)
    }
}

/// The form that creates an account and its profile.
pub struct RegisterScreen {
    pub username: String,
    pub password: String,
    pub gender: Gender,
    pub height_cm: String,
    pub age: String,
    pub weight_kg: String,
    pub activity_level: ActivityLevel,
    pub calorie_method: CalorieCalculationMethod,
    pub error_message: Option<ProfileFormError>,
}

/// A typed metric that is positive and fits a `u32`.
fn metric(q: Option<u64>) -> (r: Option<u32>)
    ensures
        r is Some <==> (q matches Some(v) && 0 < v <= u32::MAX),
        r matches Some(v) ==> q == Some(v as u64),
{
    match q {
        Some(v) => if 0 < v && v <= u32::MAX as u64 {
            Some(v as u32)
        } else {
            None
        },
        None => None,
    }
}

impl RegisterScreen {
    /// An empty form with a male, moderately active Harris-Benedict profile.
    pub fn new() -> (r: Self)
        ensures
            r.username@ == Seq::<char>::empty(),
            r.password@ == Seq::<char>::empty(),
            r.gender == Gender::Male,
            r.height_cm@ == Seq::<char>::empty(),
            r.age@ == Seq::<char>::empty(),
            r.weight_kg@ == Seq::<char>::empty(),
            r.activity_level == ActivityLevel::Moderate,
            r.calorie_method == CalorieCalculationMethod::HarrisBenedict,
            r.error_message is None,
    {
        RegisterScreen {
            username: String::new(),
            password: String::new(),
            gender: Gender::Male,
            height_cm: String::new(),
            age: String::new(),
            weight_kg: String::new(),
            activity_level: ActivityLevel::Moderate,
            calorie_method: CalorieCalculationMethod::HarrisBenedict,
            error_message: None,
        }
    }

    /// The profile that the form describes: height and weight in thousandths,
    /// age in whole years, each positive.
    pub fn build_profile(&self) -> (r: Result<UserProfile, ProfileFormError>)
        ensures
            r == profile_form_spec(
                self.height_cm@,
                self.age@,
                self.weight_kg@,
                self.gender,
                self.activity_level,
                self.calorie_method,
            ),
    {
        let h = metric(parse_quantity(self.height_cm.as_str()));
        let a = metric(parse_whole(self.age.as_str()));
        let w = metric(parse_quantity(self.weight_kg.as_str()));
        match (h, a, w) {
            (Some(height_cm), Some(age), Some(weight_kg)) => Ok(
                UserProfile {
                    gender: self.gender,
                    height_cm,
                    age,
                    weight_kg,
                    activity_level: self.activity_level,
                    calorie_method: self.calorie_method,
                },
            ),
            _ => Err(ProfileFormError::InvalidMetrics),
        }
    }
}

/// Why the composite-food form refused a component or the food.
#[derive(Debug, Clone, Copy, PartialEq, Eq, Structural)]
pub enum CompositeFormError {
    NoFoodSelected,
    InvalidServings,
    EmptyIdentifier,
    DuplicateIdentifier,
    EmptyName,
    NoValidKeyword,
    NoComponents,
}

/// Adds component `c` to the list: a food already listed gets its servings
/// increased (saturating), the first time it is listed; a new one is appended.
pub open spec fn merge_component(comps: Seq<ComponentView>, c: ComponentView) -> Seq<ComponentView>
    decreases comps.len(),
{
    if comps.len() == 0 {
        seq![c]
    } else if comps[0].food_id == c.food_id {
        comps.update(0, ComponentView { servings: plus(comps[0].servings, c.servings), ..comps[0] })
    } else {
        seq![comps[0]] + merge_component(comps.drop_first(), c)
    }
}

proof fn lemma_merge_at(comps: Seq<ComponentView>, c: ComponentView, j: int)
    requires
        0 <= j < comps.len(),
        comps[j].food_id == c.food_id,
        forall|k: int| 0 <= k < j ==> (#[trigger] comps[k]).food_id != c.food_id,
    ensures
        merge_component(comps, c) == comps.update(
            j,
            ComponentView { servings: plus(comps[j].servings, c.servings), ..comps[j] },
        ),
    decreases j,
{
    if j > 0 {
        let rest = comps.drop_first();
        assert forall|k: int| 0 <= k < j - 1 implies (#[trigger] rest[k]).food_id != c.food_id by {
            assert(rest[k] == comps[k + 1]);
        }
        lemma_merge_at(rest, c, j - 1);
        assert(seq![comps[0]] + rest.update(
            j - 1,
            ComponentView { servings: plus(comps[j].servings, c.servings), ..comps[j] },
        ) =~= comps.update(j, ComponentView { servings: plus(comps[j].servings, c.servings), ..comps[j] }));
    }
}

proof fn lemma_merge_new(comps: Seq<ComponentView>, c: ComponentView)
    requires
        forall|k: int| 0 <= k < comps.len() ==> (#[trigger] comps[k]).food_id != c.food_id,
    ensures
        merge_component(comps, c) == comps.push(c),
    decreases comps.len(),
{
    if comps.len() > 0 {
        let rest = comps.drop_first();
        assert forall|k: int| 0 <= k < rest.len() implies (#[trigger] rest[k]).food_id != c.food_id by {
            assert(rest[k] == comps[k + 1]);
        }
        lemma_merge_new(rest, c);
        assert(seq![comps[0]] + rest.push(c) =~= comps.push(c));
    }
}

/// What the composite-food form yields: the food to add, or why not.
pub open spec fn composite_form_spec(
    id: Seq<char>,
    name: Seq<char>,
    keywords: Seq<char>,
    components: Seq<ComponentView>,
    foods: Seq<FoodView>,
) -> Result<FoodView, CompositeFormError> {
    if trim(id).len() == 0 {
        Err(CompositeFormError::EmptyIdentifier)
    } else if has_id(foods, id) {
        Err(CompositeFormError::DuplicateIdentifier)
    } else if trim(name).len() == 0 {
        Err(CompositeFormError::EmptyName)
    } else if keyword_list(keywords).len() == 0 {
        Err(CompositeFormError::NoValidKeyword)
    } else if components.len() == 0 {
        Err(CompositeFormError::NoComponents)
    } else {
        Ok(FoodView { id, name, keywords: keyword_list(keywords), kind: FoodKindView::Composite(components) })
    }
}

/// Index of the first component for food `id`.
fn find_component(comps: &Vec<FoodComponent>, id: &String) -> (r: Option<usize>)
    ensures
        match r {
            Some(j) => j < comps.len() && comps@[j as int]@.food_id == id@ && forall|k: int|
                0 <= k < j ==> (#[trigger] comps@[k])@.food_id != id@,
            None => forall|k: int| 0 <= k < comps.len() ==> (#[trigger] comps@[k])@.food_id != id@,
        },
{
    let mut j: usize = 0;
    while j < comps.len()
        invariant
            j <= comps.len(),
            forall|k: int| 0 <= k < j ==> (#[trigger] comps@[k])@.food_id != id@,
        decreases comps.len() - j,
    {
        if comps[j].food_id.eq(id) {
            return Some(j);
        }
        j = j + 1;
    }
    None
}

/// The form that creates a composite food from components picked one by one.
pub struct AddCompositeFoodScreen {
    pub new_food_id: String,
    pub new_food_name: String,
    pub new_food_keywords: String,
    pub selected_components: Vec<FoodComponent>,
    pub current_food_id: String,
    pub current_servings: String,
    pub search_term: String,
    pub error_message: Option<CompositeFormError>,
}

impl AddCompositeFoodScreen {
    /// An empty form, offering one serving for the next component.
    pub fn new() -> (r: Self)
        ensures
            r.new_food_id@ == Seq::<char>::empty(),
            r.new_food_name@ == Seq::<char>::empty(),
            r.new_food_keywords@ == Seq::<char>::empty(),
            r.selected_components@ == Seq::<FoodComponent>::empty(),
            r.current_food_id@ == Seq::<char>::empty(),
            r.current_servings@ == "1.0"@,
            r.search_term@ == Seq::<char>::empty(),
            r.error_message is None,
    {
        AddCompositeFoodScreen {
            new_food_id: String::new(),
            new_food_name: String::new(),
            new_food_keywords: String::new(),
            selected_components: Vec::new(),
            current_food_id: String::new(),
            current_servings: "1.0".to_string(),
            search_term: String::new(),
            error_message: None,
        }
    }

    /// Adds the selected food with the typed servings to the components (see
    /// `merge_component`) and clears the selection; or records why not.
    pub fn add_component(&mut self)
        ensures
            final(self).new_food_id == old(self).new_food_id,
            final(self).new_food_name == old(self).new_food_name,
            final(self).new_food_keywords == old(self).new_food_keywords,
            final(self).search_term == old(self).search_term,
            old(self).current_food_id@.len() == 0 ==> {
                &&& final(self).error_message == Some(CompositeFormError::NoFoodSelected)
                &&& components_view(final(self).selected_components@) == components_view(old(self).selected_components@)
                &&& final(self).current_food_id == old(self).current_food_id
                &&& final(self).current_servings == old(self).current_servings
            },
            old(self).current_food_id@.len() > 0 && !(quantity_spec(old(self).current_servings@) matches Some(s) && s > 0) ==> {
                &&& final(self).error_message == Some(CompositeFormError::InvalidServings)
                &&& components_view(final(self).selected_components@) == components_view(old(self).selected_components@)
                &&& final(self).current_food_id == old(self).current_food_id
                &&& final(self).current_servings == old(self).current_servings
            },
            old(self).current_food_id@.len() > 0 && (quantity_spec(old(self).current_servings@) matches Some(s) && s > 0) ==> {
                &&& final(self).error_message is None
                &&& components_view(final(self).selected_components@) == merge_component(
                    components_view(old(self).selected_components@),
                    ComponentView {
                        food_id: old(self).current_food_id@,
                        servings: quantity_spec(old(self).current_servings@)->Some_0,
                    },
                )
                &&& final(self).current_food_id@ == Seq::<char>::empty()
                &&& final(self).current_servings@ == "1.0"@
            },
    {
        self.error_message = None;
        if self.current_food_id.as_str().is_empty() {
            self.error_message = Some(CompositeFormError::NoFoodSelected);
            return;
        }
        let servings = match parse_quantity(self.current_servings.as_str()) {
            Some(v) => {
                if v == 0 {
                    self.error_message = Some(CompositeFormError::InvalidServings);
                    return;
                }
                v
            },
            None => {
                self.error_message = Some(CompositeFormError::InvalidServings);
                return;
            },
        };
        let ghost before = components_view(self.selected_components@);
        let ghost c = ComponentView { food_id: self.current_food_id@, servings: servings as nat };
        let found = find_component(&self.selected_components, &self.current_food_id);
        if let Some(j) = found {
            let old_c = &self.selected_components[j];
            let merged = FoodComponent {
                food_id: old_c.food_id.clone(),
                servings: add_saturating(old_c.servings, servings),
            };
            proof {
                lemma_merge_at(before, c, j as int);
            }
            self.selected_components.set(j, merged);
            assert(components_view(self.selected_components@) =~= before.update(
                j as int,
                ComponentView { servings: plus(before[j as int].servings, c.servings), ..before[j as int] },
            ));
        } else {
            proof {
                lemma_merge_new(before, c);
            }
            let fresh = FoodComponent { food_id: self.current_food_id.clone(), servings };
            self.selected_components.push(fresh);
            assert(components_view(self.selected_components@) =~= before.push(c));
        }
        self.current_food_id = String::new();
        self.current_servings = "1.0".to_string();
    }

    /// Empties every field, offering one serving for the next component.
    pub fn clear_fields(&mut self)
        ensures
            final(self).new_food_id@ == Seq::<char>::empty(),
            final(self).new_food_name@ == Seq::<char>::empty(),
            final(self).new_food_keywords@ == Seq::<char>::empty(),
            final(self).selected_components@ == Seq::<FoodComponent>::empty(),
            final(self).current_food_id@ == Seq::<char>::empty(),
            final(self).current_servings@ == "1.0"@,
            final(self).search_term@ == Seq::<char>::empty(),
            final(self).error_message is None,
    {
        self.new_food_id = String::new();
        self.new_food_name = String::new();
        self.new_food_keywords = String::new();
        self.selected_components = Vec::new();
        self.current_food_id = String::new();
        self.current_servings = "1.0".to_string();
        self.search_term = String::new();
        self.error_message = None;
    }

    /// Validates the form and adds the composite food to `catalog`; on
    /// success the form is cleared, else it records why.
    pub fn save_composite_food(&mut self, catalog: &mut FoodCatalog) -> (r: bool)
        requires
            old(catalog).wf(),
        ensures
            final(catalog).wf(),
            r == composite_form_spec(
                old(self).new_food_id@,
                old(self).new_food_name@,
                old(self).new_food_keywords@,
                components_view(old(self).selected_components@),
                old(catalog)@,
            ) is Ok,
            match composite_form_spec(
                old(self).new_food_id@,
                old(self).new_food_name@,
                old(self).new_food_keywords@,
                components_view(old(self).selected_components@),
                old(catalog)@,
            ) {
                Ok(f) => final(catalog)@ == old(catalog)@.push(f) && final(self).new_food_id@ == Seq::<char>::empty()
                    && final(self).selected_components@ == Seq::<FoodComponent>::empty()
                    && final(self).error_message is None,
                Err(e) => final(catalog)@ == old(catalog)@ && final(self).new_food_id@ == old(self).new_food_id@
                    && components_view(final(self).selected_components@) == components_view(old(self).selected_components@)
                    && final(self).error_message == Some(e),
            },
    {
        self.error_message = None;
        if is_blank(self.new_food_id.as_str()) {
            self.error_message = Some(CompositeFormError::EmptyIdentifier);
            return false;
        }
        if catalog.find_index(&self.new_food_id).is_some() {
            self.error_message = Some(CompositeFormError::DuplicateIdentifier);
            return false;
        }
        if is_blank(self.new_food_name.as_str()) {
            self.error_message = Some(CompositeFormError::EmptyName);
            return false;
        }
        let keywords = split_keywords(self.new_food_keywords.as_str());
        if keywords.len() == 0 {
            self.error_message = Some(CompositeFormError::NoValidKeyword);
            return false;
        }
        if self.selected_components.len() == 0 {
            self.error_message = Some(CompositeFormError::NoComponents);
            return false;
        }
        let food = CompositeFood {
            id: self.new_food_id.clone(),
            name: self.new_food_name.clone(),
            keywords,
            components: copy_components(&self.selected_components),
        };
        let added = catalog.add_composite_food(food);
        self.clear_fields();
        added.is_ok()
    }
}

} // verus!
