//! The tutorial's progress state, modeled as a plain value.
//!
//! The state is an explicit value handed in by the caller rather than
//! ambient file-system state, so every rule about it is pure and
//! checkable: which lesson is current, which lessons are done, and which
//! entities earlier lessons created, newest last.  Persisting the value
//! between runs is the caller's concern.

use vstd::prelude::*;

use crate::strutil::str_eq;

verus! {

/// One created entity, as later lessons need it: its id and its name.
pub struct EntityRecord {
    pub id: String,
    pub name: String,
}

/// The whole progress state.
pub struct InstanceData {
    pub current_lesson: usize,
    pub completed_lessons: Vec<usize>,
    pub continents: Vec<EntityRecord>,
    pub countries: Vec<EntityRecord>,
    pub cities: Vec<EntityRecord>,
}

/// The kinds of entity the tutorial's lessons create.
pub enum EntityType {
    Continent,
    Country,
    City,
}

impl EntityType {
    /// The key under which entities of this kind are stored.
    pub fn storage_key(&self) -> (r: &'static str)
        ensures
            *self is Continent ==> r@ == "continents"@,
            *self is Country ==> r@ == "countries"@,
            *self is City ==> r@ == "cities"@,
    {
        match self {
            EntityType::Continent => "continents",
            EntityType::Country => "countries",
            EntityType::City => "cities",
        }
    }

    /// The message shown when a lesson needs an entity of this kind
    /// that no earlier lesson created.
    pub fn dependency_error(&self) -> (r: &'static str)
        ensures
            *self is Continent ==> r@
                == "No continent found. Please run lesson 5 first to create a continent."@,
            *self is Country ==> r@
                == "No country found. Please run lesson 6 first to create a country."@,
            *self is City ==> r@ == "No city found. Please run lesson 7 first to create a city."@,
    {
        match self {
            EntityType::Continent => "No continent found. Please run lesson 5 first to create a continent.",
            EntityType::Country => "No country found. Please run lesson 6 first to create a country.",
            EntityType::City => "No city found. Please run lesson 7 first to create a city.",
        }
    }

    /// The input field that carries an id of this kind.
    pub fn id_field(&self) -> (r: &'static str)
        ensures
            *self is Continent ==> r@ == "continent_id"@,
            *self is Country ==> r@ == "country_id"@,
            *self is City ==> r@ == "city_id"@,
    {
        match self {
            EntityType::Continent => "continent_id",
            EntityType::Country => "country_id",
            EntityType::City => "city_id",
        }
    }
}

/// Fresh progress state: at the first lesson, nothing completed,
/// nothing created.
pub fn create_default_instance_data() -> (r: InstanceData)
    ensures
        r.current_lesson == 0,
        r.completed_lessons@.len() == 0,
        r.continents@.len() == 0,
        r.countries@.len() == 0,
        r.cities@.len() == 0,
{
    InstanceData {
        current_lesson: 0,
        completed_lessons: Vec::new(),
        continents: Vec::new(),
        countries: Vec::new(),
        cities: Vec::new(),
    }
}

/// The three storage keys are pairwise distinct.
proof fn lemma_storage_keys_distinct()
    ensures
        "continents"@ != "countries"@,
        "continents"@ != "cities"@,
        "countries"@ != "cities"@,
{
    reveal_strlit("continents");
    reveal_strlit("countries");
    reveal_strlit("cities");
    assert("continents"@ != "countries"@) by {
        if "continents"@ == "countries"@ {
            assert("continents"@.len() == "countries"@.len());
        }
    }
    assert("continents"@ != "cities"@) by {
        if "continents"@ == "cities"@ {
            assert("continents"@.len() == "cities"@.len());
        }
    }
    assert("countries"@ != "cities"@) by {
        if "countries"@ == "cities"@ {
            assert("countries"@.len() == "cities"@.len());
        }
    }
}

/// The id of the newest record, if any.
pub open spec fn latest_id(v: Seq<EntityRecord>) -> Option<Seq<char>> {
    if v.len() == 0 {
        None
    } else {
        Some(v.last().id@)
    }
}

/// What `get_latest_entity_id` answers for a storage key.
pub open spec fn spec_latest_entity_id(data: &InstanceData, key: Seq<char>) -> Option<Seq<char>> {
    if key == "continents"@ {
        latest_id(data.continents@)
    } else if key == "countries"@ {
        latest_id(data.countries@)
    } else if key == "cities"@ {
        latest_id(data.cities@)
    } else {
        None
    }
}

/// The id of the most recently created entity under a storage key;
/// `None` for an unknown key or when nothing was created yet.
pub fn get_latest_entity_id(data: &InstanceData, entity_type: &str) -> (r: Option<String>)
    ensures
        match r {
            Some(id) => spec_latest_entity_id(data, entity_type@) == Some(id@),
            None => spec_latest_entity_id(data, entity_type@) is None,
        },
{
    proof {
        lemma_storage_keys_distinct();
    }
    if str_eq(entity_type, "continents") {
        if data.continents.len() == 0 {
            None
        } else {
            Some(data.continents[data.continents.len() - 1].id.clone())
        }
    } else if str_eq(entity_type, "countries") {
        if data.countries.len() == 0 {
            None
        } else {
            Some(data.countries[data.countries.len() - 1].id.clone())
        }
    } else if str_eq(entity_type, "cities") {
        if data.cities.len() == 0 {
            None
        } else {
            Some(data.cities[data.cities.len() - 1].id.clone())
        }
    } else {
        None
    }
}

/// The lesson the learner currently stands at.
pub fn get_current_lesson(data: &InstanceData) -> (r: usize)
    ensures
        r == data.current_lesson,
{
    data.current_lesson
}

/// Moves the learner to a lesson; nothing else changes.
pub fn save_current_lesson(data: &mut InstanceData, lesson_id: usize)
    ensures
        final(data).current_lesson == lesson_id,
        final(data).completed_lessons == old(data).completed_lessons,
        final(data).continents == old(data).continents,
        final(data).countries == old(data).countries,
        final(data).cities == old(data).cities,
{
    data.current_lesson = lesson_id;
}

/// The completed lessons, in stored order.
pub fn get_completed_lessons(data: &InstanceData) -> (r: Vec<usize>)
    ensures
        r@ == data.completed_lessons@,
{
    let mut out: Vec<usize> = Vec::new();
    let mut i: usize = 0;
    while i < data.completed_lessons.len()
        invariant
            0 <= i <= data.completed_lessons@.len(),
            out@ == data.completed_lessons@.take(i as int),
        decreases data.completed_lessons@.len() - i,
    {
        out.push(data.completed_lessons[i]);
        proof {
            assert(out@ =~= data.completed_lessons@.take(i + 1));
        }
        i += 1;
    }
    proof {
        assert(data.completed_lessons@.take(data.completed_lessons@.len() as int)
            =~= data.completed_lessons@);
    }
    out
}

/// Whether a lesson was completed.
pub fn is_lesson_completed(data: &InstanceData, lesson_id: usize) -> (r: bool)
    ensures
        r == data.completed_lessons@.contains(lesson_id),
{
    let mut i: usize = 0;
    while i < data.completed_lessons.len()
        invariant
            0 <= i <= data.completed_lessons@.len(),
            forall|j: int| 0 <= j < i ==> data.completed_lessons@[j] != lesson_id,
        decreases data.completed_lessons@.len() - i,
    {
        if data.completed_lessons[i] == lesson_id {
            return true;
        }
        i += 1;
    }
    false
}

/// The list is weakly increasing.
pub open spec fn sorted(v: Seq<usize>) -> bool {
    forall|i: int, j: int| 0 <= i < j < v.len() ==> v[i] <= v[j]
}

/// Records a lesson as completed, keeping the list sorted and free of
/// the duplicate it would otherwise gain; nothing else changes.
pub fn mark_lesson_completed(data: &mut InstanceData, lesson_id: usize)
    requires
        sorted(old(data).completed_lessons@),
    ensures
        sorted(final(data).completed_lessons@),
        forall|x: usize| final(data).completed_lessons@.contains(x)
            <==> (old(data).completed_lessons@.contains(x) || x == lesson_id),
        old(data).completed_lessons@.contains(lesson_id) ==> final(data).completed_lessons@
            == old(data).completed_lessons@,
        !old(data).completed_lessons@.contains(lesson_id) ==> final(data).completed_lessons@
            == old(data).completed_lessons@.insert(
            lesson_idx(old(data).completed_lessons@, lesson_id),
            lesson_id,
        ),
        final(data).current_lesson == old(data).current_lesson,
        final(data).continents == old(data).continents,
        final(data).countries == old(data).countries,
        final(data).cities == old(data).cities,
{
    let ghost orig = data.completed_lessons@;
    let mut i: usize = 0;
    while i < data.completed_lessons.len() && data.completed_lessons[i] < lesson_id
        invariant
            data.completed_lessons@ == orig,
            0 <= i <= orig.len(),
            forall|j: int| 0 <= j < i ==> orig[j] < lesson_id,
        decreases orig.len() - i,
    {
        i += 1;
    }
    proof {
        assert(i as int == lesson_idx(orig, lesson_id)) by {
            lemma_lesson_idx(orig, lesson_id, i as int);
        }
    }
    if i < data.completed_lessons.len() && data.completed_lessons[i] == lesson_id {
        proof {
            assert(orig.contains(lesson_id));
        }
        return ;
    }
    proof {
        assert(!orig.contains(lesson_id)) by {
            if orig.contains(lesson_id) {
                let j = choose|j: int| 0 <= j < orig.len() && orig[j] == lesson_id;
                assert(j >= i);
                if j > i {
                    assert(orig[i as int] <= orig[j]);
                }
            }
        }
    }
    data.completed_lessons.insert(i, lesson_id);
    proof {
        let v = data.completed_lessons@;
        assert(v == orig.insert(i as int, lesson_id));
        assert(sorted(v)) by {
            assert(forall|a: int| 0 <= a < i ==> v[a] == orig[a]);
            assert(forall|a: int| i < a < v.len() ==> v[a] == orig[a - 1]);
            assert(forall|a: int| i < a < v.len() ==> lesson_id <= v[a]);
        }
        assert(forall|x: usize| v.contains(x) <==> (orig.contains(x) || x == lesson_id)) by {
            assert forall|x: usize| #[trigger] v.contains(x) implies (orig.contains(x) || x
                == lesson_id) by {
                let a = choose|a: int| 0 <= a < v.len() && v[a] == x;
                if a < i {
                    assert(orig[a] == x);
                } else if a > i {
                    assert(orig[a - 1] == x);
                }
            }
            assert forall|x: usize| orig.contains(x) implies v.contains(x) by {
                let a = choose|a: int| 0 <= a < orig.len() && orig[a] == x;
                if a < i {
                    assert(v[a] == x);
                } else {
                    assert(v[a + 1] == x);
                }
            }
            assert(v[i as int] == lesson_id);
            assert(v.contains(lesson_id));
        }
    }
}

/// Where a lesson id belongs in a sorted list: the count of smaller
/// entries at the front.
pub open spec fn lesson_idx(v: Seq<usize>, x: usize) -> int
    decreases v.len(),
{
    if v.len() == 0 {
        0
    } else if v[0] < x {
        1 + lesson_idx(v.drop_first(), x)
    } else {
        0
    }
}

proof fn lemma_lesson_idx(v: Seq<usize>, x: usize, i: int)
    requires
        sorted(v),
        0 <= i <= v.len(),
        forall|j: int| 0 <= j < i ==> v[j] < x,
        i == v.len() || v[i] >= x,
    ensures
        lesson_idx(v, x) == i,
    decreases v.len(),
{
    if v.len() == 0 {
    } else if v[0] < x {
        let t = v.drop_first();
        assert(forall|j: int| 0 <= j < v.len() - 1 ==> t[j] == v[j + 1]);
        assert(sorted(t));
        assert(i >= 1);
        lemma_lesson_idx(t, x, i - 1);
    } else {
        assert(i == 0);
    }
}

/// Adds a created entity under a storage key, newest last; an unknown
/// key changes nothing and is reported.
pub fn save_created_entity(data: &mut InstanceData, entity_type: &str, entity: EntityRecord) -> (r:
    Result<(), String>)
    ensures
        entity_type@ == "continents"@ ==> r is Ok
            && final(data).continents@ == old(data).continents@.push(entity)
            && final(data).countries == old(data).countries
            && final(data).cities == old(data).cities,
        entity_type@ == "countries"@ ==> r is Ok
            && final(data).countries@ == old(data).countries@.push(entity)
            && final(data).continents == old(data).continents
            && final(data).cities == old(data).cities,
        entity_type@ == "cities"@ ==> r is Ok
            && final(data).cities@ == old(data).cities@.push(entity)
            && final(data).continents == old(data).continents
            && final(data).countries == old(data).countries,
        entity_type@ != "continents"@ && entity_type@ != "countries"@ && entity_type@ != "cities"@
            ==> *final(data) == *old(data) && (r matches Err(m) && m@ == "Invalid entity type: "@
            + entity_type@),
        final(data).current_lesson == old(data).current_lesson,
        final(data).completed_lessons == old(data).completed_lessons,
{
    proof {
        lemma_storage_keys_distinct();
    }
    if str_eq(entity_type, "continents") {
        data.continents.push(entity);
        Ok(())
    } else if str_eq(entity_type, "countries") {
        data.countries.push(entity);
        Ok(())
    } else if str_eq(entity_type, "cities") {
        data.cities.push(entity);
        Ok(())
    } else {
        let mut msg = String::from_str("Invalid entity type: ");
        msg.append(entity_type);
        Err(msg)
    }
}

/// Index of the first record with a name, or -1 when none has it.
pub open spec fn name_match_idx(v: Seq<EntityRecord>, n: Seq<char>) -> int
    decreases v.len(),
{
    if v.len() == 0 {
        -1
    } else if v[0].name@ == n {
        0
    } else if name_match_idx(v.drop_first(), n) == -1 {
        -1
    } else {
        1 + name_match_idx(v.drop_first(), n)
    }
}

/// The id of the first record with a name, if any.
pub open spec fn find_id_by_name(v: Seq<EntityRecord>, n: Seq<char>) -> Option<Seq<char>> {
    if name_match_idx(v, n) == -1 {
        None
    } else {
        Some(v[name_match_idx(v, n)].id@)
    }
}

proof fn lemma_name_match_idx(v: Seq<EntityRecord>, n: Seq<char>)
    ensures
        name_match_idx(v, n) == -1 ==> forall|i: int| 0 <= i < v.len() ==> v[i].name@ != n,
        name_match_idx(v, n) != -1 ==> 0 <= name_match_idx(v, n) < v.len(),
        name_match_idx(v, n) != -1 ==> v[name_match_idx(v, n)].name@ == n,
        name_match_idx(v, n) != -1 ==> forall|i: int| 0 <= i < name_match_idx(v, n) ==> v[i].name@
            != n,
    decreases v.len(),
{
    if v.len() == 0 {
    } else if v[0].name@ == n {
    } else {
        lemma_name_match_idx(v.drop_first(), n);
        assert(forall|i: int| 1 <= i < v.len() ==> v[i] == v.drop_first()[i - 1]);
    }
}

proof fn lemma_name_match_pinned(v: Seq<EntityRecord>, n: Seq<char>, k: int)
    requires
        0 <= k < v.len(),
        v[k].name@ == n,
        forall|i: int| 0 <= i < k ==> v[i].name@ != n,
    ensures
        name_match_idx(v, n) == k,
{
    lemma_name_match_idx(v, n);
}

/// The id of the first record carrying a name.
fn find_id_in(v: &Vec<EntityRecord>, name: &str) -> (r: Option<String>)
    ensures
        match r {
            Some(id) => find_id_by_name(v@, name@) == Some(id@),
            None => find_id_by_name(v@, name@) is None,
        },
{
    let mut i: usize = 0;
    while i < v.len()
        invariant
            0 <= i <= v@.len(),
            forall|j: int| 0 <= j < i ==> v@[j].name@ != name@,
        decreases v@.len() - i,
    {
        let rec = &v[i];
        if str_eq(rec.name.as_str(), name) {
            proof {
                lemma_name_match_pinned(v@, name@, i as int);
            }
            return Some(rec.id.clone());
        }
        i += 1;
    }
    proof {
        lemma_name_match_idx(v@, name@);
    }
    None
}

/// The id of the first created city with a name.
pub fn get_city_id_by_name(data: &InstanceData, city_name: &str) -> (r: Option<String>)
    ensures
        match r {
            Some(id) => find_id_by_name(data.cities@, city_name@) == Some(id@),
            None => find_id_by_name(data.cities@, city_name@) is None,
        },
{
    find_id_in(&data.cities, city_name)
}

/// The id of the first created continent with a name.
pub fn get_continent_id_by_name(data: &InstanceData, continent_name: &str) -> (r: Option<String>)
    ensures
        match r {
            Some(id) => find_id_by_name(data.continents@, continent_name@) == Some(id@),
            None => find_id_by_name(data.continents@, continent_name@) is None,
        },
{
    find_id_in(&data.continents, continent_name)
}

/// The id of the first created country with a name.
pub fn get_country_id_by_name(data: &InstanceData, country_name: &str) -> (r: Option<String>)
    ensures
        match r {
            Some(id) => find_id_by_name(data.countries@, country_name@) == Some(id@),
            None => find_id_by_name(data.countries@, country_name@) is None,
        },
{
    find_id_in(&data.countries, country_name)
}

/// What `resolve_entity_id` answers: a lesson input may carry a named
/// placeholder instead of a real id; each placeholder names the entity
/// it stands for, and anything else falls back to the newest entity of
/// the given kind.
pub open spec fn spec_resolve_entity_id(
    data: &InstanceData,
    p: Seq<char>,
    et: Seq<char>,
) -> Result<Seq<char>, Seq<char>> {
    if p == "europe_continent_id"@ || p == "some_continent_id"@ {
        match find_id_by_name(data.continents@, "Europe"@) {
            Some(id) => Ok(id),
            None => Err("Europe continent not found in instance data"@),
        }
    } else if p == "uk_country_id"@ {
        match find_id_by_name(data.countries@, "United Kingdom"@) {
            Some(id) => Ok(id),
            None => Err("United Kingdom not found in instance data"@),
        }
    } else if p == "germany_country_id"@ {
        match find_id_by_name(data.countries@, "Germany"@) {
            Some(id) => Ok(id),
            None => Err("Germany not found in instance data"@),
        }
    } else if p == "some_country_id"@ {
        match latest_id(data.countries@) {
            Some(id) => Ok(id),
            None => Err("No country found. Please create a country first."@),
        }
    } else if p == "london_city_id"@ {
        match find_id_by_name(data.cities@, "London"@) {
            Some(id) => Ok(id),
            None => Err("London not found in instance data"@),
        }
    } else if p == "berlin_city_id"@ {
        match find_id_by_name(data.cities@, "Berlin"@) {
            Some(id) => Ok(id),
            None => Err("Berlin not found in instance data"@),
        }
    } else if p == "manchester_city_id"@ {
        match find_id_by_name(data.cities@, "Manchester"@) {
            Some(id) => Ok(id),
            None => Err("Manchester not found in instance data"@),
        }
    } else if p == "hamburg_city_id"@ {
        match find_id_by_name(data.cities@, "Hamburg"@) {
            Some(id) => Ok(id),
            None => Err("Hamburg not found in instance data"@),
        }
    } else if p == "ID"@ {
        match spec_latest_entity_id(data, et) {
            Some(id) => Ok(id),
            None => Err("No "@ + et + " found. Please create one first."@),
        }
    } else {
        match spec_latest_entity_id(data, et) {
            Some(id) => Ok(id),
            None => Err("No "@ + et + " found for placeholder '"@ + p + "'"@),
        }
    }
}

/// Turns a placeholder id from a lesson's canned input into a real id
/// from the created entities, or says which entity is not there yet.
pub fn resolve_entity_id(data: &InstanceData, placeholder: &str, entity_type: &str) -> (r: Result<
    String,
    String,
>)
    ensures
        match r {
            Ok(id) => spec_resolve_entity_id(data, placeholder@, entity_type@) == Ok::<
                Seq<char>,
                Seq<char>,
            >(id@),
            Err(m) => spec_resolve_entity_id(data, placeholder@, entity_type@) == Err::<
                Seq<char>,
                Seq<char>,
            >(m@),
        },
{
    if str_eq(placeholder, "europe_continent_id") || str_eq(placeholder, "some_continent_id") {
        match get_continent_id_by_name(data, "Europe") {
            Some(id) => Ok(id),
            None => Err(String::from_str("Europe continent not found in instance data")),
        }
    } else if str_eq(placeholder, "uk_country_id") {
        match get_country_id_by_name(data, "United Kingdom") {
            Some(id) => Ok(id),
            None => Err(String::from_str("United Kingdom not found in instance data")),
        }
    } else if str_eq(placeholder, "germany_country_id") {
        match get_country_id_by_name(data, "Germany") {
            Some(id) => Ok(id),
            None => Err(String::from_str("Germany not found in instance data")),
        }
    } else if str_eq(placeholder, "some_country_id") {
        if data.countries.len() == 0 {
            Err(String::from_str("No country found. Please create a country first."))
        } else {
            Ok(data.countries[data.countries.len() - 1].id.clone())
        }
    } else if str_eq(placeholder, "london_city_id") {
        match get_city_id_by_name(data, "London") {
            Some(id) => Ok(id),
            None => Err(String::from_str("London not found in instance data")),
        }
    } else if str_eq(placeholder, "berlin_city_id") {
        match get_city_id_by_name(data, "Berlin") {
            Some(id) => Ok(id),
            None => Err(String::from_str("Berlin not found in instance data")),
        }
    } else if str_eq(placeholder, "manchester_city_id") {
        match get_city_id_by_name(data, "Manchester") {
            Some(id) => Ok(id),
            None => Err(String::from_str("Manchester not found in instance data")),
        }
    } else if str_eq(placeholder, "hamburg_city_id") {
        match get_city_id_by_name(data, "Hamburg") {
            Some(id) => Ok(id),
            None => Err(String::from_str("Hamburg not found in instance data")),
        }
    } else if str_eq(placeholder, "ID") {
        match get_latest_entity_id(data, entity_type) {
            Some(id) => Ok(id),
            None => {
                let mut m = String::from_str("No ");
                m.append(entity_type);
                m.append(" found. Please create one first.");
                Err(m)
            },
        }
    } else {
        match get_latest_entity_id(data, entity_type) {
            Some(id) => Ok(id),
            None => {
                let mut m = String::from_str("No ");
                m.append(entity_type);
                m.append(" found for placeholder '");
                m.append(placeholder);
                m.append("'");
                Err(m)
            },
        }
    }
}

/// The workspace is initialized when both DSL files exist; the caller
/// looks the two files up and passes what it found.
pub fn check_helix_init(schema_file_exists: bool, queries_file_exists: bool) -> (r: bool)
    ensures
        r == (schema_file_exists && queries_file_exists),
{
    schema_file_exists && queries_file_exists
}

} // verus!
