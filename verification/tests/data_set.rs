use xynok_std::collection::{DataSet, DataSetKey, DataSetSchema};

pub enum PersonData
{
    Age(u32),
    Height(f32),
    Weight(f32),
}

pub struct Age;
pub struct Height;
pub struct Weight;

impl DataSetSchema for PersonData
{
    const TOTAL_PROPERTIES: usize = 3;
}

impl DataSetKey<PersonData> for Age
{
    type Data = u32;
    const INDEX: usize = 0;
    fn extract(val: &PersonData) -> Option<&u32> { if let PersonData::Age(v) = val { Some(v) } else { None } }
    fn extract_mut(val: &mut PersonData) -> Option<&mut u32> { if let PersonData::Age(v) = val { Some(v) } else { None } }
}

impl DataSetKey<PersonData> for Height
{
    type Data = f32;
    const INDEX: usize = 1;
    fn extract(val: &PersonData) -> Option<&f32> { if let PersonData::Height(v) = val { Some(v) } else { None } }
    fn extract_mut(val: &mut PersonData) -> Option<&mut f32> { if let PersonData::Height(v) = val { Some(v) } else { None } }
}

impl DataSetKey<PersonData> for Weight
{
    type Data = f32;
    const INDEX: usize = 2;
    fn extract(val: &PersonData) -> Option<&f32> { if let PersonData::Weight(v) = val { Some(v) } else { None } }
    fn extract_mut(val: &mut PersonData) -> Option<&mut f32> { if let PersonData::Weight(v) = val { Some(v) } else { None } }
}

type Person = DataSet<PersonData>;

#[test]
fn new_data_set_has_no_property()
{
    let person = Person::new();
    assert!(!person.contains(Age));
}

#[test]
fn add_check_exists()
{
    let mut person = Person::new();
    assert!(!person.contains(Age));
    let _ = person.add(Age, PersonData::Age(12u32));
    assert!(person.contains(Age));
}

#[test]
fn add_multiple_key_check_exists()
{
    let mut person = Person::new();
    assert!(!person.contains(Age));
    let _ = person.add(Age, PersonData::Age(12u32));
    let _ = person.add(Height, PersonData::Height(1f32));
    assert!(person.contains(Age));
    assert!(person.contains(Height));
}

#[test]
fn add_remove_and_check_exists()
{
    let mut person = Person::new();
    let _ = person.add(Age, PersonData::Age(12u32));
    let _ = person.add(Height, PersonData::Height(1f32));

    assert!(person.contains(Age));

    person.remove(Age);
    assert!(!person.contains(Age));

    person.remove(Height);
    assert!(!person.contains(Height));
}

#[test]
fn add_check_exist_and_get()
{
    let mut person = Person::new();
    let _ = person.add(Age, PersonData::Age(12u32));

    assert!(person.contains(Age));
    if let Some(age) = person.get(Age)
    {
        assert!(*age == 12u32);
    }
}

#[test]
fn add_check_exist_and_get_mut()
{
    let mut person = Person::new();
    let _ = person.add(Age, PersonData::Age(12u32));

    assert!(person.contains(Age));
    let age = person.get_mut(Age).unwrap();
    assert!(*age == 12u32);
    *age = 122u32;

    if let Some(age) = person.get(Age)
    {
        assert!(*age == 122u32);
    }
}

#[test]
fn add_to_occupied_slot_is_refused()
{
    let mut person = Person::new();
    assert!(person.add(Weight, PersonData::Weight(70f32)).is_ok());
    assert_eq!(person.add(Weight, PersonData::Weight(80f32)), Err("slot already occupied - use get_mut() to edit, or remove() first !"));
    assert_eq!(person.get(Weight), Some(&70f32));
}

#[test]
fn remove_returns_stored_value_and_empties_slot()
{
    let mut person = DataSet::<PersonData>::default();
    assert!(person.remove(Age).is_none());
    let _ = person.add(Age, PersonData::Age(5));
    match person.remove(Age)
    {
        Some(PersonData::Age(v)) => assert_eq!(v, 5),
        _ => panic!("expected the stored age"),
    }
    assert!(person.get(Age).is_none());
    assert!(person.get_mut(Height).is_none());
}
