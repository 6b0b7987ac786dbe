use shock::model::PlaceData;
use shock::placemodel::pathtypes::Link;
use shock::placemodel::pathtypes::Path;
use shock::placemodel::storage::HashMapPlaceStore;
use shock::placemodel::storage::PlaceStore;
use shock::primitive::types::AttributeData;
use shock::primitive::types::Place;
use shock::primitive::types::PrimitiveData;

#[test]
fn set_and_get_attributes() {
    // Given: a Place
    let mut p = Place::new(Place::generate_id(), Vec::new());

    // When: we put some data
    p.put_attr("value".to_string(), AttributeData::Data(PrimitiveData::Int(1)));

    // Then: we should get the same thing out
    assert_eq!(
        Some(&AttributeData::Data(PrimitiveData::Int(1))),
        p.get_attr(&"value".to_string())
    );

    // Then: if we try to get something that's not there, we should get None
    assert_eq!(None, p.get_attr(&"meow".to_string()));
}

#[test]
fn check_if_contains_key() {
    // Given: a Place
    let mut p = Place::new(Place::generate_id(), Vec::new());
    println!("{:?}", p);

    // When: we put some data
    p.put_attr("value".to_string(), AttributeData::Data(PrimitiveData::Int(1)));

    // Then: we should be able to check if the Place contains an attribute name
    assert_eq!(true, p.contains_key(&"value".to_string()));
    assert_eq!(false, p.contains_key(&"should not be in attr map".to_string()));
}

#[test]
fn reify_attribute_as_place() {
    let attribute_data = AttributeData::Data(PrimitiveData::Int(1));
    let attribute_key = "meow".to_string();

    // Given: a Place that has some AttributeData in it
    let mut p = Place::new(Place::generate_id(), Vec::new());
    p.put_attr(attribute_key.clone(), attribute_data.clone());

    // When: you reify the attribute as a Place
    let id = Place::generate_id();
    let reified = p.reify_attr(&attribute_key, id);

    // Then: the reified attribute data should be in `value`
    assert_eq!(Some(&attribute_data), reified.unwrap().get_attr(&"value".to_string()));

    // When: you reify an attribute that's not on the Place's attribute map
    let non_reified = p.reify_attr(&"should not exist".to_string(), Place::generate_id());

    // Then: you should get None
    assert_eq!(true, non_reified.is_none());
}

#[test]
fn remove_attribute() {
    let attribute_data = AttributeData::Data(PrimitiveData::Int(1));
    let attribute_key = "meow".to_string();

    // Given: a Place that has some AttributeData in it
    let mut p = Place::new(Place::generate_id(), Vec::new());
    p.put_attr(attribute_key.clone(), attribute_data.clone());

    // When: you try and remove the attribute
    p.remove_attr(&attribute_key);

    // Then: you should get None if you try to get it again.
    assert_eq!(None, p.get_attr(&attribute_key));
}

#[test]
fn verify_valid_path() {
    // Given: a PlaceStore
    let mut store: HashMapPlaceStore = HashMapPlaceStore::new();

    // Given: places
    let place1 = Place::generate_new();
    println!("place1: {:#?}", place1);
    let place2 = Place::generate_new();
    println!("place2: {:#?}", place2);
    let place3 = Place::generate_new();
    println!("place3: {:#?}", place3);

    // Given: we put places into the store with links between them
    let mut valid_path = Path::with_root(place1.get_id());
    store.put_place(place1.clone());
    println!("state: {:#?}", store);
    valid_path.push_link(
        store.put_linked_place(&place1.get_id(), "foo".to_string(), place2.clone()).unwrap(),
    );
    println!("state: {:#?}", store);
    valid_path.push_link(
        store.put_linked_place(&place2.get_id(), "bar".to_string(), place3.clone()).unwrap(),
    );
    println!("state: {:#?}", store);

    // When: we try to verify a valid path through the attribute chain
    // Then: verification should succeed
    assert_eq!(true, store.verify_path(&place1.get_id(), &valid_path));

    // Given: an invalid path
    let mut invalid_path = Path::with_root(place3.get_id());
    invalid_path
        .push_link(Link::new(place3.get_id(), place1.get_id(), "meow".to_string()).unwrap());

    // When: we try to verify an invalid path through the attribute chain
    // Then: verification should fail
    assert_eq!(false, store.verify_path(&place3.get_id(), &invalid_path));
}

#[test]
fn identifiers_differ() {
    assert_ne!(Place::generate_id(), Place::generate_id());
    assert_ne!(Place::generate_new().get_id(), Place::generate_new().get_id());
    let id = Place::generate_id();
    assert_eq!(4, (id >> 76) & 15);
    assert_eq!(2, (id >> 62) & 3);
}

#[test]
fn later_attribute_of_a_name_counts() {
    let mut p = Place::new(
        7,
        vec![
            ("a".to_string(), AttributeData::Place(1)),
            ("b".to_string(), AttributeData::Place(2)),
            ("a".to_string(), AttributeData::Place(3)),
        ],
    );
    assert_eq!(7, p.get_id());
    assert_eq!(Some(&AttributeData::Place(3)), p.get_attr(&"a".to_string()));
    p.put_attr("a".to_string(), AttributeData::Place(4));
    assert_eq!(Some(&AttributeData::Place(4)), p.get_attr(&"a".to_string()));
    p.remove_attr(&"a".to_string());
    assert_eq!(None, p.get_attr(&"a".to_string()));
    assert_eq!(Some(&AttributeData::Place(2)), p.get_attr(&"b".to_string()));
    p.remove_attr(&"nothing".to_string());
    assert_eq!(true, p.contains_key(&"b".to_string()));
}

#[test]
fn clone_of_a_place_is_the_same_place() {
    let mut p = Place::new(9, Vec::new());
    p.put_attr("a".to_string(), AttributeData::Data(PrimitiveData::Unsigned(5)));
    let q = p.clone();
    assert_eq!(9, q.get_id());
    assert_eq!(
        Some(&AttributeData::Data(PrimitiveData::Unsigned(5))),
        q.get_attr(&"a".to_string())
    );
}

#[test]
fn links_need_a_name() {
    assert!(Link::new(1, 2, "".to_string()).is_none());
    let link = Link::new(1, 2, "next".to_string()).unwrap();
    assert_eq!(1, *link.get_prev());
    assert_eq!(2, *link.get_curr());
    assert_eq!("next", link.get_attr_name().as_str());
    let copy = link.clone();
    assert_eq!(2, *copy.get_curr());
}

#[test]
fn paths_grow_and_shrink_at_the_end() {
    let mut path = Path::with_root(1);
    assert_eq!(&vec![(1, "".to_string())], path.get_traversal_list());
    assert_eq!(false, path.push_link(Link::new(2, 3, "x".to_string()).unwrap()));
    assert_eq!(true, path.push_link(Link::new(1, 2, "x".to_string()).unwrap()));
    assert_eq!(true, path.push_link(Link::new(2, 3, "y".to_string()).unwrap()));
    assert_eq!(
        &vec![(1, "".to_string()), (2, "x".to_string()), (3, "y".to_string())],
        path.get_traversal_list()
    );
    assert_eq!(true, path.pop_link(Link::new(9, 9, "z".to_string()).unwrap()));
    assert_eq!(2, path.get_traversal_list().len());
    assert_eq!(true, path.pop_link(Link::new(9, 9, "z".to_string()).unwrap()));
    assert_eq!(true, path.pop_link(Link::new(9, 9, "z".to_string()).unwrap()));
    assert_eq!(false, path.pop_link(Link::new(9, 9, "z".to_string()).unwrap()));
    assert_eq!(false, path.push_link(Link::new(1, 2, "x".to_string()).unwrap()));
    let single = Path::from_single_link(Link::new(4, 5, "k".to_string()).unwrap());
    assert_eq!(&vec![(4, "".to_string()), (5, "k".to_string())], single.get_traversal_list());
}

#[test]
fn store_keeps_places_by_identifier() {
    let mut store = HashMapPlaceStore::new();
    assert!(store.get_place(&1).is_none());
    store.put_place(Place::new(1, Vec::new()));
    assert_eq!(1, store.get_place(&1).unwrap().get_id());
    assert!(store.put_linked_place(&5, "x".to_string(), Place::new(2, Vec::new())).is_none());
    assert!(store.get_place(&2).is_none());
    let link = store.put_linked_place(&1, "x".to_string(), Place::new(2, Vec::new())).unwrap();
    assert_eq!((1, 2), (*link.get_prev(), *link.get_curr()));
    assert_eq!(
        Some(&AttributeData::Place(2)),
        store.get_place(&1).unwrap().get_attr(&"x".to_string())
    );
    store.delete_place(&2);
    assert!(store.get_place(&2).is_none());
    store.delete_place(&2);
    let path = Path::from_single_link(link);
    assert_eq!(true, store.verify_path(&1, &path));
    store.delete_place(&1);
    assert_eq!(false, store.verify_path(&1, &path));
    assert_eq!(false, store.verify_path(&2, &path));
    assert_eq!(true, store.verify_path(&1, &Path::with_root(1)));
    assert_eq!(true, store.verify_path(&7, &Path::with_root(7)));
}

#[test]
fn path_is_followed_by_names_only() {
    let mut store = HashMapPlaceStore::new();
    store.put_place(Place::new(1, Vec::new()));
    store.put_linked_place(&1, "x".to_string(), Place::new(2, Vec::new())).unwrap();
    let mut elsewhere = Path::with_root(1);
    elsewhere.push_link(Link::new(1, 99, "x".to_string()).unwrap());
    assert_eq!(true, store.verify_path(&1, &elsewhere));
    let mut data = Place::new(3, Vec::new());
    data.put_attr("d".to_string(), AttributeData::Data(PrimitiveData::Bool(true)));
    store.put_place(data);
    let mut through_data = Path::with_root(3);
    through_data.push_link(Link::new(3, 4, "d".to_string()).unwrap());
    assert_eq!(false, store.verify_path(&3, &through_data));
}

#[test]
fn named_places() {
    let mut p = shock::model::Place::new("root".to_string(), Vec::new());
    assert_eq!(false, p.contains_key("type".to_string()));
    p.put_attr(
        "type".to_string(),
        PlaceData::Data(shock::model::PrimitiveData::String("place".to_string())),
    );
    assert_eq!(true, p.contains_key("type".to_string()));
    assert_eq!(
        Some(&PlaceData::Data(shock::model::PrimitiveData::String("place".to_string()))),
        p.get_attr("type".to_string())
    );
    let mut made = p.reify_attr("kind".to_string(), "type".to_string());
    assert_eq!(
        Some(&PlaceData::Data(shock::model::PrimitiveData::String("place".to_string()))),
        made.get_attr("value".to_string())
    );
    assert_ne!(p.id(), made.id());
    let empty = made.reify_attr("none".to_string(), "type".to_string());
    assert_eq!(None, empty.get_attr("value".to_string()));
    let copy = p.clone();
    assert_ne!(p.id(), copy.id());
    assert_eq!(true, copy.contains_key("type".to_string()));
}

#[test]
fn path_as_text() {
    let names = vec!["a".to_string(), "b".to_string(), "c".to_string()];
    let path = shock::model::Path::new(1, 2, names);
    assert_eq!("a.b.c", path.to_text());
    assert_eq!("a.b.c", path.clone().to_text());
    assert_eq!("", shock::model::Path::new(1, 2, vec![]).to_text());
    assert_eq!("a", shock::model::Path::new(1, 2, vec!["a".to_string()]).to_text());
}
