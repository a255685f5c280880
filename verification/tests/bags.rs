use bagger::bag::{Bag, MapState, Static, TryBag, TryStatic, TryUnbag, Unbag};
use bagger::error::Error;

pub const HELLO: &str = "Hello, world!";

#[test]
fn static_text() {
    let static_text: Static<&str> = Static(HELLO);
    assert_eq!(Bag::<str>::get(&static_text), HELLO);
    assert_eq!(TryBag::<str>::try_get(&static_text).unwrap(), HELLO);
}

#[test]
fn static_unbag() {
    let bag = Static(5);
    assert_eq!(bag.unbag(), 5);
    assert_eq!(bag.try_unbag().unwrap(), 5);
}

#[test]
fn try_unbag() {
    let bag = TryStatic(Ok(5));
    assert_eq!(bag.try_unbag().unwrap(), 5);
}

#[test]
fn a_failed_bag_hands_out_its_failure() {
    let bag: TryStatic<u32> = TryStatic(Err(Error::Io("Boom!".to_string())));
    assert!(matches!(bag.try_get(), Err(Error::Io(_))));
    assert!(matches!(bag.try_unbag(), Err(Error::Io(why)) if why == "Boom!"));
}

#[test]
fn a_map_state_applies_its_function_once() {
    let mut state = MapState::Unapplied { func: |x: u32| format!("{} bottles", x), data: 99 };
    state.apply();
    assert!(matches!(&state, MapState::Applied { data } if data == "99 bottles"));
    state.apply();
    assert_eq!(state.get(), "99 bottles");
}

#[test]
fn a_map_state_that_was_not_applied_computes_on_get() {
    let state = MapState::Unapplied { func: |x: u32| x + 1, data: 41 };
    assert_eq!(state.get(), 42);
}

#[test]
fn a_type_can_say_how_its_bag_is_made() {
    struct Hello;
    impl bagger::bag::InitBag for Hello {
        type Bag = Static<&'static str>;
        fn init() -> Self::Bag {
            Static(HELLO)
        }
    }
    let bag = <Hello as bagger::bag::InitBag>::init();
    assert_eq!(bag.unbag(), HELLO);
}

#[test]
fn a_static_bag_gives_what_its_value_borrows_as() {
    let owned = Static("Hello".to_string());
    assert_eq!(Bag::<str>::get(&owned), "Hello");
    assert_eq!(Bag::<String>::get(&owned), "Hello");
    assert_eq!(TryBag::<str>::try_get(&owned).unwrap(), "Hello");

    let items = Static(vec![1u8, 2, 3]);
    assert_eq!(Bag::<[u8]>::get(&items), &[1, 2, 3]);
    assert_eq!(TryBag::<[u8]>::try_get(&items).unwrap(), &[1, 2, 3]);

    let bytes: &[u8] = &[4, 5];
    let slice = Static(bytes);
    assert_eq!(Bag::<[u8]>::get(&slice), &[4, 5]);

    let array = Static([6u8, 7]);
    assert_eq!(Bag::<[u8]>::get(&array), &[6, 7]);

    let boxed = Static(Box::new(8u32));
    assert_eq!(*Bag::<u32>::get(&boxed), 8);
}

#[test]
fn a_loaded_bag_gives_what_its_value_borrows_as() {
    let owned: TryStatic<String> = TryStatic(Ok("Hello".to_string()));
    assert_eq!(TryBag::<str>::try_get(&owned).unwrap(), "Hello");
    let items: TryStatic<Vec<u8>> = TryStatic(Ok(vec![1, 2]));
    assert_eq!(TryBag::<[u8]>::try_get(&items).unwrap(), &[1, 2]);
    let text: TryStatic<&str> = TryStatic(Ok(HELLO));
    assert_eq!(TryBag::<str>::try_get(&text).unwrap(), HELLO);
    let failed: TryStatic<String> = TryStatic(Err(Error::Io("Boom!".to_string())));
    assert!(matches!(TryBag::<str>::try_get(&failed), Err(Error::Io(_))));
}
