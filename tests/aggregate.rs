use std::cell::Cell;
use std::rc::Rc;

use close::{Close, Closing};

#[derive(Debug, PartialEq)]
struct Part {
    fails_with: Option<String>,
    closes: Rc<Cell<u32>>,
}

impl Close for Part {
    type Error = String;

    fn close(self) -> Result<(), String> {
        self.closes.set(self.closes.get() + 1);
        match self.fails_with {
            Some(e) => Err(e),
            None => Ok(()),
        }
    }
}

fn part(fails_with: Option<&str>, closes: &Rc<Cell<u32>>) -> Part {
    Part { fails_with: fails_with.map(String::from), closes: closes.clone() }
}

fn err(s: &str) -> Option<String> {
    Some(String::from(s))
}

#[test]
fn sequence_with_one_failure_reports_its_index() {
    let closes = Rc::new(Cell::new(0));
    let items = vec![part(None, &closes), part(Some("E1"), &closes), part(None, &closes)];
    assert_eq!(items.close(), Err(vec![None, err("E1"), None]));
    assert_eq!(closes.get(), 3);
}

#[test]
fn sequence_of_successes_succeeds() {
    let closes = Rc::new(Cell::new(0));
    let items = vec![part(None, &closes), part(None, &closes), part(None, &closes), part(None, &closes)];
    assert_eq!(items.close(), Ok(()));
    assert_eq!(closes.get(), 4);
}

#[test]
fn sequence_closes_every_item_after_failures() {
    let closes = Rc::new(Cell::new(0));
    let items = vec![part(Some("a"), &closes), part(None, &closes), part(Some("c"), &closes), part(Some("d"), &closes)];
    assert_eq!(items.close(), Err(vec![err("a"), None, err("c"), err("d")]));
    assert_eq!(closes.get(), 4);
}

#[test]
fn empty_sequence_succeeds() {
    let items: Vec<Part> = Vec::new();
    assert_eq!(items.close(), Ok(()));
}

#[test]
fn sequence_of_wrappers_closes_each_once() {
    let closes = Rc::new(Cell::new(0));
    let items = vec![Closing::from(part(None, &closes)), Closing::from(part(Some("w"), &closes))];
    assert_eq!(items.close(), Err(vec![None, err("w")]));
    assert_eq!(closes.get(), 2);
}

#[test]
fn single_tuple_delegates() {
    let closes = Rc::new(Cell::new(0));
    assert_eq!((part(Some("solo"), &closes),).close(), Err(String::from("solo")));
    assert_eq!((part(None, &closes),).close(), Ok(()));
    assert_eq!(closes.get(), 2);
}

#[test]
fn pair_reports_each_slot() {
    let closes = Rc::new(Cell::new(0));
    assert_eq!((part(None, &closes), part(None, &closes)).close(), Ok(()));
    assert_eq!((part(Some("a"), &closes), part(None, &closes)).close(), Err((err("a"), None)));
    assert_eq!((part(None, &closes), part(Some("b"), &closes)).close(), Err((None, err("b"))));
    assert_eq!(closes.get(), 6);
}

#[test]
fn triple_reports_each_slot() {
    let closes = Rc::new(Cell::new(0));
    assert_eq!((part(None, &closes), part(None, &closes), part(None, &closes)).close(), Ok(()));
    assert_eq!(
        (part(Some("a"), &closes), part(None, &closes), part(Some("c"), &closes)).close(),
        Err((err("a"), None, err("c")))
    );
    assert_eq!(closes.get(), 6);
}

#[test]
fn quadruple_reports_each_slot() {
    let closes = Rc::new(Cell::new(0));
    assert_eq!(
        (part(None, &closes), part(None, &closes), part(None, &closes), part(None, &closes)).close(),
        Ok(())
    );
    assert_eq!(
        (part(None, &closes), part(None, &closes), part(None, &closes), part(Some("d"), &closes)).close(),
        Err((None, None, None, err("d")))
    );
    assert_eq!(closes.get(), 8);
}

#[test]
fn tuple_of_mixed_types_closes_all() {
    let closes = Rc::new(Cell::new(0));
    let group = (part(Some("p"), &closes), vec![part(None, &closes)], Some(part(Some("q"), &closes)));
    assert_eq!(group.close(), Err((err("p"), None, err("q"))));
    assert_eq!(closes.get(), 3);
}

#[test]
fn no_value_closes_to_success() {
    let none: Option<Part> = None;
    assert_eq!(none.close(), Ok(()));
}

#[test]
fn some_value_closes_as_the_value() {
    let closes = Rc::new(Cell::new(0));
    assert_eq!(Some(part(Some("inner"), &closes)).close(), Err(String::from("inner")));
    assert_eq!(Some(part(None, &closes)).close(), Ok(()));
    assert_eq!(closes.get(), 2);
}

#[test]
fn boxed_value_closes_as_the_value() {
    let closes = Rc::new(Cell::new(0));
    assert_eq!(Box::new(part(Some("boxed"), &closes)).close(), part(Some("boxed"), &closes).close());
    assert_eq!(Box::new(part(None, &closes)).close(), Ok(()));
    assert_eq!(closes.get(), 3);
}
