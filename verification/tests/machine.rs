use idioms::vending::coins::InCoins;
use idioms::vending::machine::{Purchased, SafeVendingMachine, Stocked, VendingMachine};
use idioms::vending::states::Empty;
use idioms::vending::stock::{Product, Stock};

fn table(entries: &[(&str, u32, u8, u8)]) -> Stock {
    let mut stock = Stock::new();
    for (name, price, on_hand, capacity) in entries {
        stock.insert(Product::new(name, *price), *on_hand, *capacity);
    }
    stock
}

fn empty_machine(slots: &[(&str, u32, u8)], till: [u32; 6]) -> SafeVendingMachine<Empty> {
    let mut stock = Stock::new();
    for (name, price, capacity) in slots {
        stock.insert(Product::new(name, *price), 0, *capacity);
    }
    SafeVendingMachine::<Empty>::new(stock, InCoins(till)).unwrap()
}

#[test]
fn stock_table_keeps_one_slot_for_each_product() {
    let mut stock = Stock::new();
    assert_eq!(stock.insert(Product::new("tea", 7), 1, 4), None);
    assert_eq!(stock.insert(Product::new("tea", 8), 2, 5), None);
    assert_eq!(stock.insert(Product::new("tea", 7), 3, 6), Some((1, 4)));
    assert_eq!(stock.get(&Product::new("tea", 7)), Some((3, 6)));
    assert_eq!(stock.get(&Product::new("tea", 8)), Some((2, 5)));
    assert_eq!(stock.get(&Product::new("tea", 9)), None);
    assert_eq!(stock.get(&Product::new("te", 7)), None);
}

#[test]
fn stock_table_update_changes_what_is_on_hand() {
    let mut stock = table(&[("tea", 7, 1, 4), ("gum", 2, 0, 9)]);
    assert!(stock.update(&Product::new("gum", 2), 5));
    assert!(!stock.update(&Product::new("gum", 3), 5));
    assert_eq!(stock.get(&Product::new("gum", 2)), Some((5, 9)));
    assert_eq!(stock.get(&Product::new("tea", 7)), Some((1, 4)));
}

#[test]
fn products_are_the_same_by_name_and_price() {
    let tea = Product::new("tea", 7);
    assert!(tea.same(&Product::new("tea", 7)));
    assert!(tea.same(&tea.clone()));
    assert!(!tea.same(&Product::new("tea", 8)));
    assert!(!tea.same(&Product::new("Tea", 7)));
}

#[test]
fn occupancy_of_a_table() {
    assert!(table(&[("tea", 7, 0, 4), ("gum", 2, 0, 9)]).is_empty());
    assert!(!table(&[("tea", 7, 0, 4), ("gum", 2, 0, 9)]).is_full());
    assert!(table(&[("tea", 7, 4, 4), ("gum", 2, 9, 9)]).is_full());
    assert!(!table(&[("tea", 7, 4, 4), ("gum", 2, 9, 9)]).is_empty());
    assert!(!table(&[("tea", 7, 4, 4), ("gum", 2, 0, 9)]).is_empty());
    assert!(!table(&[("tea", 7, 4, 4), ("gum", 2, 0, 9)]).is_full());
    assert!(!table(&[("tea", 7, 1, 4)]).is_empty());
    assert!(!table(&[("tea", 7, 1, 4)]).is_full());
}

#[test]
fn a_table_without_room_is_empty_and_full() {
    assert!(Stock::new().is_empty());
    assert!(Stock::new().is_full());
    assert!(table(&[("tea", 7, 0, 0)]).is_empty());
    assert!(table(&[("tea", 7, 0, 0)]).is_full());
}

#[test]
fn restock_tops_up_and_stops_at_what_fits() {
    let mut stock = table(&[("tea", 7, 1, 4), ("gum", 2, 8, 9), ("nut", 5, 0, 3)]);
    let rejected = stock.restock(table(&[("tea", 7, 2, 0), ("gum", 2, 5, 0)]));
    assert!(rejected.is_empty());
    assert_eq!(stock.get(&Product::new("tea", 7)), Some((3, 4)));
    assert_eq!(stock.get(&Product::new("gum", 2)), Some((9, 9)));
    assert_eq!(stock.get(&Product::new("nut", 5)), Some((0, 3)));
}

#[test]
fn restock_does_not_wrap_around() {
    let mut stock = table(&[("tea", 7, 200, 255), ("gum", 2, 200, 210)]);
    stock.restock(table(&[("tea", 7, 100, 0), ("gum", 2, 255, 0)]));
    assert_eq!(stock.get(&Product::new("tea", 7)), Some((255, 255)));
    assert_eq!(stock.get(&Product::new("gum", 2)), Some((210, 210)));
}

#[test]
fn restock_hands_back_what_has_no_slot() {
    let mut stock = table(&[("tea", 7, 1, 4)]);
    let rejected =
        stock.restock(table(&[("gum", 2, 5, 9), ("tea", 7, 1, 0), ("tea", 8, 1, 4)]));
    assert_eq!(rejected.len(), 2);
    assert!(rejected.iter().any(|p| p.same(&Product::new("gum", 2))));
    assert!(rejected.iter().any(|p| p.same(&Product::new("tea", 8))));
    assert_eq!(stock.get(&Product::new("tea", 7)), Some((2, 4)));
    assert_eq!(stock.get(&Product::new("gum", 2)), None);
}

#[test]
fn a_machine_takes_no_table_stocked_beyond_what_fits() {
    assert!(VendingMachine::new(table(&[("tea", 7, 5, 4)]), InCoins([0; 6])).is_none());
    assert!(VendingMachine::new(table(&[("tea", 7, 4, 4)]), InCoins([0; 6])).is_some());
}

#[test]
fn an_empty_machine_takes_no_table_with_goods() {
    assert!(SafeVendingMachine::<Empty>::new(table(&[("tea", 7, 1, 4)]), InCoins([0; 6]))
        .is_none());
    assert!(SafeVendingMachine::<Empty>::new(table(&[("tea", 7, 0, 4)]), InCoins([0; 6]))
        .is_some());
}

#[test]
fn stocking_every_slot_to_capacity_gives_a_full_machine() {
    let machine = empty_machine(&[("tea", 7, 4), ("gum", 2, 9)], [0; 6]);
    let (stocked, rejected) = machine.stock(table(&[("tea", 7, 4, 0), ("gum", 2, 9, 0)]));
    assert!(rejected.is_empty());
    match stocked {
        Stocked::Full(m) => {
            assert!(m.machine().is_full());
            assert_eq!(m.machine().levels(&Product::new("tea", 7)), Some((4, 4)));
            assert_eq!(m.machine().levels(&Product::new("gum", 2)), Some((9, 9)));
        }
        Stocked::CanAccept(_) => panic!("every slot is full"),
    }
}

#[test]
fn stocking_some_slots_gives_a_machine_that_can_accept() {
    let machine = empty_machine(&[("tea", 7, 4), ("gum", 2, 9)], [0; 6]);
    let (stocked, _) = machine.stock(table(&[("tea", 7, 4, 0)]));
    match stocked {
        Stocked::CanAccept(m) => {
            assert!(!m.machine().is_full());
            assert!(!m.machine().is_empty());
            let (again, _) = m.stock(table(&[("gum", 2, 20, 0)]));
            assert!(matches!(again, Stocked::Full(_)));
        }
        Stocked::Full(_) => panic!("a slot has room"),
    }
}

#[test]
fn stocking_with_nothing_leaves_the_machine_without_goods() {
    let machine = empty_machine(&[("tea", 7, 4)], [0; 6]);
    let (stocked, rejected) = machine.stock(Stock::new());
    assert!(rejected.is_empty());
    match stocked {
        Stocked::CanAccept(m) => assert!(m.machine().is_empty()),
        Stocked::Full(_) => panic!("the slot has room"),
    }
}

#[test]
fn purchase_sells_a_unit_and_gives_change() {
    let machine = empty_machine(&[("tea", 7, 4)], [0, 0, 0, 0, 0, 5]);
    let (stocked, _) = machine.stock(table(&[("tea", 7, 3, 0)]));
    let Stocked::CanAccept(machine) = stocked else { panic!("a slot has room") };
    let (result, after) = machine.purchase(Product::new("tea", 7), InCoins([0, 0, 1, 0, 0, 0]));
    let (given, change) = result.unwrap();
    assert!(given.same(&Product::new("tea", 7)));
    assert_eq!(change.0, [0, 0, 0, 0, 0, 3]);
    match after {
        Purchased::CanAccept(m) => {
            assert_eq!(m.machine().levels(&Product::new("tea", 7)), Some((2, 4)));
            assert_eq!(m.machine().coins().0, [0, 0, 1, 0, 0, 2]);
            assert_eq!(m.machine().coins().total(), 12);
        }
        Purchased::Empty(_) => panic!("two units are left"),
    }
}

#[test]
fn purchase_from_a_full_machine() {
    let machine = empty_machine(&[("tea", 7, 2)], [0, 0, 0, 0, 0, 5]);
    let (stocked, _) = machine.stock(table(&[("tea", 7, 2, 0)]));
    let Stocked::Full(machine) = stocked else { panic!("every slot is full") };
    let (result, after) = machine.purchase(Product::new("tea", 7), InCoins([0, 0, 0, 1, 1, 0]));
    let (_, change) = result.unwrap();
    assert_eq!(change.0, [0; 6]);
    match after {
        Purchased::CanAccept(m) => {
            assert_eq!(m.machine().levels(&Product::new("tea", 7)), Some((1, 2)));
            assert_eq!(m.machine().coins().0, [0, 0, 0, 1, 1, 5]);
        }
        Purchased::Empty(_) => panic!("one unit is left"),
    }
}

#[test]
fn the_last_unit_is_not_sold() {
    let machine = empty_machine(&[("tea", 7, 4)], [0, 0, 0, 0, 0, 5]);
    let (stocked, _) = machine.stock(table(&[("tea", 7, 1, 0)]));
    let Stocked::CanAccept(machine) = stocked else { panic!("a slot has room") };
    let (result, after) = machine.purchase(Product::new("tea", 7), InCoins([0, 0, 0, 1, 1, 0]));
    assert!(result.is_none());
    match after {
        Purchased::CanAccept(m) => {
            assert_eq!(m.machine().levels(&Product::new("tea", 7)), Some((1, 4)));
            assert_eq!(m.machine().coins().0, [0, 0, 0, 0, 0, 5]);
        }
        Purchased::Empty(_) => panic!("one unit is left"),
    }
}

#[test]
fn purchase_is_rejected_when_underpaid() {
    let machine = empty_machine(&[("tea", 7, 4)], [0, 0, 0, 0, 0, 5]);
    let (stocked, _) = machine.stock(table(&[("tea", 7, 3, 0)]));
    let Stocked::CanAccept(machine) = stocked else { panic!("a slot has room") };
    let (result, after) = machine.purchase(Product::new("tea", 7), InCoins([0, 0, 0, 1, 0, 1]));
    assert!(result.is_none());
    let Purchased::CanAccept(m) = after else { panic!("three units are left") };
    assert_eq!(m.machine().levels(&Product::new("tea", 7)), Some((3, 4)));
    assert_eq!(m.machine().coins().0, [0, 0, 0, 0, 0, 5]);
}

#[test]
fn purchase_is_rejected_without_exact_change() {
    let machine = empty_machine(&[("gum", 2, 4)], [0; 6]);
    let (stocked, _) = machine.stock(table(&[("gum", 2, 3, 0)]));
    let Stocked::CanAccept(machine) = stocked else { panic!("a slot has room") };
    let (result, after) = machine.purchase(Product::new("gum", 2), InCoins([0, 0, 0, 1, 0, 0]));
    assert!(result.is_none());
    let Purchased::CanAccept(m) = after else { panic!("three units are left") };
    assert_eq!(m.machine().levels(&Product::new("gum", 2)), Some((3, 4)));
    assert_eq!(m.machine().coins().0, [0; 6]);
}

#[test]
fn purchase_of_an_unknown_product_is_rejected() {
    let machine = empty_machine(&[("tea", 7, 4)], [0, 0, 0, 0, 0, 5]);
    let (stocked, _) = machine.stock(table(&[("tea", 7, 3, 0)]));
    let Stocked::CanAccept(machine) = stocked else { panic!("a slot has room") };
    let (result, _) = machine.purchase(Product::new("tea", 8), InCoins([0, 0, 1, 0, 0, 0]));
    assert!(result.is_none());
}

#[test]
fn a_rejected_purchase_leaves_a_full_machine_full() {
    let machine = empty_machine(&[("tea", 7, 1)], [0; 6]);
    let (stocked, _) = machine.stock(table(&[("tea", 7, 1, 0)]));
    let Stocked::Full(machine) = stocked else { panic!("every slot is full") };
    let (result, after) = machine.purchase(Product::new("tea", 7), InCoins([0, 0, 1, 0, 0, 0]));
    assert!(result.is_none());
    let Purchased::CanAccept(m) = after else { panic!("one unit is left") };
    assert!(m.machine().is_full());
    assert!(!m.machine().is_empty());
}

#[test]
fn a_machine_without_room_stays_empty() {
    let machine = empty_machine(&[("tea", 7, 0)], [0; 6]);
    let (stocked, _) = machine.stock(table(&[("tea", 7, 3, 0)]));
    let Stocked::Full(machine) = stocked else { panic!("nothing fits") };
    let (result, after) = machine.purchase(Product::new("tea", 7), InCoins([0, 0, 1, 0, 0, 0]));
    assert!(result.is_none());
    assert!(matches!(after, Purchased::Empty(_)));
}

#[test]
fn the_untyped_machine_does_the_same() {
    let mut machine =
        VendingMachine::new(table(&[("tea", 7, 3, 4)]), InCoins([0, 0, 0, 0, 0, 5])).unwrap();
    assert!(!machine.is_empty());
    assert!(!machine.is_full());
    let (given, change) =
        machine.purchase(Product::new("tea", 7), InCoins([0, 0, 1, 0, 0, 0])).unwrap();
    assert!(given.same(&Product::new("tea", 7)));
    assert_eq!(change.0, [0, 0, 0, 0, 0, 3]);
    assert_eq!(machine.levels(&Product::new("tea", 7)), Some((2, 4)));
    let rejected = machine.stock(table(&[("tea", 7, 9, 0), ("gum", 2, 1, 1)]));
    assert_eq!(rejected.len(), 1);
    assert!(machine.is_full());
}
