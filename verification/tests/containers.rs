use idioms::list::DoublyLinkedList;
use idioms::stack::GlobalStack;

#[test]
fn list_gives_back_in_the_order_pushed() {
    let mut list = DoublyLinkedList::new();
    list.push_back(1);
    list.push_back(2);
    list.push_back(3);
    assert_eq!(list.len(), 3);
    assert_eq!(list.get(0), Some(&1));
    assert_eq!(list.get(2), Some(&3));
    assert_eq!(list.get(3), None);
    assert_eq!(list.pop_front(), Some(1));
    assert_eq!(list.pop_front(), Some(2));
    list.push_back(4);
    assert_eq!(list.pop_front(), Some(3));
    assert_eq!(list.pop_front(), Some(4));
    assert_eq!(list.pop_front(), None);
    assert_eq!(list.len(), 0);
}

#[test]
fn empty_list_has_nothing_to_pop() {
    let mut list: DoublyLinkedList<String> = DoublyLinkedList::new();
    assert_eq!(list.pop_front(), None);
    assert_eq!(list.len(), 0);
}

#[test]
fn stack_gives_back_the_newest_first() {
    let mut stack = GlobalStack::new();
    stack.push("a");
    stack.push("b");
    assert_eq!(stack.try_push("c"), Ok(()));
    assert_eq!(stack.pop(), Some("c"));
    assert_eq!(stack.pop(), Some("b"));
    stack.push("d");
    assert_eq!(stack.pop(), Some("d"));
    assert_eq!(stack.pop(), Some("a"));
    assert_eq!(stack.pop(), None);
}
