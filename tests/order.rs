use order_management::{CancelOutcome, Order, OrderStatus};

#[test]
fn new_order_renders_all_fields() {
    let order = Order::new(7, String::from("Bob"), 1205);
    assert_eq!(order.display(), "Order ID: 7\nCustomer: Bob\nAmount: 12.05\nStatus: CREATED");
}

#[test]
fn get_id_returns_the_id() {
    let order = Order::new(4294967295, String::from("Max"), 0);
    assert_eq!(order.get_id(), 4294967295);
}

#[test]
fn amount_renders_with_two_decimals() {
    assert!(Order::new(1, String::new(), 0).display().ends_with("Amount: 0.00\nStatus: CREATED"));
    assert!(Order::new(1, String::new(), 5).display().contains("Amount: 0.05\n"));
    assert!(Order::new(1, String::new(), 9950).display().contains("Amount: 99.50\n"));
    assert!(Order::new(1, String::new(), -150).display().contains("Amount: -1.50\n"));
    assert!(Order::new(1, String::new(), 123456789).display().contains("Amount: 1234567.89\n"));
}

#[test]
fn amount_renders_extreme_values() {
    assert!(Order::new(1, String::new(), i64::MIN).display().contains("Amount: -92233720368547758.08\n"));
    assert!(Order::new(1, String::new(), i64::MAX).display().contains("Amount: 92233720368547758.07\n"));
}

#[test]
fn empty_name_and_zero_id_are_accepted() {
    let order = Order::new(0, String::new(), -1);
    assert_eq!(order.display(), "Order ID: 0\nCustomer: \nAmount: -0.01\nStatus: CREATED");
}

#[test]
fn cancel_then_cancel_again_is_a_no_op() {
    let mut order = Order::new(3, String::from("Carol"), 100);
    assert_eq!(order.cancel(), CancelOutcome::Canceled);
    assert_eq!(order.display(), "Order ID: 3\nCustomer: Carol\nAmount: 1.00\nStatus: CANCELED");
    assert_eq!(order.cancel(), CancelOutcome::AlreadyCanceled);
    assert_eq!(order.display(), "Order ID: 3\nCustomer: Carol\nAmount: 1.00\nStatus: CANCELED");
    assert_eq!(order.get_id(), 3);
}

#[test]
fn clone_keeps_every_field() {
    let mut order = Order::new(9, String::from("Dan"), 42);
    order.cancel();
    let copy = order.clone();
    assert_eq!(copy.display(), order.display());
    assert_ne!(OrderStatus::Created, OrderStatus::Canceled);
}
