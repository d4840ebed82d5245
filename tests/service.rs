use order_management::{CancelNotice, OrderService};

fn alice_text(status: &str) -> String {
    format!("Order ID: 1\nCustomer: Alice\nAmount: 99.50\nStatus: {}", status)
}

#[test]
fn example_scenario() {
    let mut service = OrderService::new();
    service.create_order(1, String::from("Alice"), 9950);
    assert_eq!(service.query_order(1), Some(alice_text("CREATED")));
    assert_eq!(service.cancel_order(1), CancelNotice::Canceled);
    assert_eq!(service.query_order(1), Some(alice_text("CANCELED")));
    assert_eq!(service.cancel_order(1), CancelNotice::AlreadyCanceled);
    assert_eq!(service.query_order(1), Some(alice_text("CANCELED")));
    assert_eq!(service.query_order(2), None);
    service.clear_orders();
    assert!(service.view_order_history().is_empty());
}

#[test]
fn create_then_query_gives_created_order() {
    let mut service = OrderService::new();
    service.create_order(42, String::from("Zoe"), 1);
    assert_eq!(
        service.query_order(42),
        Some(String::from("Order ID: 42\nCustomer: Zoe\nAmount: 0.01\nStatus: CREATED"))
    );
}

#[test]
fn cancel_twice_stays_canceled() {
    let mut service = OrderService::new();
    service.create_order(8, String::from("Hal"), 800);
    assert_eq!(service.cancel_order(8), CancelNotice::Canceled);
    assert_eq!(service.cancel_order(8), CancelNotice::AlreadyCanceled);
    assert!(service.query_order(8).unwrap().ends_with("Status: CANCELED"));
    assert_eq!(service.view_order_history().len(), 1);
}

#[test]
fn unknown_id_is_not_found_and_changes_nothing() {
    let mut service = OrderService::new();
    service.create_order(1, String::from("Alice"), 9950);
    let before = service.view_order_history();
    assert_eq!(service.cancel_order(2), CancelNotice::NotFound);
    assert_eq!(service.query_order(2), None);
    assert_eq!(service.view_order_history(), before);
    assert_eq!(service.query_order(1), Some(alice_text("CREATED")));
}

#[test]
fn not_found_on_empty_service() {
    let mut service = OrderService::new();
    assert_eq!(service.cancel_order(0), CancelNotice::NotFound);
    assert_eq!(service.query_order(0), None);
    assert!(service.view_order_history().is_empty());
}

#[test]
fn history_empty_then_one_entry_per_distinct_create() {
    let mut service = OrderService::new();
    assert!(service.view_order_history().is_empty());
    service.create_order(10, String::from("A"), 100);
    service.create_order(20, String::from("B"), 200);
    service.create_order(30, String::from("C"), 300);
    let mut history = service.view_order_history();
    assert_eq!(history.len(), 3);
    history.sort();
    history.dedup();
    assert_eq!(history.len(), 3);
    assert!(history.contains(&String::from("Order ID: 20\nCustomer: B\nAmount: 2.00\nStatus: CREATED")));
}

#[test]
fn clear_orders_empties_history() {
    let mut service = OrderService::new();
    service.create_order(1, String::from("A"), 1);
    service.create_order(2, String::from("B"), 2);
    service.cancel_order(2);
    service.clear_orders();
    assert!(service.view_order_history().is_empty());
    assert_eq!(service.query_order(1), None);
    service.create_order(3, String::from("C"), 3);
    assert_eq!(service.view_order_history().len(), 1);
}

#[test]
fn create_twice_same_id_overwrites() {
    let mut service = OrderService::new();
    service.create_order(5, String::from("First"), 100);
    service.cancel_order(5);
    service.create_order(5, String::from("Second"), 250);
    let history = service.view_order_history();
    assert_eq!(history, vec![String::from("Order ID: 5\nCustomer: Second\nAmount: 2.50\nStatus: CREATED")]);
    assert_eq!(service.query_order(5), Some(history[0].clone()));
}
