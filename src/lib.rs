//! In-memory order management: the order entity and its lifecycle, a store
//! keyed by order id, and the service that implements the use cases over them.
pub mod order;
pub mod order_repository;
pub mod order_service;

pub use order::{CancelOutcome, Order, OrderModel, OrderStatus};
pub use order_repository::OrderRepository;
pub use order_service::{CancelNotice, OrderService};
