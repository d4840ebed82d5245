//! The order entity: its data, its lifecycle and its text rendering.
use vstd::prelude::*;
use vstd::string::*;

verus! {

/// Lifecycle state of an order. The only legal transition is `Created -> Canceled`.
#[derive(Clone, Copy, Debug, PartialEq, Eq, Structural)]
pub enum OrderStatus {
    Created,
    Canceled,
}

/// What `Order::cancel` did.
#[derive(Clone, Copy, Debug, PartialEq, Eq, Structural)]
pub enum CancelOutcome {
    /// The order went from `Created` to `Canceled`.
    Canceled,
    /// The order was canceled before; nothing changed.
    AlreadyCanceled,
}

/// Mathematical model of an order. `amount` is in cents.
pub struct OrderModel {
    pub id: u32,
    pub customer_name: Seq<char>,
    pub amount: i64,
    pub status: OrderStatus,
}

impl OrderModel {
    /// A freshly created order.
    pub open spec fn created(id: u32, customer_name: Seq<char>, amount: i64) -> OrderModel {
        OrderModel { id, customer_name, amount, status: OrderStatus::Created }
    }

    /// The same order after a cancellation: status `Canceled`, every other field kept.
    pub open spec fn canceled(self) -> OrderModel {
        OrderModel { status: OrderStatus::Canceled, ..self }
    }
}

/// One customer order. The amount is a monetary value in cents (hundredths).
#[derive(Debug)]
pub struct Order {
    id: u32,
    customer_name: String,
    amount: i64,
    status: OrderStatus,
}

impl Clone for Order {
    fn clone(&self) -> (r: Order)
        ensures
            r@ == self@,
    {
        Order {
            id: self.id,
            customer_name: self.customer_name.clone(),
            amount: self.amount,
            status: self.status,
        }
    }
}

impl View for Order {
    type V = OrderModel;

    closed spec fn view(&self) -> OrderModel {
        OrderModel {
            id: self.id,
            customer_name: self.customer_name@,
            amount: self.amount,
            status: self.status,
        }
    }
}


/// The character of a decimal digit.
pub open spec fn digit_char(d: nat) -> char {
    if d == 0 { '0' }
    else if d == 1 { '1' }
    else if d == 2 { '2' }
    else if d == 3 { '3' }
    else if d == 4 { '4' }
    else if d == 5 { '5' }
    else if d == 6 { '6' }
    else if d == 7 { '7' }
    else if d == 8 { '8' }
    else { '9' }
}

/// Decimal notation of a natural number, without leading zeros.
pub open spec fn decimal_text(n: nat) -> Seq<char>
    decreases n,
{
    if n < 10 {
        seq![digit_char(n)]
    } else {
        decimal_text(n / 10) + seq![digit_char(n % 10)]
    }
}

/// An amount of cents written as units with exactly two decimals (`-1.05`, `99.50`).
pub open spec fn amount_text(cents: int) -> Seq<char> {
    let mag: nat = if cents < 0 { (-cents) as nat } else { cents as nat };
    let sign: Seq<char> = if cents < 0 { seq!['-'] } else { Seq::empty() };
    sign + decimal_text(mag / 100) + seq!['.', digit_char((mag % 100) / 10), digit_char(mag % 10)]
}

/// The word that names a status.
pub open spec fn status_text(s: OrderStatus) -> Seq<char> {
    match s {
        OrderStatus::Created => "CREATED"@,
        OrderStatus::Canceled => "CANCELED"@,
    }
}

/// Human-readable rendering of an order: one line per field.
pub open spec fn order_text(o: OrderModel) -> Seq<char> {
    "Order ID: "@ + decimal_text(o.id as nat) + "\nCustomer: "@ + o.customer_name
        + "\nAmount: "@ + amount_text(o.amount as int) + "\nStatus: "@ + status_text(o.status)
}

/// The one-character string of a decimal digit.
fn digit_str(d: u64) -> (r: &'static str)
    requires
        d < 10,
    ensures
        r@ == seq![digit_char(d as nat)],
{
    proof {
        reveal_strlit("0");
        reveal_strlit("1");
        reveal_strlit("2");
        reveal_strlit("3");
        reveal_strlit("4");
        reveal_strlit("5");
        reveal_strlit("6");
        reveal_strlit("7");
        reveal_strlit("8");
        reveal_strlit("9");
    }
    if d == 0 { "0" }
    else if d == 1 { "1" }
    else if d == 2 { "2" }
    else if d == 3 { "3" }
    else if d == 4 { "4" }
    else if d == 5 { "5" }
    else if d == 6 { "6" }
    else if d == 7 { "7" }
    else if d == 8 { "8" }
    else { "9" }
}

/// Appends the decimal notation of `n` to `out`.
fn push_decimal(out: &mut String, n: u64)
    ensures
        final(out)@ == old(out)@ + decimal_text(n as nat),
    decreases n,
{
    if n >= 10 {
        push_decimal(out, n / 10);
    }
    out.append(digit_str(n % 10));
}

/// Appends an amount of cents with two decimals to `out`.
fn push_amount(out: &mut String, cents: i64)
    ensures
        final(out)@ == old(out)@ + amount_text(cents as int),
{
    let mag: u64 = if cents < 0 { (0i128 - cents as i128) as u64 } else { cents as u64 };
    if cents < 0 {
        proof { reveal_strlit("-"); }
        out.append("-");
    }
    push_decimal(out, mag / 100);
    proof { reveal_strlit("."); }
    out.append(".");
    out.append(digit_str((mag % 100) / 10));
    out.append(digit_str(mag % 10));
}

impl Order {
    /// Builds an order with status `Created`. No field is validated.
    pub fn new(id: u32, customer_name: String, amount: i64) -> (r: Order)
        ensures
            r@ == OrderModel::created(id, customer_name@, amount),
    {
        Order { id, customer_name, amount, status: OrderStatus::Created }
    }

    /// Cancels the order. Canceling an order that is already canceled changes
    /// nothing and is reported as such, not as a failure.
    pub fn cancel(&mut self) -> (r: CancelOutcome)
        ensures
            final(self)@ == old(self)@.canceled(),
            r == (if old(self)@.status == OrderStatus::Created {
                CancelOutcome::Canceled
            } else {
                CancelOutcome::AlreadyCanceled
            }),
    {
        match self.status {
            OrderStatus::Created => {
                self.status = OrderStatus::Canceled;
                CancelOutcome::Canceled
            },
            OrderStatus::Canceled => CancelOutcome::AlreadyCanceled,
        }
    }

    /// Renders every field of the order as text, the amount with two decimals.
    pub fn display(&self) -> (r: String)
        ensures
            r@ == order_text(self@),
    {
        let mut out = String::new();
        out.append("Order ID: ");
        push_decimal(&mut out, self.id as u64);
        out.append("\nCustomer: ");
        out.append(self.customer_name.as_str());
        out.append("\nAmount: ");
        push_amount(&mut out, self.amount);
        out.append("\nStatus: ");
        match self.status {
            OrderStatus::Created => out.append("CREATED"),
            OrderStatus::Canceled => out.append("CANCELED"),
        }
        out
    }

    /// The order's identifier.
    pub fn get_id(&self) -> (r: u32)
        ensures
            r == self@.id,
    {
        self.id
    }
}

} // verus!
