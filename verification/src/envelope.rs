use vstd::prelude::*;
use vstd::string::StringExecFns;

use crate::order::{
    dedup_orders, order_amounts_finite, order_views, parse_order, parsed_order, raw_order_error,
    raw_order_ok, Order, OrderView, ParseError, RawOrder, RawOrderView,
};

verus! {

/// Why a polling cycle produced no batch: the upstream answered with its
/// failure payload carrying a human-readable message, or the response
/// matched neither shape of the envelope and the raw body is kept for
/// diagnostics.  A transport failure is reported by the unverified edge
/// as [`FetchError::Transport`] with the transport's own message.
#[derive(Debug)]
pub enum FetchError {
    Upstream(String),
    Malformed(String),
    Transport(String),
}

/// The log line of a fetch failure: the upstream's own message, the
/// diagnostic around an unreadable body, or the transport's message.
pub open spec fn fetch_error_message(e: FetchError) -> Seq<char> {
    match e {
        FetchError::Upstream(m) => m@,
        FetchError::Malformed(raw) => "Failed to deserialize '"@ + raw@ + "'"@,
        FetchError::Transport(m) => m@,
    }
}

impl FetchError {
    /// Renders the failure in one line, exactly as
    /// [`fetch_error_message`] lays it out.
    pub fn describe(&self) -> (r: String)
        ensures
            r@ == fetch_error_message(*self),
    {
        match self {
            FetchError::Upstream(m) => m.clone(),
            FetchError::Malformed(raw) => {
                let mut out: String = "Failed to deserialize '".to_owned();
                out.append(raw.as_str());
                out.append("'");
                proof {
                    assert(out@ =~= fetch_error_message(*self));
                }
                out
            },
            FetchError::Transport(m) => m.clone(),
        }
    }
}

/// What one call of the fetcher produced: the deduplicated batch of the
/// cycle, or the error that voids the cycle.
#[derive(Debug)]
pub enum FetchOutcome {
    Orders(Vec<Order>),
    Failed(FetchError),
}

/// The views of a sequence of raw orders, in order.
pub open spec fn raw_views(s: Seq<RawOrder>) -> Seq<RawOrderView> {
    s.map_values(|x: RawOrder| x@)
}

/// What the success shape of a response body holds: the rows under
/// `latestOrders`, when the body is JSON carrying that list with the
/// seven textual fields on every element; `None` otherwise.  The JSON
/// reading is deterministic, so this is a function of the body text
/// alone.
pub uninterp spec fn envelope_rows_of(body: Seq<char>) -> Option<Seq<RawOrderView>>;

/// What the failure shape of a response body holds: the text under
/// `message`, when the body is JSON carrying one; `None` otherwise.  A
/// function of the body text alone.
pub uninterp spec fn envelope_message_of(body: Seq<char>) -> Option<Seq<char>>;

/// Relies on serde_json::from_str and serde_json::Value's pointer,
/// as_array and as_str: reads the success shape of the envelope into
/// plain rows.  The composed reading depends on the body text alone,
/// and the contract only spells out [`envelope_rows_of`].
#[verifier::external_body]
fn read_envelope_rows(body: &str) -> (r: Option<Vec<RawOrder>>)
    ensures
        match r {
            Some(v) => envelope_rows_of(body@) == Some(raw_views(v@)),
            None => envelope_rows_of(body@) is None,
        },
{
    let tree: serde_json::Value = serde_json::from_str(body).ok()?;
    let list = tree.pointer("/latestOrders")?.as_array()?;
    let mut rows: Vec<RawOrder> = Vec::new();
    for e in list {
        rows.push(RawOrder {
            ty: e.pointer("/type")?.as_str()?.to_owned(),
            blockchain: e.pointer("/blockchain")?.as_str()?.to_owned(),
            crypto_amount: e.pointer("/cryptoAmount")?.as_str()?.to_owned(),
            crypto_symbol: e.pointer("/cryptoSymbol")?.as_str()?.to_owned(),
            fiat_amount: e.pointer("/fiatAmount")?.as_str()?.to_owned(),
            fiat_price: e.pointer("/fiatPrice")?.as_str()?.to_owned(),
            fiat_symbol: e.pointer("/fiatSymbol")?.as_str()?.to_owned(),
        });
    }
    Some(rows)
}

/// Relies on serde_json::from_str and serde_json::Value's pointer and
/// as_str: reads the failure shape of the envelope.  The composed
/// reading depends on the body text alone, and the contract only spells
/// out [`envelope_message_of`].
#[verifier::external_body]
fn read_envelope_message(body: &str) -> (r: Option<String>)
    ensures
        match r {
            Some(m) => envelope_message_of(body@) == Some(m@),
            None => envelope_message_of(body@) is None,
        },
{
    let tree: serde_json::Value = serde_json::from_str(body).ok()?;
    Some(tree.pointer("/message")?.as_str()?.to_owned())
}

/// Whether every row of a success-shaped body is admissible.
pub open spec fn rows_admissible(rows: Seq<RawOrderView>) -> bool {
    forall|i: int| 0 <= i < rows.len() ==> raw_order_ok(#[trigger] rows[i])
}

/// Whether `out` holds exactly the deduplicated batch parsed from
/// `rows`: each parsed value once, and no other value.
pub open spec fn batch_of(rows: Seq<RawOrderView>, out: Seq<OrderView>) -> bool {
    &&& out.no_duplicates()
    &&& forall|o: OrderView| #[trigger]
        out.contains(o) <==> exists|i: int| 0 <= i < rows.len() && parsed_order(#[trigger] rows[i])
            == o
}

/// The error owed when the success shape is unusable: the upstream's
/// message when the failure shape matches, else the raw body kept for
/// diagnostics.
pub open spec fn failure_outcome(body: Seq<char>, r: FetchOutcome) -> bool {
    match envelope_message_of(body) {
        Some(m) => r matches FetchOutcome::Failed(FetchError::Upstream(s)) && s@ == m,
        None => r matches FetchOutcome::Failed(FetchError::Malformed(s)) && s@ == body,
    }
}

/// The outcome owed for a response body: the parsed, deduplicated batch
/// when the success shape matches and every row is admissible; else the
/// upstream's message when the failure shape matches; else the raw body.
pub open spec fn response_outcome(body: Seq<char>, r: FetchOutcome) -> bool {
    match envelope_rows_of(body) {
        Some(rows) => {
            if rows_admissible(rows) {
                r matches FetchOutcome::Orders(v) && batch_of(rows, order_views(v@))
            } else {
                failure_outcome(body, r)
            }
        },
        None => failure_outcome(body, r),
    }
}

/// Validates a whole batch of raw orders.  Succeeds exactly when every
/// row is admissible, and then yields the batch deduplicated: each
/// parsed value once, no other value.  One inadmissible row voids the
/// whole batch, with the error of the first such row; nothing is
/// partially ingested.
pub fn orders_from_rows(rows: &Vec<RawOrder>) -> (r: Result<Vec<Order>, ParseError>)
    ensures
        rows_admissible(raw_views(rows@)) <==> (r matches Ok(_)),
        r matches Ok(v) ==> {
            &&& batch_of(raw_views(rows@), order_views(v@))
            &&& forall|o: OrderView| #[trigger] order_views(v@).contains(o) ==> order_amounts_finite(o)
        },
        r matches Err(e) ==> exists|i: int|
            {
                &&& 0 <= i < rows@.len()
                &&& !raw_order_ok(#[trigger] rows@[i]@)
                &&& e == raw_order_error(rows@[i]@)
                &&& forall|j: int| 0 <= j < i ==> raw_order_ok(#[trigger] rows@[j]@)
            },
{
    let mut parsed: Vec<Order> = Vec::new();
    let mut i: usize = 0;
    while i < rows.len()
        invariant
            i <= rows@.len(),
            parsed@.len() == i,
            forall|k: int|
                0 <= k < i ==> raw_order_ok(#[trigger] rows@[k]@) && parsed@[k]@ == parsed_order(
                    rows@[k]@,
                ),
        decreases rows@.len() - i,
    {
        match parse_order(&rows[i]) {
            Ok(o) => {
                parsed.push(o);
            },
            Err(e) => {
                proof {
                    assert(raw_views(rows@)[i as int] == rows@[i as int]@);
                }
                return Err(e);
            },
        }
        i += 1;
    }
    let out = dedup_orders(&parsed);
    proof {
        assert forall|k: int| 0 <= k < raw_views(rows@).len() implies raw_order_ok(
            #[trigger] raw_views(rows@)[k],
        ) by {
            assert(raw_views(rows@)[k] == rows@[k]@);
        }
        assert forall|o: OrderView| #[trigger] order_views(out@).contains(o) implies exists|k: int|
            0 <= k < raw_views(rows@).len() && parsed_order(#[trigger] raw_views(rows@)[k])
                == o by {
            assert(order_views(parsed@).contains(o));
            let k = choose|k: int|
                0 <= k < order_views(parsed@).len() && order_views(parsed@)[k] == o;
            assert(parsed_order(raw_views(rows@)[k]) == o);
        }
        assert forall|o: OrderView|
            (exists|k: int|
                0 <= k < raw_views(rows@).len() && parsed_order(#[trigger] raw_views(rows@)[k])
                    == o) implies #[trigger] order_views(out@).contains(o) by {
            let k = choose|k: int|
                0 <= k < raw_views(rows@).len() && parsed_order(raw_views(rows@)[k]) == o;
            assert(order_views(parsed@)[k] == o);
            assert(order_views(parsed@).contains(o));
        }
    }
    Ok(out)
}

/// Reads the failure shape: the message under `message`.  When it is
/// present the upstream itself reported the failure; otherwise the body
/// matched neither envelope shape and is kept raw.
fn read_failure(body: &str) -> (r: FetchOutcome)
    ensures
        failure_outcome(body@, r),
{
    match read_envelope_message(body) {
        Some(m) => FetchOutcome::Failed(FetchError::Upstream(m)),
        None => FetchOutcome::Failed(FetchError::Malformed(body.to_owned())),
    }
}

/// Interprets one upstream response body.  The envelope has no
/// discriminant tag, so the success shape is attempted first: a
/// `latestOrders` list whose rows all validate becomes the parsed,
/// deduplicated batch.  When that shape fails for any reason —
/// structure or an inadmissible field — the failure shape is read, and
/// a body matching neither is kept raw.  [`response_outcome`] pins the
/// result for every body; interpretation itself never reports a
/// transport failure.
pub fn interpret_response(body: &str) -> (r: FetchOutcome)
    ensures
        response_outcome(body@, r),
        r matches FetchOutcome::Orders(v) ==> order_views(v@).no_duplicates() && (forall|o:
            OrderView| #[trigger] order_views(v@).contains(o) ==> order_amounts_finite(o)),
        r matches FetchOutcome::Failed(e) ==> !(e matches FetchError::Transport(_)),
{
    match read_envelope_rows(body) {
        Some(rows) => match orders_from_rows(&rows) {
            Ok(orders) => FetchOutcome::Orders(orders),
            Err(_) => read_failure(body),
        },
        None => read_failure(body),
    }
}

} // verus!
