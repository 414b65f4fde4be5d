use vstd::prelude::*;
use vstd::string::{StrSliceExecFns, StringExecFns};

use crate::order::{order_type_str, order_type_token, parse_order_type, Order, OrderView};

verus! {

/// The verified model of the durable, append-only order table.  Rows are
/// kept in creation order: the position of a row models the
/// server-assigned creation instant, which increases strictly with each
/// append because there is exactly one writer.  The unverified edge
/// binds this model to its storage backend; that binding can fail for
/// reasons of the machine, which the model does not represent.
pub struct Store {
    pub initialized: bool,
    pub rows: Vec<Order>,
}

/// Why a store operation was refused: the schema was never initialized.
#[derive(Clone, Copy, Debug, PartialEq, Eq, Structural)]
pub enum StoreError {
    NotInitialized,
}

/// How many of the most recent rows the bootstrap read returns at most.
pub const RECENT_LIMIT: usize = 10;

/// The store state that initialization produces: the schema exists and
/// every row is kept.
pub open spec fn init_result(s: Store) -> Store {
    Store { initialized: true, rows: s.rows }
}

/// What the bootstrap read returns for the given rows: the most recent
/// ones first, capped at [`RECENT_LIMIT`].
pub open spec fn recent_of(rows: Seq<Order>, v: Seq<Order>) -> bool {
    &&& v.len() == if rows.len() < RECENT_LIMIT {
        rows.len()
    } else {
        RECENT_LIMIT as nat
    }
    &&& forall|i: int| 0 <= i < v.len() ==> v[i] == rows[rows.len() - 1 - i]
}

impl Store {
    /// A fresh store with no schema and no rows.
    pub fn new() -> (s: Store)
        ensures
            !s.initialized,
            s.rows@ == Seq::<Order>::empty(),
    {
        Store { initialized: false, rows: Vec::new() }
    }
}

/// Idempotently ensures the order table exists.  It never fails and
/// never touches existing rows, so it is safe to run on every process
/// start.
pub fn init(store: &mut Store) -> (r: Result<(), StoreError>)
    ensures
        r matches Ok(()),
        *final(store) == init_result(*old(store)),
{
    store.initialized = true;
    Ok(())
}

/// Law: initializing an already initialized store changes nothing, so
/// running the schema setup twice neither errors nor duplicates
/// structure.
pub proof fn lemma_init_idempotent(s: Store)
    ensures
        init_result(init_result(s)) == init_result(s),
{
}

/// Returns the most recently created rows, newest first, capped at
/// [`RECENT_LIMIT`]; used only to seed the baseline at startup.  Fails
/// exactly when the store was never initialized.
pub fn get_latest_orders(store: &Store) -> (r: Result<Vec<Order>, StoreError>)
    ensures
        store.initialized ==> (r matches Ok(v) && recent_of(store.rows@, v@)),
        !store.initialized ==> r == Err::<Vec<Order>, StoreError>(StoreError::NotInitialized),
{
    if !store.initialized {
        return Err(StoreError::NotInitialized);
    }
    let n = store.rows.len();
    let take = if n < RECENT_LIMIT {
        n
    } else {
        RECENT_LIMIT
    };
    let mut v: Vec<Order> = Vec::new();
    let mut i: usize = 0;
    while i < take
        invariant
            take <= n == store.rows@.len(),
            i <= take,
            v@.len() == i,
            forall|k: int| 0 <= k < i ==> v@[k] == store.rows@[n - 1 - k],
        decreases take - i,
    {
        v.push(store.rows[n - 1 - i].clone());
        i += 1;
    }
    Ok(v)
}

/// Appends one order as the newest row.  Existing rows are never updated
/// or removed.  Fails exactly when the store was never initialized; a
/// failed append leaves the rows unchanged, and the caller is expected
/// to carry on with the remaining orders of the cycle.
pub fn insert_order(order: &Order, store: &mut Store) -> (r: Result<(), StoreError>)
    ensures
        old(store).initialized ==> (r matches Ok(()) && final(store).initialized
            && final(store).rows@ == old(store).rows@.push(*order)),
        !old(store).initialized ==> (r == Err::<(), StoreError>(StoreError::NotInitialized)
            && *final(store) == *old(store)),
{
    if !store.initialized {
        return Err(StoreError::NotInitialized);
    }
    store.rows.push(order.clone());
    Ok(())
}

/// The one durable row a stamped order renders to: the creation
/// instant's text and the seven fields, tab-separated.
pub open spec fn store_row_of(created_at: Seq<char>, o: OrderView) -> Seq<char> {
    created_at + "\t"@ + order_type_token(o.ty) + "\t"@ + o.blockchain + "\t"@ + o.crypto_amount
        + "\t"@ + o.crypto_symbol + "\t"@ + o.fiat_amount + "\t"@ + o.fiat_price + "\t"@
        + o.fiat_symbol
}

/// Renders one durable row, exactly as [`store_row_of`] lays it out.
pub fn format_store_row(created_at: &str, order: &Order) -> (r: String)
    ensures
        r@ == store_row_of(created_at@, order@),
{
    let mut out: String = created_at.to_owned();
    out.append("\t");
    out.append(order_type_str(&order.ty));
    out.append("\t");
    out.append(order.blockchain.as_str());
    out.append("\t");
    out.append(order.crypto_amount.as_str());
    out.append("\t");
    out.append(order.crypto_symbol.as_str());
    out.append("\t");
    out.append(order.fiat_amount.as_str());
    out.append("\t");
    out.append(order.fiat_price.as_str());
    out.append("\t");
    out.append(order.fiat_symbol.as_str());
    proof {
        assert(out@ =~= store_row_of(created_at@, order@));
    }
    out
}

/// Reads one durable row back.  The result is checked against its own
/// rendering, so a returned pair is exactly one whose [`store_row_of`]
/// image is the line: reading never invents a row, and a line that is
/// the rendering of a stamped order yields that order back, as the
/// round-trip tests exercise.  Anything else — wrong field count, an
/// unknown kind token — is `None`.
pub fn parse_store_row(line: &str) -> (r: Option<(String, Order)>)
    ensures
        r matches Some((created_at, o)) ==> line@ == store_row_of(created_at@, o@),
{
    let n = line.unicode_len();
    let mut fields: Vec<String> = Vec::new();
    let mut start: usize = 0;
    let mut i: usize = 0;
    while i < n
        invariant
            start <= i <= n,
            n == line@.len(),
        decreases n - i,
    {
        let c = line.get_char(i);
        if c == '\t' {
            fields.push(line.substring_char(start, i).to_owned());
            start = i + 1;
        }
        i += 1;
    }
    fields.push(line.substring_char(start, n).to_owned());
    if fields.len() != 8 {
        return None;
    }
    let ty = match parse_order_type(fields[1].as_str()) {
        Ok(t) => t,
        Err(_) => {
            return None;
        },
    };
    let candidate = Order {
        ty,
        blockchain: fields[2].clone(),
        crypto_amount: fields[3].clone(),
        crypto_symbol: fields[4].clone(),
        fiat_amount: fields[5].clone(),
        fiat_price: fields[6].clone(),
        fiat_symbol: fields[7].clone(),
    };
    let created_at = fields[0].clone();
    let rendered = format_store_row(created_at.as_str(), &candidate);
    let owned_line: String = line.to_owned();
    if rendered == owned_line {
        Some((created_at, candidate))
    } else {
        None
    }
}

} // verus!
