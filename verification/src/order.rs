use vstd::prelude::*;
use vstd::string::{StrSliceExecFns, StringExecFns};

verus! {

/// The two kinds of transactional record the upstream source reports:
/// an acquisition ("buy") or a disposal ("sell") of an asset for fiat.
#[derive(Clone, Copy, Debug, PartialEq, Eq, Structural)]
pub enum OrderType {
    Buy,
    Sell,
}

/// Why a raw order failed to become a [`Order`]: its kind token is not in
/// the closed enumeration, or a numeric field is not a finite decimal.
#[derive(Clone, Copy, Debug, PartialEq, Eq, Structural)]
pub enum ParseError {
    UnknownOrderType,
    NonFiniteAmount,
}

/// Whether `s` is one of the two accepted kind tokens.
pub open spec fn is_order_type_token(s: Seq<char>) -> bool {
    s == "buy"@ || s == "sell"@
}

/// The kind a valid token decodes to (meaningful only when
/// [`is_order_type_token`] holds).
pub open spec fn order_type_of(s: Seq<char>) -> OrderType {
    if s == "buy"@ {
        OrderType::Buy
    } else {
        OrderType::Sell
    }
}

/// The token a kind encodes to.
pub open spec fn order_type_token(t: OrderType) -> Seq<char> {
    match t {
        OrderType::Buy => "buy"@,
        OrderType::Sell => "sell"@,
    }
}

/// Decodes a kind token.  Exactly the two tokens `"buy"` and `"sell"` are
/// accepted; every other string is an [`ParseError::UnknownOrderType`].
pub fn parse_order_type(s: &str) -> (r: Result<OrderType, ParseError>)
    ensures
        is_order_type_token(s@) ==> r == Ok::<OrderType, ParseError>(order_type_of(s@)),
        !is_order_type_token(s@) ==> r == Err::<OrderType, ParseError>(ParseError::UnknownOrderType),
{
    let buy: String = "buy".to_owned();
    let sell: String = "sell".to_owned();
    let owned: String = s.to_owned();
    if owned == buy {
        Ok(OrderType::Buy)
    } else if owned == sell {
        Ok(OrderType::Sell)
    } else {
        Err(ParseError::UnknownOrderType)
    }
}

/// Encodes a kind back to its token.
pub fn order_type_str(t: &OrderType) -> (r: &'static str)
    ensures
        r@ == order_type_token(*t),
{
    match t {
        OrderType::Buy => "buy",
        OrderType::Sell => "sell",
    }
}

/// Law: decoding is the inverse of encoding, so the kind of a record
/// survives a round trip through its textual form.
pub proof fn lemma_order_type_round_trip(t: OrderType)
    ensures
        is_order_type_token(order_type_token(t)),
        order_type_of(order_type_token(t)) == t,
{
    reveal_strlit("buy");
    reveal_strlit("sell");
    assert("buy"@.len() == 3 && "sell"@.len() == 4);
}

/// Cap on the number of characters before the decimal point.  A plain
/// decimal with at most this many integer digits always denotes a finite
/// 64-bit floating-point quantity, so the ingestion rule that amounts be
/// finite can be enforced on the text alone.
pub const INT_DIGIT_LIMIT: usize = 308;

/// Whether `c` is one of the ten decimal digits.
pub open spec fn is_dec_digit(c: char) -> bool {
    '0' <= c && c <= '9'
}

/// The decimal with an optional leading sign stripped.
pub open spec fn decimal_body(s: Seq<char>) -> Seq<char> {
    if s.len() > 0 && (s[0] == '+' || s[0] == '-') {
        s.subrange(1, s.len() as int)
    } else {
        s
    }
}

/// The ingestion grammar for a numeric field: an optional sign, then a
/// non-empty run of digits with at most one decimal point, at least one
/// digit, and at most [`INT_DIGIT_LIMIT`] characters before the point.
/// Tokens such as `"NaN"`, `"inf"` and anything non-numeric fall
/// outside the grammar, so every accepted field denotes a finite
/// quantity.  Exponent notation (`"1e5"`), although it can denote a
/// finite quantity, is rejected too: the upstream source formats
/// amounts as plain decimals, and this grammar deliberately tightens
/// the wire contract to that form so that finiteness is decided by the
/// text alone, with no bound on an exponent to reason about.
pub open spec fn is_finite_decimal(s: Seq<char>) -> bool {
    let b = decimal_body(s);
    &&& b.len() > 0
    &&& forall|i: int| 0 <= i < b.len() ==> (is_dec_digit(#[trigger] b[i]) || b[i] == '.')
    &&& forall|i: int, j: int|
        #![trigger b[i], b[j]]
        0 <= i < b.len() && 0 <= j < b.len() && b[i] == '.' && b[j] == '.' ==> i == j
    &&& exists|i: int| 0 <= i < b.len() && is_dec_digit(#[trigger] b[i])
    &&& forall|i: int| #![trigger b[i]] 0 <= i < b.len() && b[i] == '.' ==> i <= INT_DIGIT_LIMIT
    &&& ((forall|i: int| 0 <= i < b.len() ==> #[trigger] b[i] != '.') ==> b.len()
        <= INT_DIGIT_LIMIT)
}

/// Decides the ingestion grammar: returns exactly whether `s` is a finite
/// decimal in the sense of [`is_finite_decimal`].
pub fn check_decimal(s: &str) -> (r: bool)
    ensures
        r == is_finite_decimal(s@),
{
    let n = s.unicode_len();
    if n == 0 {
        return false;
    }
    let first = s.get_char(0);
    let start: usize = if first == '+' || first == '-' {
        1
    } else {
        0
    };
    let ghost b = decimal_body(s@);
    proof {
        assert(b =~= s@.subrange(start as int, n as int));
    }
    if n == start {
        return false;
    }
    let mut i = start;
    let mut seen_digit = false;
    let mut point_at: Option<usize> = None;
    while i < n
        invariant
            start <= i <= n,
            n == s@.len(),
            b == decimal_body(s@),
            b == s@.subrange(start as int, n as int),
            b.len() == n - start,
            forall|k: int| 0 <= k < i - start ==> (is_dec_digit(#[trigger] b[k]) || b[k] == '.'),
            seen_digit == exists|k: int| 0 <= k < i - start && is_dec_digit(#[trigger] b[k]),
            match point_at {
                Option::None => forall|k: int| 0 <= k < i - start ==> #[trigger] b[k] != '.',
                Option::Some(p) => start <= p < i && b[p - start] == '.' && p - start
                    <= INT_DIGIT_LIMIT && forall|k: int|
                    0 <= k < i - start && k != p - start ==> #[trigger] b[k] != '.',
            },
        decreases n - i,
    {
        let c = s.get_char(i);
        assert(b[i - start] == s@[i as int]);
        if c == '.' {
            if point_at.is_some() {
                proof {
                    let p = point_at->Some_0;
                    assert(b[p - start] == '.' && b[i - start] == '.' && p - start != i - start);
                }
                return false;
            }
            if i - start > INT_DIGIT_LIMIT {
                return false;
            }
            point_at = Some(i);
        } else if '0' <= c && c <= '9' {
            seen_digit = true;
        } else {
            assert(!is_dec_digit(b[i - start]) && b[i - start] != '.');
            return false;
        }
        i += 1;
    }
    if !seen_digit {
        return false;
    }
    if point_at.is_none() && n - start > INT_DIGIT_LIMIT {
        return false;
    }
    true
}

/// One observed transactional event, the unit of deduplication and
/// persistence.  The three quantity fields hold the decimal text of the
/// amounts as received; ingestion admits only finite decimals (see
/// [`is_finite_decimal`]).  Identity is the full value of all seven
/// fields.  The upstream source formats a given quantity consistently,
/// so exact comparison of the decimal text is used as the one equality
/// throughout; it replaces the documented pair of a tolerance comparison
/// for equality beside bit-exact hashing for set membership, which could
/// let two equal records land in different set slots.  This resolution
/// is deliberate and should be kept in mind when comparing against the
/// upstream behaviour.
#[derive(Debug)]
pub struct Order {
    pub ty: OrderType,
    pub blockchain: String,
    pub crypto_amount: String,
    pub crypto_symbol: String,
    pub fiat_amount: String,
    pub fiat_price: String,
    pub fiat_symbol: String,
}

/// The mathematical value of an [`Order`]: its kind and the character
/// sequences of its six textual fields.
pub struct OrderView {
    pub ty: OrderType,
    pub blockchain: Seq<char>,
    pub crypto_amount: Seq<char>,
    pub crypto_symbol: Seq<char>,
    pub fiat_amount: Seq<char>,
    pub fiat_price: Seq<char>,
    pub fiat_symbol: Seq<char>,
}

impl View for Order {
    type V = OrderView;

    open spec fn view(&self) -> OrderView {
        OrderView {
            ty: self.ty,
            blockchain: self.blockchain@,
            crypto_amount: self.crypto_amount@,
            crypto_symbol: self.crypto_symbol@,
            fiat_amount: self.fiat_amount@,
            fiat_price: self.fiat_price@,
            fiat_symbol: self.fiat_symbol@,
        }
    }
}

impl Clone for Order {
    /// Cloning yields the same order.
    fn clone(&self) -> (r: Self)
        ensures
            r == *self,
    {
        Order {
            ty: self.ty,
            blockchain: self.blockchain.clone(),
            crypto_amount: self.crypto_amount.clone(),
            crypto_symbol: self.crypto_symbol.clone(),
            fiat_amount: self.fiat_amount.clone(),
            fiat_price: self.fiat_price.clone(),
            fiat_symbol: self.fiat_symbol.clone(),
        }
    }
}

/// Decides equality of two orders: exactly when their mathematical
/// values coincide.
pub fn order_eq(a: &Order, b: &Order) -> (r: bool)
    ensures
        r == (a@ == b@),
{
    let r = a.ty == b.ty && a.blockchain == b.blockchain && a.crypto_amount == b.crypto_amount
        && a.crypto_symbol == b.crypto_symbol && a.fiat_amount == b.fiat_amount && a.fiat_price
        == b.fiat_price && a.fiat_symbol == b.fiat_symbol;
    proof {
        if r {
            assert(a@ == b@);
        }
    }
    r
}

/// The seven textual fields of one order as they arrive on the wire,
/// before any validation.
#[derive(Debug)]
pub struct RawOrder {
    pub ty: String,
    pub blockchain: String,
    pub crypto_amount: String,
    pub crypto_symbol: String,
    pub fiat_amount: String,
    pub fiat_price: String,
    pub fiat_symbol: String,
}

/// The character sequences of a [`RawOrder`].
pub struct RawOrderView {
    pub ty: Seq<char>,
    pub blockchain: Seq<char>,
    pub crypto_amount: Seq<char>,
    pub crypto_symbol: Seq<char>,
    pub fiat_amount: Seq<char>,
    pub fiat_price: Seq<char>,
    pub fiat_symbol: Seq<char>,
}

impl View for RawOrder {
    type V = RawOrderView;

    open spec fn view(&self) -> RawOrderView {
        RawOrderView {
            ty: self.ty@,
            blockchain: self.blockchain@,
            crypto_amount: self.crypto_amount@,
            crypto_symbol: self.crypto_symbol@,
            fiat_amount: self.fiat_amount@,
            fiat_price: self.fiat_price@,
            fiat_symbol: self.fiat_symbol@,
        }
    }
}

/// Whether a raw order is admissible: its kind token decodes and its
/// three quantities are finite decimals.
pub open spec fn raw_order_ok(r: RawOrderView) -> bool {
    &&& is_order_type_token(r.ty)
    &&& is_finite_decimal(r.crypto_amount)
    &&& is_finite_decimal(r.fiat_amount)
    &&& is_finite_decimal(r.fiat_price)
}

/// The error an inadmissible raw order is rejected with: an unknown kind
/// token takes precedence, then a non-finite quantity.
pub open spec fn raw_order_error(r: RawOrderView) -> ParseError {
    if !is_order_type_token(r.ty) {
        ParseError::UnknownOrderType
    } else {
        ParseError::NonFiniteAmount
    }
}

/// The order an admissible raw order parses to.
pub open spec fn parsed_order(r: RawOrderView) -> OrderView {
    OrderView {
        ty: order_type_of(r.ty),
        blockchain: r.blockchain,
        crypto_amount: r.crypto_amount,
        crypto_symbol: r.crypto_symbol,
        fiat_amount: r.fiat_amount,
        fiat_price: r.fiat_price,
        fiat_symbol: r.fiat_symbol,
    }
}

/// Validates and normalizes one raw order.  Succeeds exactly on
/// admissible raw orders and yields exactly the parsed value; fails with
/// exactly the documented error otherwise.
pub fn parse_order(raw: &RawOrder) -> (r: Result<Order, ParseError>)
    ensures
        raw_order_ok(raw@) ==> (r matches Ok(o) && o@ == parsed_order(raw@)),
        !raw_order_ok(raw@) ==> r == Err::<Order, ParseError>(raw_order_error(raw@)),
{
    let ty = match parse_order_type(raw.ty.as_str()) {
        Ok(t) => t,
        Err(e) => {
            return Err(e);
        },
    };
    if !check_decimal(raw.crypto_amount.as_str()) {
        return Err(ParseError::NonFiniteAmount);
    }
    if !check_decimal(raw.fiat_amount.as_str()) {
        return Err(ParseError::NonFiniteAmount);
    }
    if !check_decimal(raw.fiat_price.as_str()) {
        return Err(ParseError::NonFiniteAmount);
    }
    Ok(
        Order {
            ty,
            blockchain: raw.blockchain.clone(),
            crypto_amount: raw.crypto_amount.clone(),
            crypto_symbol: raw.crypto_symbol.clone(),
            fiat_amount: raw.fiat_amount.clone(),
            fiat_price: raw.fiat_price.clone(),
            fiat_symbol: raw.fiat_symbol.clone(),
        },
    )
}

/// The one-line rendering of an order value, as the collector logs it.
pub open spec fn order_description(o: OrderView) -> Seq<char> {
    order_type_token(o.ty) + " "@ + o.crypto_amount + " "@ + o.crypto_symbol + " for "@
        + o.fiat_amount + " "@ + o.fiat_symbol + " at "@ + o.fiat_price + " "@ + o.fiat_symbol
        + " on "@ + o.blockchain
}

impl Order {
    /// Renders the order in one line, exactly as [`order_description`]
    /// lays it out.
    pub fn describe(&self) -> (r: String)
        ensures
            r@ == order_description(self@),
    {
        let mut out = String::new();
        out.append(order_type_str(&self.ty));
        out.append(" ");
        out.append(self.crypto_amount.as_str());
        out.append(" ");
        out.append(self.crypto_symbol.as_str());
        out.append(" for ");
        out.append(self.fiat_amount.as_str());
        out.append(" ");
        out.append(self.fiat_symbol.as_str());
        out.append(" at ");
        out.append(self.fiat_price.as_str());
        out.append(" ");
        out.append(self.fiat_symbol.as_str());
        out.append(" on ");
        out.append(self.blockchain.as_str());
        proof {
            assert(out@ =~= order_description(self@));
        }
        out
    }
}

/// Whether every quantity of an order value is a finite decimal.
pub open spec fn order_amounts_finite(o: OrderView) -> bool {
    &&& is_finite_decimal(o.crypto_amount)
    &&& is_finite_decimal(o.fiat_amount)
    &&& is_finite_decimal(o.fiat_price)
}

/// The views of a sequence of orders, in order.
pub open spec fn order_views(s: Seq<Order>) -> Seq<OrderView> {
    s.map_values(|o: Order| o@)
}

/// The set of order values occurring in a sequence of orders.
pub open spec fn order_value_set(s: Seq<Order>) -> Set<OrderView> {
    order_views(s).to_set()
}

/// Decides membership of an order's value in a vector of orders.
pub fn vec_contains_order(v: &Vec<Order>, o: &Order) -> (r: bool)
    ensures
        r == order_views(v@).contains(o@),
{
    let mut i: usize = 0;
    while i < v.len()
        invariant
            i <= v@.len(),
            forall|k: int| 0 <= k < i ==> #[trigger] order_views(v@)[k] != o@,
        decreases v@.len() - i,
    {
        if order_eq(&v[i], o) {
            proof {
                assert(order_views(v@)[i as int] == o@);
            }
            return true;
        }
        i += 1;
    }
    false
}

/// Collapses duplicate order values, keeping the first occurrence of
/// each: the result holds each value of the input exactly once.
pub fn dedup_orders(v: &Vec<Order>) -> (r: Vec<Order>)
    ensures
        order_views(r@).no_duplicates(),
        forall|o: OrderView| #![trigger order_views(r@).contains(o)] #![trigger order_views(v@).contains(o)]
            order_views(r@).contains(o) == order_views(v@).contains(o),
{
    let mut r: Vec<Order> = Vec::new();
    let mut i: usize = 0;
    while i < v.len()
        invariant
            i <= v@.len(),
            order_views(r@).no_duplicates(),
            forall|k: int| 0 <= k < i ==> order_views(r@).contains(#[trigger] order_views(v@)[k]),
            forall|o: OrderView| #[trigger] order_views(r@).contains(o) ==> order_views(
                v@,
            ).contains(o),
        decreases v@.len() - i,
    {
        if !vec_contains_order(&r, &v[i]) {
            let ghost prev = r@;
            r.push(v[i].clone());
            proof {
                assert(order_views(r@) =~= order_views(prev).push(v@[i as int]@));
                assert forall|o: OrderView| #[trigger]
                    order_views(r@).contains(o) implies order_views(v@).contains(o) by {
                    if o == v@[i as int]@ {
                        assert(order_views(v@)[i as int] == o);
                    } else {
                        assert(order_views(prev).contains(o));
                    }
                }
                assert forall|k: int| 0 <= k < i implies order_views(r@).contains(
                    #[trigger] order_views(v@)[k],
                ) by {
                    assert(order_views(prev).contains(order_views(v@)[k]));
                    let j = choose|j: int|
                        0 <= j < order_views(prev).len() && order_views(prev)[j] == order_views(
                            v@,
                        )[k];
                    assert(order_views(r@)[j] == order_views(v@)[k]);
                }
                assert(order_views(r@)[order_views(prev).len() as int] == v@[i as int]@);
            }
        } else {
            proof {
                assert(order_views(v@)[i as int] == v@[i as int]@);
            }
        }
        i += 1;
    }
    r
}

} // verus!
