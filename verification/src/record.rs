use vstd::prelude::*;
use crate::book::{DepthDiff, PriceLevel, Side};
use crate::entropy::{lemma_alnum_plain, random_alnum_string, random_u128};
use crate::text::{dec_of, dec_of_int, fmt_i64, fmt_u128, is_plain, plain_text, push_str};

verus! {

/// The publishable unit: one normalized order event, immutable once
/// constructed, with no identity beyond its serialized payload.
#[derive(Clone, Debug)]
pub struct BookOrder {
    pub is_buy: bool,
    pub reduce_only: bool,
    /// quantity of asset to be traded
    pub quantity: u128,
    /// price at which trade is to be made
    pub price: u128,
    /// time of the order
    pub timestamp: i64,
    /// stop order price
    pub trigger_price: u128,
    /// leverage (in whole numbers) for trade
    pub leverage: u128,
    /// time after which order becomes invalid
    pub expiration: u128,
    /// order hash
    pub hash: String,
    /// random number
    pub salt: u128,
    /// address of order maker
    pub maker: String,
    /// encoded order flags
    pub flags: String,
}

/// The synthesized identity of one record: these fields give each
/// published record a unique identity and are not derived from
/// exchange data.
pub struct OrderIdentity {
    pub hash: String,
    pub salt: u128,
    pub maker: String,
    pub flags: String,
}

impl OrderIdentity {
    /// All three identity strings can stand inside a JSON string
    /// literal as they are.
    pub open spec fn plain(self) -> bool {
        plain_text(self.hash@) && plain_text(self.maker@) && plain_text(self.flags@)
    }
}

/// Relies on chrono's `Utc::now` and `DateTime::timestamp`: seconds
/// since the epoch at the moment of the call; nothing can be promised
/// of a clock reading.
#[verifier::external_body]
pub(crate) fn now_timestamp() -> (r: i64) {
    chrono::Utc::now().timestamp()
}

/// A fresh record identity: a 40-character hash, a random salt, and
/// 10-character maker and flags strings, all ASCII letters and digits.
pub fn fresh_identity() -> (identity: OrderIdentity)
    ensures
        identity.plain(),
        identity.hash@.len() == 40,
        identity.maker@.len() == 10,
        identity.flags@.len() == 10,
{
    let hash = random_alnum_string(40);
    let maker = random_alnum_string(10);
    let flags = random_alnum_string(10);
    proof {
        lemma_alnum_plain(hash@);
        lemma_alnum_plain(maker@);
        lemma_alnum_plain(flags@);
    }
    OrderIdentity { hash, salt: random_u128(), maker, flags }
}

/// Translate one book level into a normalized record. Deterministic
/// given its arguments: the buy flag comes from the side the level
/// belongs to, quantity and price are carried over unchanged (a zero
/// quantity marks a removal event), and the identity fields are taken
/// as handed in. It has no failure mode.
pub fn translate(level: PriceLevel, side: Side, timestamp: i64, identity: OrderIdentity) -> (record:
    BookOrder)
    ensures
        record.is_buy == (side == Side::Bid),
        record.reduce_only == false,
        record.quantity == level.quantity as u128,
        record.price == level.price as u128,
        record.timestamp == timestamp,
        record.trigger_price == 0,
        record.leverage == 1,
        record.expiration == 0,
        record.hash@ == identity.hash@,
        record.salt == identity.salt,
        record.maker@ == identity.maker@,
        record.flags@ == identity.flags@,
{
    BookOrder {
        is_buy: match side {
            Side::Bid => true,
            Side::Ask => false,
        },
        reduce_only: false,
        quantity: level.quantity as u128,
        price: level.price as u128,
        timestamp,
        trigger_price: 0,
        leverage: 1,
        expiration: 0,
        hash: identity.hash,
        salt: identity.salt,
        maker: identity.maker,
        flags: identity.flags,
    }
}

/// Translate one level at the wall clock with a fresh random identity.
pub fn translate_now(level: PriceLevel, side: Side) -> (record: BookOrder)
    ensures
        record.is_buy == (side == Side::Bid),
        record.reduce_only == false,
        record.quantity == level.quantity as u128,
        record.price == level.price as u128,
        record.trigger_price == 0,
        record.leverage == 1,
        record.expiration == 0,
        plain_text(record.hash@),
        plain_text(record.maker@),
        plain_text(record.flags@),
{
    let identity = fresh_identity();
    let timestamp = now_timestamp();
    translate(level, side, timestamp, identity)
}

/// The deterministic face of a translated record: what `translate`
/// pins down for one level on one side, whatever clock reading and
/// identity it was given.
pub open spec fn record_for_level(record: BookOrder, level: PriceLevel, side: Side) -> bool {
    &&& record.is_buy == (side == Side::Bid)
    &&& record.reduce_only == false
    &&& record.quantity == level.quantity as u128
    &&& record.price == level.price as u128
    &&& record.trigger_price == 0
    &&& record.leverage == 1
    &&& record.expiration == 0
    &&& plain_text(record.hash@)
    &&& plain_text(record.maker@)
    &&& plain_text(record.flags@)
}

/// One record per changed level of a diff: first every bid level in
/// order, then every ask level in order.
pub open spec fn records_match(records: Seq<BookOrder>, diff: DepthDiff) -> bool {
    &&& records.len() == diff.bids@.len() + diff.asks@.len()
    &&& forall|i: int|
        0 <= i < diff.bids@.len() ==> record_for_level(
            #[trigger] records[i],
            diff.bids@[i],
            Side::Bid,
        )
    &&& forall|j: int|
        0 <= j < diff.asks@.len() ==> record_for_level(
            records[diff.bids@.len() + j],
            #[trigger] diff.asks@[j],
            Side::Ask,
        )
}

/// Translate every changed level of an applied diff into records for
/// publishing: the publish volume is proportional to the churn the
/// diff describes, never to the size of the whole book.
pub fn translate_changed(diff: &DepthDiff) -> (records: Vec<BookOrder>)
    ensures
        records_match(records@, *diff),
{
    let mut records = Vec::new();
    let bid_count = diff.bids.len();
    for i in 0..bid_count
        invariant
            bid_count == diff.bids@.len(),
            records@.len() == i as nat,
            forall|k: int|
                0 <= k < i ==> record_for_level(#[trigger] records@[k], diff.bids@[k], Side::Bid),
    {
        let record = translate_now(diff.bids[i], Side::Bid);
        records.push(record);
    }
    let ask_count = diff.asks.len();
    for j in 0..ask_count
        invariant
            ask_count == diff.asks@.len(),
            records@.len() == diff.bids@.len() + j,
            forall|k: int|
                0 <= k < diff.bids@.len() ==> record_for_level(
                    #[trigger] records@[k],
                    diff.bids@[k],
                    Side::Bid,
                ),
            forall|k: int|
                0 <= k < j ==> record_for_level(
                    records@[diff.bids@.len() + k],
                    #[trigger] diff.asks@[k],
                    Side::Ask,
                ),
    {
        let record = translate_now(diff.asks[j], Side::Ask);
        records.push(record);
    }
    records
}

/// The rendering of a boolean as a JSON literal.
pub open spec fn bool_json(b: bool) -> Seq<char> {
    if b {
        "true"@
    } else {
        "false"@
    }
}

/// The bus payload of one record: a JSON object with a stable field
/// order and stable types; every numeric field is a literal JSON
/// number except `hash`, `maker` and `flags`, which are strings.
pub open spec fn json_of_book_order(o: BookOrder) -> Seq<char> {
    "{\"is_buy\":"@ + bool_json(o.is_buy) + ",\"reduce_only\":"@ + bool_json(o.reduce_only)
        + ",\"quantity\":"@ + dec_of(o.quantity as nat) + ",\"price\":"@ + dec_of(o.price as nat)
        + ",\"timestamp\":"@ + dec_of_int(o.timestamp as int) + ",\"trigger_price\":"@ + dec_of(
        o.trigger_price as nat,
    ) + ",\"leverage\":"@ + dec_of(o.leverage as nat) + ",\"expiration\":"@ + dec_of(
        o.expiration as nat,
    ) + ",\"hash\":\""@ + o.hash@ + "\",\"salt\":"@ + dec_of(o.salt as nat) + ",\"maker\":\""@
        + o.maker@ + "\",\"flags\":\""@ + o.flags@ + "\"}"@
}

/// Serialize one record to its bus payload. It succeeds exactly when
/// the three identity strings can stand inside a JSON string literal
/// unescaped, and then returns exactly the payload `json_of_book_order`
/// describes.
pub fn serialize_book_order(order: &BookOrder) -> (result: Option<String>)
    ensures
        match result {
            Some(payload) => {
                &&& plain_text(order.hash@)
                &&& plain_text(order.maker@)
                &&& plain_text(order.flags@)
                &&& payload@ == json_of_book_order(*order)
            },
            None => !(plain_text(order.hash@) && plain_text(order.maker@) && plain_text(
                order.flags@,
            )),
        },
{
    if !is_plain(order.hash.as_str()) {
        return None;
    }
    if !is_plain(order.maker.as_str()) {
        return None;
    }
    if !is_plain(order.flags.as_str()) {
        return None;
    }
    let mut s = String::new();
    push_str(&mut s, "{\"is_buy\":");
    push_str(&mut s, if order.is_buy { "true" } else { "false" });
    push_str(&mut s, ",\"reduce_only\":");
    push_str(&mut s, if order.reduce_only { "true" } else { "false" });
    push_str(&mut s, ",\"quantity\":");
    let quantity = fmt_u128(order.quantity);
    push_str(&mut s, quantity.as_str());
    push_str(&mut s, ",\"price\":");
    let price = fmt_u128(order.price);
    push_str(&mut s, price.as_str());
    push_str(&mut s, ",\"timestamp\":");
    let timestamp = fmt_i64(order.timestamp);
    push_str(&mut s, timestamp.as_str());
    push_str(&mut s, ",\"trigger_price\":");
    let trigger_price = fmt_u128(order.trigger_price);
    push_str(&mut s, trigger_price.as_str());
    push_str(&mut s, ",\"leverage\":");
    let leverage = fmt_u128(order.leverage);
    push_str(&mut s, leverage.as_str());
    push_str(&mut s, ",\"expiration\":");
    let expiration = fmt_u128(order.expiration);
    push_str(&mut s, expiration.as_str());
    push_str(&mut s, ",\"hash\":\"");
    push_str(&mut s, order.hash.as_str());
    push_str(&mut s, "\",\"salt\":");
    let salt = fmt_u128(order.salt);
    push_str(&mut s, salt.as_str());
    push_str(&mut s, ",\"maker\":\"");
    push_str(&mut s, order.maker.as_str());
    push_str(&mut s, "\",\"flags\":\"");
    push_str(&mut s, order.flags.as_str());
    push_str(&mut s, "\"}");
    proof {
        assert(s@ =~= json_of_book_order(*order));
    }
    Some(s)
}

} // verus!
