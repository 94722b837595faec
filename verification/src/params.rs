//! Query parameters: one pair is added to the query with every call.

use crate::constants::{
    END_AT, EQUAL_TO, EXPORT, FORMAT, LIMIT_TO_FIRST, LIMIT_TO_LAST, ORDER_BY, SHALLOW, START_AT,
};
use crate::location::{check_room, has_room, url_query_pairs, url_with_pair};
use crate::text::{
    boolean, boolean_text, byte_len, byte_length, decimal, decimal_of, decimal_text,
    signed_decimal, signed_text,
};
use vstd::prelude::*;
use vstd::string::StringExecFns;

verus! {

/// A value that can stand in a query: integers in decimal, negative ones with
/// a minus sign, booleans as `true` and `false`, strings as they are.
pub trait ParamValue {
    /// The text that stands for the value.
    spec fn param_text(&self) -> Seq<char>;

    /// Writes the value as [`ParamValue::param_text`] says.
    fn to_param(&self) -> (res: String)
        ensures
            res@ == self.param_text(),
    ;
}

impl ParamValue for u32 {
    open spec fn param_text(&self) -> Seq<char> {
        decimal(*self as nat)
    }

    fn to_param(&self) -> (res: String) {
        decimal_text(*self)
    }
}

impl ParamValue for u8 {
    open spec fn param_text(&self) -> Seq<char> {
        decimal(*self as nat)
    }

    fn to_param(&self) -> (res: String) {
        decimal_of(*self as u128)
    }
}

impl ParamValue for u16 {
    open spec fn param_text(&self) -> Seq<char> {
        decimal(*self as nat)
    }

    fn to_param(&self) -> (res: String) {
        decimal_of(*self as u128)
    }
}

impl ParamValue for u64 {
    open spec fn param_text(&self) -> Seq<char> {
        decimal(*self as nat)
    }

    fn to_param(&self) -> (res: String) {
        decimal_of(*self as u128)
    }
}

impl ParamValue for u128 {
    open spec fn param_text(&self) -> Seq<char> {
        decimal(*self as nat)
    }

    fn to_param(&self) -> (res: String) {
        decimal_of(*self as u128)
    }
}

impl ParamValue for usize {
    open spec fn param_text(&self) -> Seq<char> {
        decimal(*self as nat)
    }

    fn to_param(&self) -> (res: String) {
        decimal_of(*self as u128)
    }
}

impl ParamValue for i8 {
    open spec fn param_text(&self) -> Seq<char> {
        signed_decimal(*self as int)
    }

    fn to_param(&self) -> (res: String) {
        signed_text(*self as i128)
    }
}

impl ParamValue for i16 {
    open spec fn param_text(&self) -> Seq<char> {
        signed_decimal(*self as int)
    }

    fn to_param(&self) -> (res: String) {
        signed_text(*self as i128)
    }
}

impl ParamValue for i32 {
    open spec fn param_text(&self) -> Seq<char> {
        signed_decimal(*self as int)
    }

    fn to_param(&self) -> (res: String) {
        signed_text(*self as i128)
    }
}

impl ParamValue for i64 {
    open spec fn param_text(&self) -> Seq<char> {
        signed_decimal(*self as int)
    }

    fn to_param(&self) -> (res: String) {
        signed_text(*self as i128)
    }
}

impl ParamValue for i128 {
    open spec fn param_text(&self) -> Seq<char> {
        signed_decimal(*self as int)
    }

    fn to_param(&self) -> (res: String) {
        signed_text(*self as i128)
    }
}

impl ParamValue for isize {
    open spec fn param_text(&self) -> Seq<char> {
        signed_decimal(*self as int)
    }

    fn to_param(&self) -> (res: String) {
        signed_text(*self as i128)
    }
}

impl ParamValue for bool {
    open spec fn param_text(&self) -> Seq<char> {
        boolean(*self)
    }

    fn to_param(&self) -> (res: String) {
        boolean_text(*self)
    }
}

impl<'a> ParamValue for &'a str {
    open spec fn param_text(&self) -> Seq<char> {
        self@
    }

    fn to_param(&self) -> (res: String) {
        String::from_str(*self)
    }
}

impl ParamValue for String {
    open spec fn param_text(&self) -> Seq<char> {
        self@
    }

    fn to_param(&self) -> (res: String) {
        self.clone()
    }
}

/// A URL of `location` has room for one more pair of `key` and `value`.
pub open spec fn can_add(location: Seq<char>, key: Seq<char>, value: Seq<char>) -> bool {
    has_room(byte_len(location), byte_len(key) + byte_len(value))
}

/// A trait for adding parameters to a URL.
pub trait Paramable: Sized {
    /// The URL, serialized.
    spec fn location(&self) -> Seq<char>;

    /// Length of the URL in bytes.
    fn location_len(&self) -> (res: usize)
        ensures
            res == byte_len(self.location()),
    ;

    /// Adds a parameter to the URL: exactly one pair, behind those that the
    /// query already has, with the value in its text form.
    fn add_param<T: ParamValue>(&self, key: &str, value: T) -> (res: Self)
        requires
            can_add(self.location(), key@, value.param_text()),
        ensures
            res.location() == url_with_pair(self.location(), key@, value.param_text()),
            url_query_pairs(res.location()) == url_query_pairs(self.location()).push(
                (key@, value.param_text()),
            ),
    ;

    /// Adds a parameter where the URL has room for it; `None` where it has
    /// not.
    fn try_add_param<T: ParamValue>(&self, key: &str, value: T) -> (res: Option<Self>)
        ensures
            res is Some <==> can_add(self.location(), key@, value.param_text()),
            res matches Some(next) ==> {
                &&& next.location() == url_with_pair(self.location(), key@, value.param_text())
                &&& url_query_pairs(next.location()) == url_query_pairs(self.location()).push(
                    (key@, value.param_text()),
                )
            },
    {
        let text = value.to_param();
        let key_len = byte_length(key);
        let text_len = byte_length(text.as_str());
        if key_len <= usize::MAX - text_len && check_room(self.location_len(), key_len + text_len) {
            Some(self.add_param(key, text))
        } else {
            None
        }
    }

    /// Sets the order of results by the given key.
    fn order_by(&self, key: &str) -> (res: Self)
        requires
            can_add(self.location(), ORDER_BY@, key@),
        ensures
            res.location() == url_with_pair(self.location(), ORDER_BY@, key@),
            url_query_pairs(res.location()) == url_query_pairs(self.location()).push(
                (ORDER_BY@, key@),
            ),
    {
        self.add_param(ORDER_BY, key)
    }

    /// Limits the results to the first `count` items.
    fn limit_to_first(&self, count: u32) -> (res: Self)
        requires
            can_add(self.location(), LIMIT_TO_FIRST@, decimal(count as nat)),
        ensures
            res.location() == url_with_pair(
                self.location(),
                LIMIT_TO_FIRST@,
                decimal(count as nat),
            ),
            url_query_pairs(res.location()) == url_query_pairs(self.location()).push(
                (LIMIT_TO_FIRST@, decimal(count as nat)),
            ),
    {
        self.add_param(LIMIT_TO_FIRST, count)
    }

    /// Limits the results to the last `count` items.
    fn limit_to_last(&self, count: u32) -> (res: Self)
        requires
            can_add(self.location(), LIMIT_TO_LAST@, decimal(count as nat)),
        ensures
            res.location() == url_with_pair(
                self.location(),
                LIMIT_TO_LAST@,
                decimal(count as nat),
            ),
            url_query_pairs(res.location()) == url_query_pairs(self.location()).push(
                (LIMIT_TO_LAST@, decimal(count as nat)),
            ),
    {
        self.add_param(LIMIT_TO_LAST, count)
    }

    /// Starts the results at the item with the given index.
    fn start_at(&self, index: u32) -> (res: Self)
        requires
            can_add(self.location(), START_AT@, decimal(index as nat)),
        ensures
            res.location() == url_with_pair(self.location(), START_AT@, decimal(index as nat)),
            url_query_pairs(res.location()) == url_query_pairs(self.location()).push(
                (START_AT@, decimal(index as nat)),
            ),
    {
        self.add_param(START_AT, index)
    }

    /// Ends the results at the item with the given index.
    fn end_at(&self, index: u32) -> (res: Self)
        requires
            can_add(self.location(), END_AT@, decimal(index as nat)),
        ensures
            res.location() == url_with_pair(self.location(), END_AT@, decimal(index as nat)),
            url_query_pairs(res.location()) == url_query_pairs(self.location()).push(
                (END_AT@, decimal(index as nat)),
            ),
    {
        self.add_param(END_AT, index)
    }

    /// Limits the results to items equal to the given value.
    fn equal_to(&self, value: u32) -> (res: Self)
        requires
            can_add(self.location(), EQUAL_TO@, decimal(value as nat)),
        ensures
            res.location() == url_with_pair(self.location(), EQUAL_TO@, decimal(value as nat)),
            url_query_pairs(res.location()) == url_query_pairs(self.location()).push(
                (EQUAL_TO@, decimal(value as nat)),
            ),
    {
        self.add_param(EQUAL_TO, value)
    }

    /// Sets whether to include shallow items.
    fn shallow(&self, flag: bool) -> (res: Self)
        requires
            can_add(self.location(), SHALLOW@, boolean(flag)),
        ensures
            res.location() == url_with_pair(self.location(), SHALLOW@, boolean(flag)),
            url_query_pairs(res.location()) == url_query_pairs(self.location()).push(
                (SHALLOW@, boolean(flag)),
            ),
    {
        self.add_param(SHALLOW, flag)
    }

    /// Sets the format of the returned data; the only format is `export`.
    fn format(&self) -> (res: Self)
        requires
            can_add(self.location(), FORMAT@, EXPORT@),
        ensures
            res.location() == url_with_pair(self.location(), FORMAT@, EXPORT@),
            url_query_pairs(res.location()) == url_query_pairs(self.location()).push(
                (FORMAT@, EXPORT@),
            ),
    {
        self.add_param(FORMAT, EXPORT)
    }
}

/// Parameters accumulate: where `first` is what adding `(key, a)` gives at
/// `start`, and `second` what adding `(key, b)` gives at `first`, the query
/// of `second` is that of `start` followed by both pairs, in the order in
/// which they were added. The same key twice gives two pairs.
pub proof fn lemma_params_accumulate(
    start: Seq<char>,
    first: Seq<char>,
    second: Seq<char>,
    key: Seq<char>,
    a: Seq<char>,
    b: Seq<char>,
)
    requires
        url_query_pairs(first) == url_query_pairs(start).push((key, a)),
        url_query_pairs(second) == url_query_pairs(first).push((key, b)),
    ensures
        url_query_pairs(second) == url_query_pairs(start) + seq![(key, a), (key, b)],
        url_query_pairs(second).len() == url_query_pairs(start).len() + 2,
        url_query_pairs(second)[url_query_pairs(start).len() as int] == (key, a),
        url_query_pairs(second)[url_query_pairs(start).len() as int + 1] == (key, b),
{
    assert(url_query_pairs(start).push((key, a)).push((key, b)) =~= url_query_pairs(start)
        + seq![(key, a), (key, b)]);
}

} // verus!
