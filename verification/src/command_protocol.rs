//! JSON command protocol: the standard command and response structures that
//! all nodes exchange, with their parameters held as JSON-like values.
use vstd::prelude::*;
use vstd::string::*;
use crate::text::{append_decimal, decimal};
use crate::keyed::{entries_map, unique_keys, lemma_entries_dom, lemma_entries_value, lemma_entries_update, lemma_entries_push, lemma_entries_len, find_key};

pub mod commands;

verus! {

/// A JSON value as the command protocol carries it.
///
/// Numbers keep the three forms a JSON number can take: a non-negative
/// integer, a negative integer, or a float. A float is held as its IEEE-754
/// bit pattern together with the text that `Display` renders for it.
#[derive(Debug, PartialEq)]
pub enum JsonValue {
    Null,
    Bool(bool),
    UInt(u64),
    NegInt(i64),
    Float { bits: u64, display: String },
    Str(String),
    Array(Vec<JsonValue>),
    Object(Vec<(String, JsonValue)>),
}

/// Sign bit of an IEEE-754 double.
pub open spec fn f64_sign_mask() -> u64 {
    0x8000_0000_0000_0000u64
}

/// Whether the bits encode a NaN.
pub open spec fn f64_bits_is_nan(bits: u64) -> bool {
    (bits & 0x7ff0_0000_0000_0000u64) == 0x7ff0_0000_0000_0000u64 && (bits
        & 0x000f_ffff_ffff_ffffu64) != 0
}

/// Whether the (non-NaN) double that the bits encode is below 0.0: its sign
/// is set and it is not -0.0.
pub open spec fn f64_bits_below_zero(bits: u64) -> bool {
    !f64_bits_is_nan(bits) && (bits & f64_sign_mask()) != 0 && (bits & 0x7fff_ffff_ffff_ffffu64)
        != 0
}

/// Whether the (non-NaN) double that the bits encode is above `limit_bits`,
/// itself a non-negative finite double: for non-negative doubles the order
/// of the values is the order of the bit patterns.
pub open spec fn f64_bits_above(bits: u64, limit_bits: u64) -> bool {
    !f64_bits_is_nan(bits) && (bits & f64_sign_mask()) == 0 && bits > limit_bits
}

/// Bits of 2.0.
pub open spec fn f64_two_bits() -> u64 {
    0x4000_0000_0000_0000u64
}

/// Bits of 1.0.
pub open spec fn f64_one_bits() -> u64 {
    0x3ff0_0000_0000_0000u64
}

/// Whether a JSON number, read as an `f64`, lies outside `[0.0, limit]`
/// (`None` for a value that is not a number).
pub open spec fn number_outside_unit_range(v: JsonValue, limit: u64, limit_bits: u64) -> Option<
    bool,
> {
    match v {
        JsonValue::UInt(u) => Some(u > limit),
        JsonValue::NegInt(i) => Some(i < 0 || i > limit),
        JsonValue::Float { bits, .. } => Some(
            f64_bits_below_zero(bits) || f64_bits_above(bits, limit_bits),
        ),
        _ => None,
    }
}

impl JsonValue {
    /// The integer, when the value is a non-negative integer (`as_u64`).
    pub open spec fn spec_as_u64(&self) -> Option<u64> {
        match self {
            JsonValue::UInt(u) => Some(*u),
            _ => None,
        }
    }

    /// The string, when the value is a string (`as_str`), as characters.
    pub open spec fn spec_as_str(&self) -> Option<Seq<char>> {
        match self {
            JsonValue::Str(s) => Some(s@),
            _ => None,
        }
    }

    /// The boolean, when the value is a boolean (`as_bool`).
    pub open spec fn spec_as_bool(&self) -> Option<bool> {
        match self {
            JsonValue::Bool(b) => Some(*b),
            _ => None,
        }
    }

    /// Whether the value is a number (`as_f64` gives `Some`).
    pub open spec fn spec_is_number(&self) -> bool {
        match self {
            JsonValue::UInt(_) | JsonValue::NegInt(_) | JsonValue::Float { .. } => true,
            _ => false,
        }
    }

    pub fn as_u64(&self) -> (r: Option<u64>)
        ensures
            r == self.spec_as_u64(),
    {
        match self {
            JsonValue::UInt(u) => Some(*u),
            _ => None,
        }
    }

    pub fn as_str(&self) -> (r: Option<&str>)
        ensures
            r is Some <==> self.spec_as_str() is Some,
            r is Some ==> r->0@ == self.spec_as_str()->0,
    {
        match self {
            JsonValue::Str(s) => Some(s.as_str()),
            _ => None,
        }
    }

    pub fn as_bool(&self) -> (r: Option<bool>)
        ensures
            r == self.spec_as_bool(),
    {
        match self {
            JsonValue::Bool(b) => Some(*b),
            _ => None,
        }
    }

    pub fn is_number(&self) -> (r: bool)
        ensures
            r == self.spec_is_number(),
    {
        match self {
            JsonValue::UInt(_) | JsonValue::NegInt(_) | JsonValue::Float { .. } => true,
            _ => false,
        }
    }

    /// A copy of the value.
    pub fn duplicate(&self) -> (r: JsonValue)
        ensures
            json_same(r, *self),
        decreases self,
    {
        match self {
            JsonValue::Null => JsonValue::Null,
            JsonValue::Bool(b) => JsonValue::Bool(*b),
            JsonValue::UInt(u) => JsonValue::UInt(*u),
            JsonValue::NegInt(i) => JsonValue::NegInt(*i),
            JsonValue::Float { bits, display } => JsonValue::Float {
                bits: *bits,
                display: display.clone(),
            },
            JsonValue::Str(s) => JsonValue::Str(s.clone()),
            JsonValue::Array(items) => {
                let mut out: Vec<JsonValue> = Vec::new();
                let mut i: usize = 0;
                assert(items_same(out@, items@.subrange(0, 0)));
                while i < items.len()
                    invariant
                        i <= items.len(),
                        out@.len() == i,
                        items_same(out@, items@.subrange(0, i as int)),
                        *self == JsonValue::Array(*items),
                    decreases items.len() - i,
                {
                    proof {
                        broadcast use vstd::std_specs::vec::axiom_vec_decreases_to_view;
                        assert(decreases_to!(*self => self->Array_0));
                        assert(decreases_to!(*items => items@));
                        assert(decreases_to!(items@ => items@[i as int]));
                        assert(decreases_to!(*self => items@[i as int]));
                    }
                    let v = items[i].duplicate();
                    proof {
                        lemma_items_same_push(out@, items@.subrange(0, i as int), v, items@[i as int]);
                        assert(items@.subrange(0, i as int).push(items@[i as int]) =~= items@.subrange(
                            0,
                            i + 1,
                        ));
                    }
                    out.push(v);
                    i = i + 1;
                }
                assert(items@.subrange(0, items@.len() as int) =~= items@);
                JsonValue::Array(out)
            },
            JsonValue::Object(m) => {
                let mut out: Vec<(String, JsonValue)> = Vec::new();
                let mut i: usize = 0;
                while i < m.len()
                    invariant
                        i <= m.len(),
                        out@.len() == i,
                        entries_same(out@, m@.subrange(0, i as int)),
                        *self == JsonValue::Object(*m),
                    decreases m.len() - i,
                {
                    proof {
                        broadcast use vstd::std_specs::vec::axiom_vec_decreases_to_view;
                        assert(decreases_to!(*self => self->Object_0));
                        assert(decreases_to!(*m => m@));
                        assert(decreases_to!(m@ => m@[i as int]));
                        assert(decreases_to!(m@[i as int] => m@[i as int].1));
                        assert(decreases_to!(*self => m@[i as int].1));
                    }
                    let v = m[i].1.duplicate();
                    let k = m[i].0.clone();
                    proof {
                        lemma_entries_same_push(out@, m@.subrange(0, i as int), (k, v), m@[i as int]);
                        assert(m@.subrange(0, i as int).push(m@[i as int]) =~= m@.subrange(0, i + 1));
                    }
                    out.push((k, v));
                    i = i + 1;
                }
                assert(m@.subrange(0, m@.len() as int) =~= m@);
                JsonValue::Object(out)
            },
        }
    }
}

impl Clone for JsonValue {
    fn clone(&self) -> (r: JsonValue)
        ensures
            json_same(r, *self),
    {
        self.duplicate()
    }
}

impl Clone for Params {
    fn clone(&self) -> (r: Params)
        ensures
            params_same(r, *self),
    {
        self.duplicate()
    }
}

/// Two JSON values are the same: same variant, same scalars, same texts,
/// and, for arrays and objects, the same elements and entries in order.
pub closed spec fn json_same(a: JsonValue, b: JsonValue) -> bool
    decreases a, 1nat,
{
    match a {
        JsonValue::Null => b is Null,
        JsonValue::Bool(x) => b == JsonValue::Bool(x),
        JsonValue::UInt(x) => b == JsonValue::UInt(x),
        JsonValue::NegInt(x) => b == JsonValue::NegInt(x),
        JsonValue::Float { bits, display } => match b {
            JsonValue::Float { bits: bits2, display: display2 } => bits == bits2 && display@
                == display2@,
            _ => false,
        },
        JsonValue::Str(s) => match b {
            JsonValue::Str(t) => s@ == t@,
            _ => false,
        },
        JsonValue::Array(x) => match b {
            JsonValue::Array(y) => {
                proof {
                    broadcast use vstd::std_specs::vec::axiom_vec_decreases_to_view;
                }
                items_same(x@, y@)
            },
            _ => false,
        },
        JsonValue::Object(m) => match b {
            JsonValue::Object(n) => {
                proof {
                    broadcast use vstd::std_specs::vec::axiom_vec_decreases_to_view;
                }
                entries_same(m@, n@)
            },
            _ => false,
        },
    }
}

/// Element-wise sameness of two sequences of values.
pub closed spec fn items_same(x: Seq<JsonValue>, y: Seq<JsonValue>) -> bool
    decreases x, 0nat,
{
    if x.len() != y.len() {
        false
    } else if x.len() == 0 {
        true
    } else {
        json_same(x.last(), y.last()) && items_same(x.drop_last(), y.drop_last())
    }
}

/// Entry-wise sameness of two sequences of object entries.
pub closed spec fn entries_same(x: Seq<(String, JsonValue)>, y: Seq<(String, JsonValue)>) -> bool
    decreases x, 0nat,
{
    if x.len() != y.len() {
        false
    } else if x.len() == 0 {
        true
    } else {
        x.last().0@ == y.last().0@ && json_same(x.last().1, y.last().1) && entries_same(
            x.drop_last(),
            y.drop_last(),
        )
    }
}

proof fn lemma_items_same_push(x: Seq<JsonValue>, y: Seq<JsonValue>, a: JsonValue, b: JsonValue)
    requires
        items_same(x, y),
        json_same(a, b),
    ensures
        items_same(x.push(a), y.push(b)),
{
    assert(x.push(a).drop_last() =~= x);
    assert(y.push(b).drop_last() =~= y);
}

proof fn lemma_entries_same_push(
    x: Seq<(String, JsonValue)>,
    y: Seq<(String, JsonValue)>,
    a: (String, JsonValue),
    b: (String, JsonValue),
)
    requires
        entries_same(x, y),
        a.0@ == b.0@,
        json_same(a.1, b.1),
    ensures
        entries_same(x.push(a), y.push(b)),
{
    assert(x.push(a).drop_last() =~= x);
    assert(y.push(b).drop_last() =~= y);
}

proof fn lemma_items_same_index(x: Seq<JsonValue>, y: Seq<JsonValue>)
    ensures
        items_same(x, y) <==> (x.len() == y.len() && forall|i: int| 0 <= i < x.len() ==> json_same(#[trigger] x[i], y[i])),
    decreases x.len(),
{
    if x.len() == y.len() && x.len() > 0 {
        lemma_items_same_index(x.drop_last(), y.drop_last());
        if forall|i: int| 0 <= i < x.len() ==> json_same(#[trigger] x[i], y[i]) {
            assert forall|i: int| 0 <= i < x.drop_last().len() implies json_same(
                #[trigger] x.drop_last()[i],
                y.drop_last()[i],
            ) by {
                assert(x.drop_last()[i] == x[i]);
                assert(y.drop_last()[i] == y[i]);
            }
        }
        if items_same(x, y) {
            assert forall|i: int| 0 <= i < x.len() implies json_same(#[trigger] x[i], y[i]) by {
                if i < x.len() - 1 {
                    assert(x.drop_last()[i] == x[i]);
                    assert(y.drop_last()[i] == y[i]);
                }
            }
        }
    }
}

proof fn lemma_entries_same_index(x: Seq<(String, JsonValue)>, y: Seq<(String, JsonValue)>)
    ensures
        entries_same(x, y) <==> (x.len() == y.len() && forall|i: int|
            0 <= i < x.len() ==> (#[trigger] x[i]).0@ == y[i].0@ && json_same(x[i].1, y[i].1)),
    decreases x.len(),
{
    if x.len() == y.len() && x.len() > 0 {
        lemma_entries_same_index(x.drop_last(), y.drop_last());
        if forall|i: int| 0 <= i < x.len() ==> (#[trigger] x[i]).0@ == y[i].0@ && json_same(x[i].1, y[i].1) {
            assert forall|i: int| 0 <= i < x.drop_last().len() implies (#[trigger] x.drop_last()[i]).0@
                == y.drop_last()[i].0@ && json_same(x.drop_last()[i].1, y.drop_last()[i].1) by {
                assert(x.drop_last()[i] == x[i]);
                assert(y.drop_last()[i] == y[i]);
            }
        }
        if entries_same(x, y) {
            assert forall|i: int| 0 <= i < x.len() implies (#[trigger] x[i]).0@ == y[i].0@ && json_same(
                x[i].1,
                y[i].1,
            ) by {
                if i < x.len() - 1 {
                    assert(x.drop_last()[i] == x[i]);
                    assert(y.drop_last()[i] == y[i]);
                }
            }
        }
    }
}

/// What it takes for two JSON values to be the same: the same variant
/// with the same scalar or text, or, for arrays and objects, as many items
/// or entries, each the same (entries under the same key) in order.
pub proof fn lemma_json_same(a: JsonValue, b: JsonValue)
    ensures
        json_same(a, b) <==> match a {
            JsonValue::Null => b is Null,
            JsonValue::Bool(x) => b == JsonValue::Bool(x),
            JsonValue::UInt(x) => b == JsonValue::UInt(x),
            JsonValue::NegInt(x) => b == JsonValue::NegInt(x),
            JsonValue::Float { bits, display } => match b {
                JsonValue::Float { bits: bits2, display: display2 } => bits == bits2 && display@ == display2@,
                _ => false,
            },
            JsonValue::Str(s) => match b {
                JsonValue::Str(t) => s@ == t@,
                _ => false,
            },
            JsonValue::Array(x) => match b {
                JsonValue::Array(y) => x@.len() == y@.len() && forall|i: int|
                    0 <= i < x@.len() ==> json_same(#[trigger] x@[i], y@[i]),
                _ => false,
            },
            JsonValue::Object(m) => match b {
                JsonValue::Object(n) => m@.len() == n@.len() && forall|i: int|
                    0 <= i < m@.len() ==> (#[trigger] m@[i]).0@ == n@[i].0@ && json_same(m@[i].1, n@[i].1),
                _ => false,
            },
        },
{
    match a {
        JsonValue::Array(x) => match b {
            JsonValue::Array(y) => lemma_items_same_index(x@, y@),
            _ => {},
        },
        JsonValue::Object(m) => match b {
            JsonValue::Object(n) => lemma_entries_same_index(m@, n@),
            _ => {},
        },
        _ => {},
    }
}

/// Two parameter maps hold the same keys, in the same order, with the same
/// values.
pub closed spec fn params_same(m: Params, n: Params) -> bool {
    json_same(JsonValue::Object(m.entries), JsonValue::Object(n.entries))
}

/// A JSON object: string keys, each present at most once, mapped to values.
#[derive(Debug, PartialEq)]
pub struct Params {
    entries: Vec<(String, JsonValue)>,
}

impl View for Params {
    type V = Map<Seq<char>, JsonValue>;

    closed spec fn view(&self) -> Map<Seq<char>, JsonValue> {
        entries_map(self.entries@)
    }
}

impl Params {
    #[verifier::type_invariant]
    spec fn keys_unique(self) -> bool {
        unique_keys(self.entries@)
    }

    /// An empty map.
    pub fn new() -> (r: Params)
        ensures
            r@ == Map::<Seq<char>, JsonValue>::empty(),
    {
        Params { entries: Vec::new() }
    }

    /// Number of keys.
    pub fn len(&self) -> (r: usize)
        ensures
            r == self@.len(),
    {
        proof {
            use_type_invariant(self);
            lemma_entries_len(self.entries@);
        }
        self.entries.len()
    }

    fn find(&self, key: &str) -> (r: Option<usize>)
        ensures
            r is None ==> !self@.dom().contains(key@),
            r is Some ==> r->0 < self.entries@.len() && self.entries@[r->0 as int].0@ == key@,
    {
        find_key(&self.entries, key)
    }

    /// The value for a key.
    pub fn get(&self, key: &str) -> (r: Option<&JsonValue>)
        ensures
            r is Some <==> self@.dom().contains(key@),
            r is Some ==> *r->0 == self@[key@],
    {
        proof {
            use_type_invariant(self);
        }
        match self.find(key) {
            Some(i) => {
                proof {
                    lemma_entries_value(self.entries@, i as int);
                }
                Some(&self.entries[i].1)
            },
            None => None,
        }
    }

    /// Whether a key is present.
    pub fn contains_key(&self, key: &str) -> (r: bool)
        ensures
            r == self@.dom().contains(key@),
    {
        proof {
            use_type_invariant(self);
        }
        match self.find(key) {
            Some(i) => {
                proof {
                    lemma_entries_value(self.entries@, i as int);
                }
                true
            },
            None => false,
        }
    }

    /// Sets the value for a key (replacing an earlier one).
    pub fn insert(&mut self, key: String, value: JsonValue)
        ensures
            final(self)@ == old(self)@.insert(key@, value),
    {
        proof {
            use_type_invariant(&*self);
        }
        let found = self.find(key.as_str());
        let mut entries: Vec<(String, JsonValue)> = Vec::new();
        std::mem::swap(&mut entries, &mut self.entries);
        match found {
            Some(i) => {
                proof {
                    lemma_entries_update(entries@, i as int, (key, value));
                }
                entries.set(i, (key, value));
            },
            None => {
                proof {
                    lemma_entries_push(entries@, (key, value));
                }
                entries.push((key, value));
            },
        }
        self.entries = entries;
    }

    /// The keys in the order they were first inserted.
    pub fn keys(&self) -> (r: Vec<String>)
        ensures
            r@.len() == self@.len(),
            forall|i: int| 0 <= i < r@.len() ==> self@.dom().contains(#[trigger] r@[i]@),
            forall|k: Seq<char>| self@.dom().contains(k) ==> exists|i: int| 0 <= i < r@.len() && #[trigger] r@[i]@ == k,
    {
        proof {
            use_type_invariant(self);
            lemma_entries_len(self.entries@);
        }
        let mut out: Vec<String> = Vec::new();
        let mut i: usize = 0;
        while i < self.entries.len()
            invariant
                i <= self.entries@.len(),
                out@.len() == i,
                forall|j: int| 0 <= j < i ==> (#[trigger] out@[j])@ == self.entries@[j].0@,
            decreases self.entries.len() - i,
        {
            out.push(self.entries[i].0.clone());
            i = i + 1;
        }
        proof {
            assert forall|j: int| 0 <= j < out@.len() implies self@.dom().contains(#[trigger] out@[j]@) by {
                lemma_entries_dom(self.entries@, out@[j]@);
            }
            assert forall|k: Seq<char>| self@.dom().contains(k) implies exists|j: int| 0 <= j < out@.len() && #[trigger] out@[j]@ == k by {
                lemma_entries_dom(self.entries@, k);
                let j = choose|j: int| 0 <= j < self.entries@.len() && (#[trigger] self.entries@[j]).0@ == k;
                assert(out@[j]@ == k);
            }
        }
        out
    }

    /// A copy of the map.
    pub fn duplicate(&self) -> (r: Params)
        ensures
            params_same(r, *self),
    {
        proof {
            use_type_invariant(self);
        }
        let mut out: Vec<(String, JsonValue)> = Vec::new();
        let mut i: usize = 0;
        while i < self.entries.len()
            invariant
                i <= self.entries@.len(),
                out@.len() == i,
                entries_same(out@, self.entries@.subrange(0, i as int)),
                forall|j: int| 0 <= j < i ==> (#[trigger] out@[j]).0 == self.entries@[j].0,
            decreases self.entries.len() - i,
        {
            let v = self.entries[i].1.duplicate();
            let k = self.entries[i].0.clone();
            proof {
                lemma_entries_same_push(
                    out@,
                    self.entries@.subrange(0, i as int),
                    (k, v),
                    self.entries@[i as int],
                );
                assert(self.entries@.subrange(0, i as int).push(self.entries@[i as int])
                    =~= self.entries@.subrange(0, i + 1));
            }
            out.push((k, v));
            i = i + 1;
        }
        assert(self.entries@.subrange(0, self.entries@.len() as int) =~= self.entries@);
        let r = Params { entries: out };
        r
    }
}

/// Standard command structure for all inter-node communication.
#[derive(Debug, Clone)]
pub struct Command {
    pub command: String,
    pub request_id: String,
    /// PeerId of the requester.
    pub from: String,
    /// PeerId of the target (None: find the best node).
    pub to: Option<String>,
    pub timestamp: u64,
    pub params: Params,
}

/// Status of a command response.
#[derive(Debug, Clone, Copy, PartialEq, Eq, Structural)]
pub enum ResponseStatus {
    Success,
    Error,
    Timeout,
}

/// Standard response structure.
#[derive(Debug, Clone)]
pub struct CommandResponse {
    pub command: String,
    pub request_id: String,
    /// PeerId of the executor.
    pub from: String,
    /// PeerId of the requester.
    pub to: String,
    pub timestamp: u64,
    pub status: ResponseStatus,
    pub result: Option<Params>,
    pub error: Option<String>,
}

/// The request id a command gets: `req-` followed by the creation time in
/// nanoseconds since the epoch.
pub open spec fn request_id_spec(now_nanos: u128) -> Seq<char> {
    "req-"@ + decimal(now_nanos as nat)
}

pub open spec fn opt_str_view(o: Option<&str>) -> Option<Seq<char>> {
    match o {
        Some(s) => Some(s@),
        None => None,
    }
}

pub open spec fn opt_string_view(o: Option<String>) -> Option<Seq<char>> {
    match o {
        Some(s) => Some(s@),
        None => None,
    }
}

/// Seconds since the Unix epoch, read from the system clock.
///
/// Trusted: calls `SystemTime::now().duration_since(UNIX_EPOCH)`; the result
/// depends on the clock, so nothing is stated of it. A clock set before the
/// epoch gives 0.
#[verifier::external_body]
pub(crate) fn now_secs() -> u64 {
    std::time::SystemTime::now().duration_since(std::time::UNIX_EPOCH).map(|d| d.as_secs()).unwrap_or(
        0,
    )
}

/// Milliseconds since the Unix epoch, read from the system clock.
///
/// Trusted: calls `SystemTime::now().duration_since(UNIX_EPOCH)` and
/// `Duration::as_millis`, cut to 64 bits; the result depends on the clock,
/// so nothing is stated of it.
#[verifier::external_body]
pub(crate) fn now_millis() -> u64 {
    std::time::SystemTime::now().duration_since(std::time::UNIX_EPOCH).map(|d| d.as_millis() as u64).unwrap_or(
        0,
    )
}

/// Nanoseconds since the Unix epoch, read from the system clock.
///
/// Trusted: calls `SystemTime::now().duration_since(UNIX_EPOCH)` and
/// `Duration::as_nanos`; the result depends on the clock, so nothing is
/// stated of it.
#[verifier::external_body]
pub(crate) fn now_nanos() -> u128 {
    std::time::SystemTime::now().duration_since(std::time::UNIX_EPOCH).map(|d| d.as_nanos()).unwrap_or(
        0,
    )
}

fn opt_to_string(to: Option<&str>) -> (r: Option<String>)
    ensures
        opt_string_view(r) == opt_str_view(to),
{
    match to {
        Some(s) => Some(String::from_str(s)),
        None => None,
    }
}

impl Command {
    /// A command stamped with the given clock readings: its request id is
    /// `req-{now_nanos}`, its timestamp `now_secs`, and it has no parameters.
    pub fn new_at(command: &str, from: &str, to: Option<&str>, now_secs: u64, now_nanos: u128) -> (r:
        Command)
        ensures
            r.command@ == command@,
            r.request_id@ == request_id_spec(now_nanos),
            r.from@ == from@,
            opt_string_view(r.to) == opt_str_view(to),
            r.timestamp == now_secs,
            r.params@ == Map::<Seq<char>, JsonValue>::empty(),
    {
        let mut rid = String::from_str("req-");
        append_decimal(&mut rid, now_nanos);
        Command {
            command: String::from_str(command),
            request_id: rid,
            from: String::from_str(from),
            to: opt_to_string(to),
            timestamp: now_secs,
            params: Params::new(),
        }
    }

    /// A new command, stamped with the current time.
    pub fn new(command: &str, from: &str, to: Option<&str>) -> (r: Command)
        ensures
            r.command@ == command@,
            r.from@ == from@,
            opt_string_view(r.to) == opt_str_view(to),
            r.params@ == Map::<Seq<char>, JsonValue>::empty(),
            exists|nanos: u128| r.request_id@ == request_id_spec(nanos),
    {
        let nanos = now_nanos();
        let secs = now_secs();
        Command::new_at(command, from, to, secs, nanos)
    }

    /// The command with one more parameter (replacing one of the same key).
    pub fn with_param(self, key: &str, value: JsonValue) -> (r: Command)
        ensures
            r.params@ == self.params@.insert(key@, value),
            r.command == self.command,
            r.request_id == self.request_id,
            r.from == self.from,
            r.to == self.to,
            r.timestamp == self.timestamp,
    {
        let mut s = self;
        s.params.insert(String::from_str(key), value);
        s
    }
}

fn copy_str(s: &str) -> (r: String)
    ensures
        r@ == s@,
{
    String::from_str(s)
}

impl CommandResponse {
    /// A success response stamped with time `now`.
    pub fn success_at(
        command: &str,
        request_id: &str,
        from: &str,
        to: &str,
        result: Params,
        now: u64,
    ) -> (r: CommandResponse)
        ensures
            r.command@ == command@,
            r.request_id@ == request_id@,
            r.from@ == from@,
            r.to@ == to@,
            r.timestamp == now,
            r.status == ResponseStatus::Success,
            r.result == Some(result),
            r.error is None,
    {
        CommandResponse {
            command: copy_str(command),
            request_id: copy_str(request_id),
            from: copy_str(from),
            to: copy_str(to),
            timestamp: now,
            status: ResponseStatus::Success,
            result: Some(result),
            error: None,
        }
    }

    /// A success response stamped with the current time.
    pub fn success(command: &str, request_id: &str, from: &str, to: &str, result: Params) -> (r:
        CommandResponse)
        ensures
            r.command@ == command@,
            r.request_id@ == request_id@,
            r.from@ == from@,
            r.to@ == to@,
            r.status == ResponseStatus::Success,
            r.result == Some(result),
            r.error is None,
    {
        CommandResponse::success_at(command, request_id, from, to, result, now_secs())
    }

    /// An error response stamped with time `now`.
    pub fn error_at(command: &str, request_id: &str, from: &str, to: &str, error_msg: &str, now: u64) -> (r:
        CommandResponse)
        ensures
            r.command@ == command@,
            r.request_id@ == request_id@,
            r.from@ == from@,
            r.to@ == to@,
            r.timestamp == now,
            r.status == ResponseStatus::Error,
            r.result is None,
            opt_string_view(r.error) == Some(error_msg@),
    {
        CommandResponse {
            command: copy_str(command),
            request_id: copy_str(request_id),
            from: copy_str(from),
            to: copy_str(to),
            timestamp: now,
            status: ResponseStatus::Error,
            result: None,
            error: Some(copy_str(error_msg)),
        }
    }

    /// An error response stamped with the current time.
    pub fn error(command: &str, request_id: &str, from: &str, to: &str, error_msg: &str) -> (r:
        CommandResponse)
        ensures
            r.command@ == command@,
            r.request_id@ == request_id@,
            r.from@ == from@,
            r.to@ == to@,
            r.status == ResponseStatus::Error,
            r.result is None,
            opt_string_view(r.error) == Some(error_msg@),
    {
        CommandResponse::error_at(command, request_id, from, to, error_msg, now_secs())
    }
}

} // verus!
