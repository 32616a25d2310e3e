//! JSON values: reading fields, building objects, and text through `serde_json`.
use serde_json::Value;
use vstd::prelude::*;

use crate::text::{opt_text, str_eq, texts};

verus! {

/// A number with a fraction or an exponent, kept as the shortest decimal text that reads back as
/// the same number, which is how `serde_json` writes it: fifty is `50.0`.
#[derive(Debug, PartialEq, Eq)]
pub struct Real {
    pub text: String,
}

impl View for Real {
    type V = Seq<char>;

    open spec fn view(&self) -> Seq<char> {
        self.text@
    }
}

impl Clone for Real {
    fn clone(&self) -> (r: Self)
        ensures
            r@ == self@,
    {
        Real { text: self.text.clone() }
    }
}

/// A number as values, where there is one.
pub open spec fn opt_real(o: Option<Real>) -> Option<Seq<char>> {
    match o {
        Some(x) => Some(x@),
        None => None,
    }
}

/// Copies a number, where there is one.
pub fn clone_opt_real(o: &Option<Real>) -> (r: Option<Real>)
    ensures
        opt_real(r) == opt_real(*o),
{
    match o {
        Some(x) => Some(x.clone()),
        None => None,
    }
}

/// A JSON value. An object is its entries; where a key is there more than once, its last entry
/// counts.
#[derive(Debug, PartialEq, Eq)]
pub enum Json {
    Null,
    Bool(bool),
    /// A whole number that is not negative.
    Unsigned(u64),
    /// A whole number below zero.
    Negative(i64),
    Real(Real),
    Text(String),
    Array(Vec<Json>),
    Object(Vec<Entry>),
}

/// An entry of an object.
#[derive(Debug, PartialEq, Eq)]
pub struct Entry {
    pub key: String,
    pub value: Json,
}

/// [`Json`] as values.
pub enum JsonView {
    Null,
    Bool(bool),
    Int(int),
    Real(Seq<char>),
    Text(Seq<char>),
    Array(Seq<JsonView>),
    Object(Seq<EntryView>),
}

/// [`Entry`] as values.
pub struct EntryView {
    pub key: Seq<char>,
    pub value: JsonView,
}

impl View for Json {
    type V = JsonView;

    open spec fn view(&self) -> JsonView
        decreases self,
    {
        match self {
            Json::Null => JsonView::Null,
            Json::Bool(b) => JsonView::Bool(*b),
            Json::Unsigned(n) => JsonView::Int(*n as int),
            Json::Negative(n) => JsonView::Int(*n as int),
            Json::Real(r) => JsonView::Real(r@),
            Json::Text(s) => JsonView::Text(s@),
            Json::Array(v) => JsonView::Array(
                Seq::new(
                    v@.len(),
                    |i: int|
                        if 0 <= i < v@.len() {
                            v@[i]@
                        } else {
                            JsonView::Null
                        },
                ),
            ),
            Json::Object(v) => JsonView::Object(
                Seq::new(
                    v@.len(),
                    |i: int|
                        if 0 <= i < v@.len() {
                            EntryView { key: v@[i].key@, value: v@[i].value@ }
                        } else {
                            EntryView { key: Seq::empty(), value: JsonView::Null }
                        },
                ),
            ),
        }
    }
}

/// The items of an array as values.
pub open spec fn items(v: Seq<Json>) -> Seq<JsonView> {
    Seq::new(v.len(), |i: int| v[i]@)
}

/// The entries of an object as values.
pub open spec fn entries(v: Seq<Entry>) -> Seq<EntryView> {
    Seq::new(v.len(), |i: int| EntryView { key: v[i].key@, value: v[i].value@ })
}

/// The view of an array is its items, that of an object its entries.
pub proof fn view_of_parts(j: Json)
    ensures
        j matches Json::Array(v) ==> j@ == JsonView::Array(items(v@)),
        j matches Json::Object(v) ==> j@ == JsonView::Object(entries(v@)),
{
    match j {
        Json::Array(v) => {
            assert(j@->Array_0 =~= items(v@));
        },
        Json::Object(v) => {
            assert(j@->Object_0 =~= entries(v@));
        },
        _ => {},
    }
}

/// The value of a key among entries.
pub open spec fn lookup(e: Seq<EntryView>, key: Seq<char>) -> Option<JsonView>
    decreases e.len(),
{
    if e.len() == 0 {
        None
    } else if e.last().key == key {
        Some(e.last().value)
    } else {
        lookup(e.drop_last(), key)
    }
}

impl JsonView {
    /// The value of a key, `None` where there is no such key or no object.
    pub open spec fn get(self, key: Seq<char>) -> Option<JsonView> {
        match self {
            JsonView::Object(e) => lookup(e, key),
            _ => None,
        }
    }

    /// The text that the value is.
    pub open spec fn text(self) -> Option<Seq<char>> {
        match self {
            JsonView::Text(s) => Some(s),
            _ => None,
        }
    }

    /// The whole number that the value is, where it fits in 64 bits.
    pub open spec fn unsigned(self) -> Option<u64> {
        match self {
            JsonView::Int(n) => if 0 <= n <= u64::MAX {
                Some(n as u64)
            } else {
                None
            },
            _ => None,
        }
    }

    /// The truth value that the value is.
    pub open spec fn boolean(self) -> Option<bool> {
        match self {
            JsonView::Bool(b) => Some(b),
            _ => None,
        }
    }

    /// The text under a key.
    pub open spec fn text_at(self, key: Seq<char>) -> Option<Seq<char>> {
        match self.get(key) {
            Some(v) => v.text(),
            None => None,
        }
    }

    /// The whole number under a key.
    pub open spec fn unsigned_at(self, key: Seq<char>) -> Option<u64> {
        match self.get(key) {
            Some(v) => v.unsigned(),
            None => None,
        }
    }

    /// The truth value under a key.
    pub open spec fn boolean_at(self, key: Seq<char>) -> Option<bool> {
        match self.get(key) {
            Some(v) => v.boolean(),
            None => None,
        }
    }
}

/// The text of a string slice, where there is one.
pub open spec fn opt_str(o: Option<&str>) -> Option<Seq<char>> {
    match o {
        Some(s) => Some(s@),
        None => None,
    }
}

impl Json {
    /// The value of a key.
    pub fn get(&self, key: &str) -> (r: Option<&Json>)
        ensures
            match r {
                Some(v) => self@.get(key@) == Some(v@),
                None => self@.get(key@) is None,
            },
    {
        proof {
            view_of_parts(*self);
        }
        match self {
            Json::Object(v) => {
                let ghost e = entries(v@);
                let mut i: usize = v.len();
                assert(e.take(e.len() as int) =~= e);
                while i > 0
                    invariant
                        i <= v@.len(),
                        e == entries(v@),
                        self@ == JsonView::Object(e),
                        lookup(e, key@) == lookup(e.take(i as int), key@),
                    decreases i,
                {
                    assert(e.take(i as int).drop_last() =~= e.take(i as int - 1));
                    if str_eq(v[i - 1].key.as_str(), key) {
                        return Some(&v[i - 1].value);
                    }
                    i = i - 1;
                }
                None
            },
            _ => None,
        }
    }

    /// The text that the value is.
    pub fn as_str(&self) -> (r: Option<&str>)
        ensures
            opt_str(r) == self@.text(),
    {
        match self {
            Json::Text(s) => Some(s.as_str()),
            _ => None,
        }
    }

    /// The whole number that the value is, where it is not negative.
    pub fn as_u64(&self) -> (r: Option<u64>)
        ensures
            r == self@.unsigned(),
    {
        match self {
            Json::Unsigned(n) => Some(*n),
            Json::Negative(n) => if *n >= 0 {
                Some(*n as u64)
            } else {
                None
            },
            _ => None,
        }
    }

    /// The truth value that the value is.
    pub fn as_bool(&self) -> (r: Option<bool>)
        ensures
            r == self@.boolean(),
    {
        match self {
            Json::Bool(b) => Some(*b),
            _ => None,
        }
    }

    /// The items of an array.
    pub fn as_array(&self) -> (r: Option<&Vec<Json>>)
        ensures
            match r {
                Some(v) => self@ == JsonView::Array(items(v@)),
                None => !(self@ is Array),
            },
    {
        proof {
            view_of_parts(*self);
        }
        match self {
            Json::Array(v) => Some(v),
            _ => None,
        }
    }

    /// The text under a key.
    pub fn str_at(&self, key: &str) -> (r: Option<&str>)
        ensures
            opt_str(r) == self@.text_at(key@),
    {
        match self.get(key) {
            Some(v) => v.as_str(),
            None => None,
        }
    }

    /// The whole number under a key.
    pub fn u64_at(&self, key: &str) -> (r: Option<u64>)
        ensures
            r == self@.unsigned_at(key@),
    {
        match self.get(key) {
            Some(v) => v.as_u64(),
            None => None,
        }
    }

    /// The truth value under a key.
    pub fn bool_at(&self, key: &str) -> (r: Option<bool>)
        ensures
            r == self@.boolean_at(key@),
    {
        match self.get(key) {
            Some(v) => v.as_bool(),
            None => None,
        }
    }
}

fn copy_items(v: &Vec<Json>) -> (r: Vec<Json>)
    ensures
        items(r@) == items(v@),
    decreases v,
{
    let mut out: Vec<Json> = Vec::new();
    let mut i: usize = 0;
    while i < v.len()
        invariant
            i <= v@.len(),
            out@.len() == i,
            forall|k: int| 0 <= k < i ==> (#[trigger] out@[k])@ == v@[k]@,
        decreases v@.len() - i,
    {
        assert(decreases_to!(v => v@[i as int]));
        out.push(v[i].clone());
        i = i + 1;
    }
    assert(items(out@) =~= items(v@));
    out
}

fn copy_entries(v: &Vec<Entry>) -> (r: Vec<Entry>)
    ensures
        entries(r@) == entries(v@),
    decreases v,
{
    let mut out: Vec<Entry> = Vec::new();
    let mut i: usize = 0;
    while i < v.len()
        invariant
            i <= v@.len(),
            out@.len() == i,
            forall|k: int|
                0 <= k < i ==> (#[trigger] out@[k]).key@ == v@[k].key@ && out@[k].value@
                    == v@[k].value@,
        decreases v@.len() - i,
    {
        assert(decreases_to!(v => v@[i as int].value));
        out.push(Entry { key: v[i].key.clone(), value: v[i].value.clone() });
        i = i + 1;
    }
    assert(entries(out@) =~= entries(v@));
    out
}

impl Clone for Json {
    fn clone(&self) -> (r: Self)
        ensures
            r@ == self@,
        decreases self,
    {
        let r = match self {
            Json::Null => Json::Null,
            Json::Bool(b) => Json::Bool(*b),
            Json::Unsigned(n) => Json::Unsigned(*n),
            Json::Negative(n) => Json::Negative(*n),
            Json::Real(x) => Json::Real(x.clone()),
            Json::Text(s) => Json::Text(s.clone()),
            Json::Array(v) => Json::Array(copy_items(v)),
            Json::Object(v) => Json::Object(copy_entries(v)),
        };
        proof {
            view_of_parts(*self);
            view_of_parts(r);
        }
        r
    }
}

// ── Building ────────────────────────────────────────────────────────────────

/// An entry of an object as values.
pub open spec fn entry(key: Seq<char>, value: JsonView) -> EntryView {
    EntryView { key, value }
}

/// Entries with one more.
pub open spec fn put(e: Seq<EntryView>, key: Seq<char>, value: JsonView) -> Seq<EntryView> {
    e.push(entry(key, value))
}

/// Entries with one more, where there is a value for it.
pub open spec fn put_opt(e: Seq<EntryView>, key: Seq<char>, value: Option<JsonView>) -> Seq<
    EntryView,
> {
    match value {
        Some(v) => put(e, key, v),
        None => e,
    }
}

/// A text as a value, where there is one.
pub open spec fn text_value(o: Option<Seq<char>>) -> Option<JsonView> {
    match o {
        Some(s) => Some(JsonView::Text(s)),
        None => None,
    }
}

/// A number with a fraction as a value, where there is one.
pub open spec fn real_value(o: Option<Seq<char>>) -> Option<JsonView> {
    match o {
        Some(s) => Some(JsonView::Real(s)),
        None => None,
    }
}

/// A whole number as a value, where there is one.
pub open spec fn signed_int_value(o: Option<i64>) -> Option<JsonView> {
    match o {
        Some(n) => Some(JsonView::Int(n as int)),
        None => None,
    }
}

/// A whole number as a value, where there is one.
pub open spec fn unsigned_int_value(o: Option<u64>) -> Option<JsonView> {
    match o {
        Some(n) => Some(JsonView::Int(n as int)),
        None => None,
    }
}

/// The values of a list of texts.
pub open spec fn text_items(v: Seq<Seq<char>>) -> Seq<JsonView> {
    v.map_values(|s: Seq<char>| JsonView::Text(s))
}

/// The array of a list of values.
pub fn array_of(v: Vec<Json>) -> (r: Json)
    ensures
        r@ == JsonView::Array(items(v@)),
{
    let r: Json = Json::Array(v);
    proof {
        view_of_parts(r);
    }
    r
}

/// The array of a list of texts.
pub fn text_array(v: &Vec<String>) -> (r: Json)
    ensures
        r@ == JsonView::Array(text_items(texts(v@))),
{
    let mut out: Vec<Json> = Vec::new();
    let mut i: usize = 0;
    while i < v.len()
        invariant
            i <= v@.len(),
            out@.len() == i,
            forall|k: int| 0 <= k < i ==> (#[trigger] out@[k])@ == JsonView::Text(v@[k]@),
        decreases v@.len() - i,
    {
        out.push(Json::Text(v[i].clone()));
        i = i + 1;
    }
    assert(items(out@) =~= text_items(texts(v@)));
    array_of(out)
}

/// An object under construction.
pub struct ObjectBuilder {
    entries: Vec<Entry>,
}

impl View for ObjectBuilder {
    type V = Seq<EntryView>;

    closed spec fn view(&self) -> Seq<EntryView> {
        entries(self.entries@)
    }
}

impl ObjectBuilder {
    /// An object without entries.
    pub fn new() -> (r: Self)
        ensures
            r@ == Seq::<EntryView>::empty(),
    {
        let r = ObjectBuilder { entries: Vec::new() };
        assert(r@ =~= Seq::<EntryView>::empty());
        r
    }

    /// Adds an entry.
    pub fn with(self, key: &str, value: Json) -> (r: Self)
        ensures
            r@ == self@.push(entry(key@, value@)),
    {
        let mut r = self;
        r.entries.push(Entry { key: key.to_owned(), value });
        assert(r@ =~= self@.push(entry(key@, value@)));
        r
    }

    /// Adds a text.
    pub fn with_text(self, key: &str, value: &str) -> (r: Self)
        ensures
            r@ == self@.push(entry(key@, JsonView::Text(value@))),
    {
        self.with(key, Json::Text(value.to_owned()))
    }

    /// Adds a truth value.
    pub fn with_bool(self, key: &str, value: bool) -> (r: Self)
        ensures
            r@ == self@.push(entry(key@, JsonView::Bool(value))),
    {
        self.with(key, Json::Bool(value))
    }

    /// Adds a whole number.
    pub fn with_u64(self, key: &str, value: u64) -> (r: Self)
        ensures
            r@ == self@.push(entry(key@, JsonView::Int(value as int))),
    {
        self.with(key, Json::Unsigned(value))
    }

    /// Adds a whole number.
    pub fn with_i64(self, key: &str, value: i64) -> (r: Self)
        ensures
            r@ == self@.push(entry(key@, JsonView::Int(value as int))),
    {
        if value >= 0 {
            self.with(key, Json::Unsigned(value as u64))
        } else {
            self.with(key, Json::Negative(value))
        }
    }

    /// Adds a text, where there is one.
    pub fn with_opt_text(self, key: &str, value: &Option<String>) -> (r: Self)
        ensures
            r@ == put_opt(self@, key@, text_value(opt_text(*value))),
    {
        match value {
            Some(s) => self.with_text(key, s.as_str()),
            None => self,
        }
    }

    /// Adds a number with a fraction.
    pub fn with_real(self, key: &str, value: &Real) -> (r: Self)
        ensures
            r@ == self@.push(entry(key@, JsonView::Real(value@))),
    {
        self.with(key, Json::Real(value.clone()))
    }

    /// Adds a number with a fraction, where there is one.
    pub fn with_opt_real(self, key: &str, value: &Option<Real>) -> (r: Self)
        ensures
            r@ == put_opt(self@, key@, real_value(opt_real(*value))),
    {
        match value {
            Some(x) => self.with_real(key, x),
            None => self,
        }
    }

    /// Adds a whole number, where there is one.
    pub fn with_opt_i64(self, key: &str, value: Option<i64>) -> (r: Self)
        ensures
            r@ == put_opt(self@, key@, signed_int_value(value)),
    {
        match value {
            Some(n) => self.with_i64(key, n),
            None => self,
        }
    }

    /// Adds a whole number, where there is one.
    pub fn with_opt_u64(self, key: &str, value: Option<u64>) -> (r: Self)
        ensures
            r@ == put_opt(self@, key@, unsigned_int_value(value)),
    {
        match value {
            Some(n) => self.with_u64(key, n),
            None => self,
        }
    }

    /// The object.
    pub fn build(self) -> (r: Json)
        ensures
            r@ == JsonView::Object(self@),
    {
        let r = Json::Object(self.entries);
        proof {
            view_of_parts(r);
        }
        r
    }
}

// ── Text ────────────────────────────────────────────────────────────────────

/// A JSON value of `serde_json`.
#[verifier::external_type_specification]
#[verifier::external_body]
pub struct ExValue(serde_json::Value);

/// What `serde_json::from_str` reads in a text, `None` where it reports an error.
pub uninterp spec fn parsed_value(text: Seq<char>) -> Option<Value>;

/// What a value of `serde_json` holds. The entries of an object come in the order in which its
/// map yields them.
pub uninterp spec fn value_content(value: Value) -> JsonView;

/// The value of `serde_json` that holds the same as a [`Json`].
pub uninterp spec fn value_of_json(j: JsonView) -> Value;

/// The compact text that a value of `serde_json` displays as.
pub uninterp spec fn value_text(value: Value) -> Seq<char>;

/// `serde_json::from_str`: the value that the text denotes, `None` for its error.
#[verifier::external_body]
fn parse_value(text: &str) -> (r: Option<Value>)
    ensures
        r == parsed_value(text@),
{
    serde_json::from_str(text).ok()
}

/// The variants of `serde_json::Value`, each turned into ours. A number that is neither a `u64`
/// nor an `i64` keeps the text that `serde_json::Number` displays as.
#[verifier::external_body]
fn json_from_value(value: &Value) -> (r: Json)
    ensures
        r@ == value_content(*value),
{
    match value {
        Value::Null => Json::Null,
        Value::Bool(b) => Json::Bool(*b),
        Value::Number(n) => n.as_u64().map(Json::Unsigned).or(
            n.as_i64().map(Json::Negative),
        ).unwrap_or(Json::Real(Real { text: n.to_string() })),
        Value::String(s) => Json::Text(s.clone()),
        Value::Array(v) => Json::Array(v.iter().map(json_from_value).collect()),
        Value::Object(o) => Json::Object(
            o.iter().map(|(k, x)| Entry { key: k.clone(), value: json_from_value(x) }).collect(),
        ),
    }
}

/// Our variants, each turned into one of `serde_json::Value`. The number of a [`Real`] goes through
/// `serde_json::Number::from_f64`, and a text that holds none becomes null.
#[verifier::external_body]
fn value_from_json(j: &Json) -> (r: Value)
    ensures
        r == value_of_json(j@),
{
    match j {
        Json::Null => Value::Null,
        Json::Bool(b) => Value::Bool(*b),
        Json::Unsigned(n) => Value::from(*n),
        Json::Negative(n) => Value::from(*n),
        Json::Real(x) => x.text.parse().ok().and_then(serde_json::Number::from_f64).map_or(
            Value::Null,
            Value::Number,
        ),
        Json::Text(s) => Value::String(s.clone()),
        Json::Array(v) => Value::Array(v.iter().map(value_from_json).collect()),
        Json::Object(v) => v.iter().map(|e| (e.key.clone(), value_from_json(&e.value))).collect(),
    }
}

/// `serde_json::Value`'s display: the compact text of the value.
#[verifier::external_body]
fn display_value(value: &Value) -> (r: String)
    ensures
        r@ == value_text(*value),
{
    value.to_string()
}

/// What a text denotes as JSON.
pub open spec fn parsed_json(text: Seq<char>) -> Option<JsonView> {
    match parsed_value(text) {
        Some(value) => Some(value_content(value)),
        None => None,
    }
}

/// The compact text of a JSON value.
pub open spec fn json_text(j: JsonView) -> Seq<char> {
    value_text(value_of_json(j))
}

impl Json {
    /// Reads a JSON text.
    pub fn parse(text: &str) -> (r: Option<Json>)
        ensures
            match r {
                Some(j) => parsed_json(text@) == Some(j@),
                None => parsed_json(text@) is None,
            },
    {
        match parse_value(text) {
            Some(value) => Some(json_from_value(&value)),
            None => None,
        }
    }

    /// What a value of `serde_json` holds.
    pub fn from_value(value: &Value) -> (r: Json)
        ensures
            r@ == value_content(*value),
    {
        json_from_value(value)
    }

    /// The value of `serde_json` that holds the same.
    pub fn to_value(&self) -> (r: Value)
        ensures
            r == value_of_json(self@),
    {
        value_from_json(self)
    }

    /// Writes a JSON value as compact text.
    pub fn to_text(&self) -> (r: String)
        ensures
            r@ == json_text(self@),
    {
        display_value(&value_from_json(self))
    }
}

// ── Laws on reading what was built ──────────────────────────────────────────

/// The value of a key is that of its last entry, and there is none where no entry has the key.
pub proof fn lookup_finds_the_last_entry(e: Seq<EntryView>, key: Seq<char>)
    ensures
        match lookup(e, key) {
            Some(v) => exists|i: int|
                0 <= i < e.len() && (#[trigger] e[i]).key == key && e[i].value == v && (forall|k: int|
                    i < k < e.len() ==> (#[trigger] e[k]).key != key),
            None => forall|i: int| 0 <= i < e.len() ==> (#[trigger] e[i]).key != key,
        },
    decreases e.len(),
{
    if e.len() > 0 {
        let rest = e.drop_last();
        if e.last().key == key {
            assert(e[e.len() - 1].key == key);
        } else {
            lookup_finds_the_last_entry(rest, key);
            match lookup(rest, key) {
                Some(v) => {
                    let i = choose|i: int|
                        0 <= i < rest.len() && (#[trigger] rest[i]).key == key && rest[i].value == v
                            && (forall|k: int|
                            i < k < rest.len() ==> (#[trigger] rest[k]).key != key);
                    assert(e[i] == rest[i]);
                    assert forall|k: int| i < k < e.len() implies (#[trigger] e[k]).key != key by {
                        if k < rest.len() {
                            assert(e[k] == rest[k]);
                        }
                    }
                },
                None => {
                    assert forall|i: int| 0 <= i < e.len() implies (#[trigger] e[i]).key
                        != key by {
                        if i < rest.len() {
                            assert(e[i] == rest[i]);
                        }
                    }
                },
            }
        }
    }
}

/// Reading a key of an object gives its text, its number or its truth value exactly where the
/// value is of that kind.
pub proof fn kinds_are_told_apart(v: JsonView, key: Seq<char>)
    ensures
        forall|s: Seq<char>|
            #[trigger] v.text_at(key) == Some(s) <==> v.get(key) == Some(JsonView::Text(s)),
        forall|n: u64|
            #[trigger] v.unsigned_at(key) == Some(n) <==> v.get(key) == Some(
                JsonView::Int(n as int),
            ),
        forall|b: bool|
            #[trigger] v.boolean_at(key) == Some(b) <==> v.get(key) == Some(JsonView::Bool(b)),
{
}

/// A key and what an object has under it.
pub struct Field {
    pub key: Seq<char>,
    pub value: Option<JsonView>,
}

/// Whether entries hold these fields and no others.
pub open spec fn reads_as(e: Seq<EntryView>, fields: Seq<Field>) -> bool {
    &&& forall|i: int|
        0 <= i < fields.len() ==> lookup(e, (#[trigger] fields[i]).key) == fields[i].value
    &&& forall|key: Seq<char>|
        (forall|i: int| 0 <= i < fields.len() ==> (#[trigger] fields[i]).key != key)
            ==> #[trigger] lookup(e, key) is None
}

/// What tells names apart: how long a name is, and how it begins and ends.
pub open spec fn mark(key: Seq<char>) -> int {
    key.len() * 1_000_000 + key[0] as int * 1_000 + key[key.len() - 1] as int
}

/// Adding a field under a name that is not there yet makes it readable, and leaves what can be
/// read under the other names.
pub proof fn added_field_reads_back(
    e: Seq<EntryView>,
    fields: Seq<Field>,
    key: Seq<char>,
    value: Option<JsonView>,
) -> (r: (Seq<EntryView>, Seq<Field>))
    requires
        reads_as(e, fields),
        forall|i: int| 0 <= i < fields.len() ==> mark((#[trigger] fields[i]).key) != mark(key),
    ensures
        r.0 == put_opt(e, key, value),
        r.1 == fields.push(Field { key, value }),
        reads_as(r.0, r.1),
{
    let all = put_opt(e, key, value);
    let more = fields.push(Field { key, value });
    if value is Some {
        assert(all.drop_last() =~= e);
    }
    assert forall|i: int| 0 <= i < fields.len() implies (#[trigger] fields[i]).key != key by {
        assert(mark(fields[i].key) != mark(key));
    }
    assert(lookup(e, key) is None);
    assert forall|i: int| 0 <= i < more.len() implies lookup(all, (#[trigger] more[i]).key)
        == more[i].value by {
        if i < fields.len() {
            assert(more[i] == fields[i]);
        }
    }
    assert forall|k: Seq<char>|
        (forall|i: int| 0 <= i < more.len() ==> (#[trigger] more[i]).key
            != k) implies #[trigger] lookup(all, k) is None by {
        assert(more[fields.len() as int].key == key);
        assert forall|i: int| 0 <= i < fields.len() implies (#[trigger] fields[i]).key != k by {
            assert(more[i] == fields[i]);
        }
        assert(lookup(e, k) is None);
    }
    (all, more)
}

/// A value is seen as what it is: numbers, texts and truth values as they are, and the items and
/// the entries in their order.
pub proof fn values_are_seen_as_they_are(j: Json)
    ensures
        j is Null ==> j@ is Null,
        j matches Json::Bool(b) ==> j@ == JsonView::Bool(b),
        j matches Json::Unsigned(n) ==> j@ == JsonView::Int(n as int),
        j matches Json::Negative(n) ==> j@ == JsonView::Int(n as int),
        j matches Json::Real(x) ==> j@ == JsonView::Real(x.text@),
        j matches Json::Text(s) ==> j@ == JsonView::Text(s@),
        j matches Json::Array(v) ==> (j@ matches JsonView::Array(a) && a.len() == v@.len()
            && forall|i: int| 0 <= i < a.len() ==> #[trigger] a[i] == v@[i]@),
        j matches Json::Object(v) ==> (j@ matches JsonView::Object(e) && e.len() == v@.len()
            && forall|i: int|
            0 <= i < e.len() ==> (#[trigger] e[i]).key == v@[i].key@ && e[i].value
                == v@[i].value@),
{
    view_of_parts(j);
}

} // verus!
