//! Messages: an event identity plus optional string headers.

use std::fmt::Debug;
use std::hash::Hash;
use vstd::prelude::*;

verus! {

/// What a host type must offer to serve as the identity of an event.
pub trait EventId: PartialEq + Eq + Copy + Debug + Hash {}

/// The key of pair `i`.
spec fn key_at(entries: Seq<(String, String)>, i: int) -> Seq<char> {
    entries[i].0@
}

/// Whether some pair has the key `k`.
spec fn holds(entries: Seq<(String, String)>, k: Seq<char>) -> bool {
    exists|i: int| 0 <= i < entries.len() && #[trigger] key_at(entries, i) == k
}

/// A pair that has the key `k`, where there is one.
spec fn slot(entries: Seq<(String, String)>, k: Seq<char>) -> int {
    choose|i: int| 0 <= i < entries.len() && #[trigger] key_at(entries, i) == k
}

/// No key occurs twice among the pairs.
spec fn distinct_keys(entries: Seq<(String, String)>) -> bool {
    forall|i: int, j: int|
        0 <= i < j < entries.len() ==> #[trigger] key_at(entries, i) != #[trigger] key_at(
            entries,
            j,
        )
}

/// The mapping that the pairs stand for.
spec fn bindings(entries: Seq<(String, String)>) -> Map<Seq<char>, Seq<char>> {
    Map::new(|k: Seq<char>| holds(entries, k), |k: Seq<char>| entries[slot(entries, k)].1@)
}

/// Among pairs with distinct keys, pair `i` is the one found for its key.
proof fn lemma_slot(entries: Seq<(String, String)>, i: int)
    requires
        distinct_keys(entries),
        0 <= i < entries.len(),
    ensures
        holds(entries, key_at(entries, i)),
        slot(entries, key_at(entries, i)) == i,
        bindings(entries).contains_key(key_at(entries, i)),
        bindings(entries)[key_at(entries, i)] == entries[i].1@,
{
    let k = key_at(entries, i);
    assert(key_at(entries, i) == k);
    let j = slot(entries, k);
    assert(0 <= j < entries.len() && key_at(entries, j) == k);
    if j < i {
        assert(key_at(entries, j) != key_at(entries, i));
    } else if i < j {
        assert(key_at(entries, i) != key_at(entries, j));
    }
}

/// Replacing the value of pair `i` binds its key anew and leaves the other
/// keys as they were.
proof fn lemma_replace(before: Seq<(String, String)>, after: Seq<(String, String)>, i: int)
    requires
        distinct_keys(before),
        0 <= i < before.len(),
        after.len() == before.len(),
        after[i].0@ == before[i].0@,
        forall|j: int| 0 <= j < before.len() && j != i ==> after[j] == before[j],
    ensures
        distinct_keys(after),
        bindings(after) == bindings(before).insert(after[i].0@, after[i].1@),
{
    let k = after[i].0@;
    let v = after[i].1@;
    assert forall|j: int| 0 <= j < after.len() implies #[trigger] key_at(after, j) == key_at(
        before,
        j,
    ) by {}
    assert(distinct_keys(after)) by {
        assert forall|a: int, b: int| 0 <= a < b < after.len() implies #[trigger] key_at(after, a)
            != #[trigger] key_at(after, b) by {
            assert(key_at(before, a) != key_at(before, b));
        }
    }
    assert forall|q: Seq<char>| holds(after, q) == holds(before, q) by {
        if holds(before, q) {
            let j = slot(before, q);
            assert(key_at(after, j) == q);
        }
        if holds(after, q) {
            let j = slot(after, q);
            assert(key_at(before, j) == q);
        }
    }
    assert forall|q: Seq<char>| #[trigger] bindings(after).contains_key(q) implies bindings(
        after,
    )[q] == bindings(before).insert(k, v)[q] by {
        assert(holds(after, q));
        let j = slot(after, q);
        assert(key_at(after, j) == q);
        assert(key_at(after, i) == k);
        lemma_slot(after, j);
        lemma_slot(before, j);
        if j != i {
            assert(after[j] == before[j]);
        }
    }
    lemma_slot(before, i);
    assert(key_at(before, i) == k);
    assert(bindings(after) =~= bindings(before).insert(k, v));
}

/// Appending a pair with a new key binds that key and leaves the other
/// keys as they were.
proof fn lemma_append(before: Seq<(String, String)>, pair: (String, String))
    requires
        distinct_keys(before),
        !holds(before, pair.0@),
    ensures
        distinct_keys(before.push(pair)),
        bindings(before.push(pair)) == bindings(before).insert(pair.0@, pair.1@),
{
    let after = before.push(pair);
    let k = pair.0@;
    let v = pair.1@;
    let n = before.len() as int;
    assert forall|j: int| 0 <= j < n implies #[trigger] key_at(after, j) == key_at(before, j) by {}
    assert(key_at(after, n) == k);
    assert forall|j: int| 0 <= j < n implies #[trigger] key_at(after, j) != k by {
        assert(key_at(before, j) == key_at(after, j));
    }
    assert(distinct_keys(after)) by {
        assert forall|a: int, b: int| 0 <= a < b < after.len() implies #[trigger] key_at(after, a)
            != #[trigger] key_at(after, b) by {
            if b < n {
                assert(key_at(before, a) != key_at(before, b));
            }
        }
    }
    assert forall|q: Seq<char>| holds(after, q) == (holds(before, q) || q == k) by {
        if holds(before, q) {
            let j = slot(before, q);
            assert(key_at(after, j) == q);
        }
        if holds(after, q) {
            let j = slot(after, q);
            if j < n {
                assert(key_at(before, j) == q);
            }
        }
    }
    assert forall|q: Seq<char>| #[trigger] bindings(after).contains_key(q) implies bindings(
        after,
    )[q] == bindings(before).insert(k, v)[q] by {
        let j = slot(after, q);
        lemma_slot(after, j);
        if j < n {
            lemma_slot(before, j);
        }
    }
    assert(bindings(after) =~= bindings(before).insert(k, v));
}

/// Finds the pair with the key `key`.
fn position(entries: &Vec<(String, String)>, key: &String) -> (found: Option<usize>)
    ensures
        match found {
            Some(i) => i < entries@.len() && key_at(entries@, i as int) == key@,
            None => !holds(entries@, key@),
        },
{
    let mut i: usize = 0;
    while i < entries.len()
        invariant
            i <= entries@.len(),
            forall|j: int| 0 <= j < i ==> #[trigger] key_at(entries@, j) != key@,
        decreases entries@.len() - i,
    {
        if entries[i].0 == *key {
            return Some(i);
        }
        i += 1;
    }
    None
}

/// A mapping from string keys to string values, kept as a list of pairs in
/// which no key occurs twice.
#[derive(Debug)]
pub struct Headers {
    entries: Vec<(String, String)>,
}

impl View for Headers {
    type V = Map<Seq<char>, Seq<char>>;

    /// The mapping that the pairs stand for.
    closed spec fn view(&self) -> Map<Seq<char>, Seq<char>> {
        bindings(self.entries@)
    }
}

impl Headers {
    /// No key occurs twice.
    #[verifier::type_invariant]
    spec fn wf(&self) -> bool {
        distinct_keys(self.entries@)
    }

    /// Whether the mapping has no key at all.
    pub open spec fn is_vacant(&self) -> bool {
        forall|k: Seq<char>| !self@.contains_key(k)
    }

    /// The mapping without any key.
    pub fn new() -> (headers: Headers)
        ensures
            headers@ == Map::<Seq<char>, Seq<char>>::empty(),
    {
        let headers = Headers { entries: Vec::new() };
        assert(headers@ =~= Map::<Seq<char>, Seq<char>>::empty());
        headers
    }

    /// Whether the mapping has no key at all.
    pub fn is_empty(&self) -> (vacant: bool)
        ensures
            vacant == self.is_vacant(),
    {
        let vacant = self.entries.len() == 0;
        proof {
            use_type_invariant(self);
            if vacant {
                assert forall|k: Seq<char>| !self@.contains_key(k) by {
                    assert(!holds(self.entries@, k));
                }
                assert(self.is_vacant());
            } else {
                lemma_slot(self.entries@, 0);
                assert(self@.contains_key(key_at(self.entries@, 0)));
                assert(!self.is_vacant());
            }
        }
        vacant
    }

    /// Binds `key` to `val`, replacing what `key` was bound to before.
    pub fn insert(&mut self, key: String, val: String)
        ensures
            final(self)@ == old(self)@.insert(key@, val@),
    {
        proof {
            use_type_invariant(&*self);
        }
        let mut entries: Vec<(String, String)> = Vec::new();
        core::mem::swap(&mut entries, &mut self.entries);
        let ghost before = entries@;
        match position(&entries, &key) {
            Some(i) => {
                entries.set(i, (key, val));
                proof {
                    lemma_replace(before, entries@, i as int);
                }
            },
            None => {
                entries.push((key, val));
                proof {
                    lemma_append(before, (key, val));
                }
            },
        }
        core::mem::swap(&mut entries, &mut self.entries);
    }

    /// Looks up what `key` is bound to.
    pub fn get(&self, key: &str) -> (found: Option<&String>)
        ensures
            match found {
                Some(val) => self@.contains_key(key@) && self@[key@] == val@,
                None => !self@.contains_key(key@),
            },
    {
        proof {
            use_type_invariant(self);
        }
        let owned = key.to_owned();
        match position(&self.entries, &owned) {
            Some(i) => {
                proof {
                    lemma_slot(self.entries@, i as int);
                }
                Some(&self.entries[i].1)
            },
            None => None,
        }
    }
}

/// One occurrence of an event, with the context that guards and actions may
/// inspect.
pub struct Message<T> {
    payload: T,
    headers: Option<Headers>,
}

impl<T> Message<T> {
    /// The event identity that the message carries.
    pub closed spec fn payload_spec(&self) -> T {
        self.payload
    }

    /// The headers of the message, if it has any.
    pub closed spec fn headers_spec(&self) -> Option<Headers> {
        self.headers
    }

    /// Headers, where present, have at least one key.
    #[verifier::type_invariant]
    spec fn populated(&self) -> bool {
        match self.headers {
            Some(headers) => !headers.is_vacant(),
            None => true,
        }
    }

    /// The value of header `key`, if the message has that header.
    pub open spec fn header(&self, key: Seq<char>) -> Option<Seq<char>> {
        match self.headers_spec() {
            Some(headers) => if headers@.contains_key(key) {
                Some(headers@[key])
            } else {
                None
            },
            None => None,
        }
    }

    /// The value of header `key`, if the message has that header.
    pub fn get_header(&self, key: &str) -> (found: Option<&String>)
        ensures
            match found {
                Some(val) => self.header(key@) == Some(val@),
                None => self.header(key@) is None,
            },
    {
        proof {
            use_type_invariant(self);
        }
        if let Some(headers) = &self.headers {
            headers.get(key)
        } else {
            None
        }
    }

    /// The event identity that the message carries.
    pub fn get_payload(&self) -> (payload: &T)
        ensures
            *payload == self.payload_spec(),
    {
        &self.payload
    }

    /// A message without headers.
    pub fn new(payload: T) -> (message: Message<T>)
        ensures
            message.payload_spec() == payload,
            message.headers_spec() is None,
    {
        Message { payload, headers: None }
    }

    /// A message with headers, of which there is at least one.
    pub fn new_with_header(payload: T, headers: Headers) -> (message: Message<T>)
        requires
            !headers.is_vacant(),
        ensures
            message.payload_spec() == payload,
            message.headers_spec() == Some(headers),
    {
        Message { payload, headers: Some(headers) }
    }

    /// The headers of the message, if it has any.
    pub fn headers(&self) -> (headers: Option<&Headers>)
        ensures
            match headers {
                Some(h) => self.headers_spec() == Some(*h) && !h.is_vacant(),
                None => self.headers_spec() is None,
            },
    {
        proof {
            use_type_invariant(self);
        }
        self.headers.as_ref()
    }
}

/// Collects the payload and the headers of a message. To build without a
/// payload is a configuration error, a defect of the calling code: the
/// precondition holds verified callers to it, and code that is not verified
/// fails fast at the call.
pub struct MessageBuilder<T> {
    payload: Option<T>,
    headers: Option<Headers>,
}

impl<T> MessageBuilder<T> {
    /// The payload supplied so far.
    pub closed spec fn payload_spec(&self) -> Option<T> {
        self.payload
    }

    /// The headers supplied so far.
    pub closed spec fn headers_spec(&self) -> Option<Headers> {
        self.headers
    }

    /// Headers, once any was added, have at least one key.
    #[verifier::type_invariant]
    spec fn populated(&self) -> bool {
        match self.headers {
            Some(headers) => !headers.is_vacant(),
            None => true,
        }
    }

    /// The mapping that the headers supplied so far stand for.
    pub open spec fn bindings(&self) -> Map<Seq<char>, Seq<char>> {
        match self.headers_spec() {
            Some(headers) => headers@,
            None => Map::empty(),
        }
    }

    /// Yields the message and leaves the builder empty.
    pub fn build(&mut self) -> (message: Message<T>)
        requires
            old(self).payload_spec() is Some,
        ensures
            Some(message.payload_spec()) == old(self).payload_spec(),
            message.headers_spec() == old(self).headers_spec(),
            final(self).payload_spec() is None,
            final(self).headers_spec() is None,
    {
        proof {
            use_type_invariant(&*self);
        }
        let mut payload: Option<T> = None;
        let mut headers: Option<Headers> = None;
        core::mem::swap(&mut payload, &mut self.payload);
        core::mem::swap(&mut headers, &mut self.headers);
        let payload = payload.expect("payload absent!");
        match headers {
            None => Message::new(payload),
            Some(headers) => Message::new_with_header(payload, headers),
        }
    }

    /// Binds header `key` to `val`, replacing what it was bound to before.
    pub fn add_header(&mut self, key: String, val: String) -> (builder: &mut MessageBuilder<T>)
        ensures
            builder.payload_spec() == old(self).payload_spec(),
            builder.headers_spec() is Some,
            builder.bindings() == old(self).bindings().insert(key@, val@),
            *final(self) == *final(builder),
    {
        proof {
            use_type_invariant(&*self);
        }
        let mut taken: Option<Headers> = None;
        core::mem::swap(&mut taken, &mut self.headers);
        let mut headers = match taken {
            Some(headers) => headers,
            None => Headers::new(),
        };
        headers.insert(key, val);
        assert(headers@.contains_key(key@));
        let mut filled = Some(headers);
        core::mem::swap(&mut filled, &mut self.headers);
        self
    }

    /// Sets the payload, replacing an earlier one.
    pub fn payload(&mut self, payload: T) -> (builder: &mut MessageBuilder<T>)
        ensures
            builder.payload_spec() == Some(payload),
            builder.headers_spec() == old(self).headers_spec(),
            *final(self) == *final(builder),
    {
        proof {
            use_type_invariant(&*self);
        }
        self.payload = Some(payload);
        self
    }

    /// A builder that has been given nothing.
    pub fn new() -> (builder: MessageBuilder<T>)
        ensures
            builder.payload_spec() is None,
            builder.headers_spec() is None,
    {
        MessageBuilder { payload: None, headers: None }
    }
}

} // verus!
