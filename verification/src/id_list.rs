//! Ordered lists of record identifiers, kept in host vectors.
//!
//! The vectors live in the host environment and are reached through
//! `soroban_sdk::Vec<u64>`. What the host does is not verified: the few
//! functions of this module that call it state what its documentation and
//! source promise, and everything else is proved from those statements.
//! A list is only ever built by `IdList::new` and `IdList::push`, so every
//! item of it is a `u64`.
//!
//! The host meters the work it does. An invocation that spends its budget is
//! aborted by the host and leaves no trace; nothing here says when.

use vstd::prelude::*;

verus! {

/// Declares `soroban_sdk::Env`, the handle on the host environment. Nothing
/// is known of a value of it; it is only handed on to the host.
#[verifier::external_type_specification]
#[verifier::external_body]
pub struct ExEnv(soroban_sdk::Env);

/// Declares `soroban_sdk::Vec`, a vector kept by the host. Nothing is known
/// of a value of it but what the functions below state.
#[verifier::external_type_specification]
#[verifier::external_body]
#[verifier::reject_recursive_types(T)]
pub struct ExHostVec<T>(soroban_sdk::Vec<T>);

/// The identifiers that a host vector holds, in order.
pub uninterp spec fn host_ids(list: soroban_sdk::Vec<u64>) -> Seq<u64>;

/// Calls `soroban_sdk::Vec::new`. Trusted: the vector it returns is empty.
#[verifier::external_body]
fn host_new(env: &soroban_sdk::Env) -> (list: soroban_sdk::Vec<u64>)
    ensures
        host_ids(list) == Seq::<u64>::empty(),
{
    soroban_sdk::Vec::new(env)
}

/// Calls `soroban_sdk::Vec::len`. Trusted: it returns the number of items.
#[verifier::external_body]
fn host_len(list: &soroban_sdk::Vec<u64>) -> (n: u32)
    ensures
        n as nat == host_ids(*list).len(),
{
    list.len()
}

/// Calls `soroban_sdk::Vec::get`. Trusted: on a vector of `u64` items it
/// returns the item at position `i`, and nothing when `i` is past the end.
#[verifier::external_body]
fn host_get(list: &soroban_sdk::Vec<u64>, i: u32) -> (item: Option<u64>)
    ensures
        (i as int) < host_ids(*list).len() ==> item == Some(host_ids(*list)[i as int]),
        (i as int) >= host_ids(*list).len() ==> item.is_none(),
{
    list.get(i)
}

/// Calls `soroban_sdk::Vec::push_back`. Trusted: the item is added at the
/// end and the others stay. Positions are 32 bits wide, so a full vector
/// is left out.
#[verifier::external_body]
fn host_push_back(list: &mut soroban_sdk::Vec<u64>, id: u64)
    requires
        host_ids(*old(list)).len() < u32::MAX,
    ensures
        host_ids(*final(list)) == host_ids(*old(list)).push(id),
{
    list.push_back(id)
}

/// Calls `soroban_sdk::Vec::remove`. Trusted: the item at position `i`
/// leaves and the ones behind it move up; past the end nothing changes
/// and nothing is returned.
#[verifier::external_body]
fn host_remove(list: &mut soroban_sdk::Vec<u64>, i: u32) -> (removed: Option<()>)
    ensures
        (i as int) < host_ids(*old(list)).len() ==> removed.is_some() && host_ids(*final(list))
            == host_ids(*old(list)).remove(i as int),
        (i as int) >= host_ids(*old(list)).len() ==> removed.is_none() && host_ids(*final(list))
            == host_ids(*old(list)),
{
    list.remove(i)
}

/// Calls `Clone::clone` of `soroban_sdk::Vec`. Trusted: the copy refers to
/// the same host object, so it holds the same items.
#[verifier::external_body]
fn host_clone(list: &soroban_sdk::Vec<u64>) -> (copy: soroban_sdk::Vec<u64>)
    ensures
        host_ids(copy) == host_ids(*list),
{
    list.clone()
}

/// Whether `i` is the first position of `s` that holds `id`.
pub open spec fn is_first_at(s: Seq<u64>, id: u64, i: int) -> bool {
    &&& 0 <= i < s.len()
    &&& s[i] == id
    &&& forall|j: int| 0 <= j < i ==> s[j] != id
}

/// `s` without the first occurrence of `id`; `s` itself where `id` does
/// not occur.
pub open spec fn without_first(s: Seq<u64>, id: u64) -> Seq<u64> {
    if s.contains(id) {
        s.remove(choose|i: int| is_first_at(s, id, i))
    } else {
        s
    }
}

/// A value has at most one first position.
pub proof fn lemma_first_is_unique(s: Seq<u64>, id: u64, i: int, j: int)
    requires
        is_first_at(s, id, i),
        is_first_at(s, id, j),
    ensures
        i == j,
{
    if i < j {
        assert(s[i] != id);
    } else if j < i {
        assert(s[j] != id);
    }
}

/// Removing the first occurrence at a known position.
pub proof fn lemma_without_first_at(s: Seq<u64>, id: u64, i: int)
    requires
        is_first_at(s, id, i),
    ensures
        without_first(s, id) == s.remove(i),
{
    assert(s.contains(id));
    let k = choose|k: int| is_first_at(s, id, k);
    lemma_first_is_unique(s, id, i, k);
}

/// In a list without repetitions, removing an identifier leaves exactly
/// the other members, still without repetitions.
pub proof fn lemma_without_first_members(s: Seq<u64>, id: u64)
    requires
        s.no_duplicates(),
    ensures
        without_first(s, id).no_duplicates(),
        !without_first(s, id).contains(id),
        forall|x: u64| x != id ==> (without_first(s, id).contains(x) <==> s.contains(x)),
        without_first(s, id).len() == if s.contains(id) { s.len() - 1 } else { s.len() as int },
{
    if s.contains(id) {
        let i = choose|i: int| is_first_at(s, id, i);
        let p = choose|p: int| 0 <= p < s.len() && s[p] == id;
        lemma_has_first(s, id, p);
        let r = s.remove(i);
        assert forall|a: int, b: int| 0 <= a < r.len() && 0 <= b < r.len() && a != b implies r[a]
            != r[b] by {
            let a2 = if a < i { a } else { a + 1 };
            let b2 = if b < i { b } else { b + 1 };
            assert(r[a] == s[a2]);
            assert(r[b] == s[b2]);
        }
        assert(!r.contains(id)) by {
            if r.contains(id) {
                let a = choose|a: int| 0 <= a < r.len() && r[a] == id;
                let a2 = if a < i { a } else { a + 1 };
                assert(r[a] == s[a2]);
                assert(s[a2] == s[i]);
            }
        }
        assert forall|x: u64| x != id implies (r.contains(x) <==> s.contains(x)) by {
            if r.contains(x) {
                let a = choose|a: int| 0 <= a < r.len() && r[a] == x;
                let a2 = if a < i { a } else { a + 1 };
                assert(s[a2] == x);
            }
            if s.contains(x) {
                let a = choose|a: int| 0 <= a < s.len() && s[a] == x;
                let a2 = if a < i { a } else { a - 1 };
                assert(r[a2] == x);
            }
        }
    }
}

/// A value that occurs has a first position.
pub proof fn lemma_has_first(s: Seq<u64>, id: u64, p: int)
    requires
        0 <= p < s.len(),
        s[p] == id,
    ensures
        exists|i: int| is_first_at(s, id, i),
    decreases p,
{
    if forall|j: int| 0 <= j < p ==> s[j] != id {
        assert(is_first_at(s, id, p));
    } else {
        let j = choose|j: int| 0 <= j < p && s[j] == id;
        lemma_has_first(s, id, j);
    }
}

/// Removing an identifier never lengthens a list.
pub proof fn lemma_without_first_len(s: Seq<u64>, id: u64)
    ensures
        without_first(s, id).len() <= s.len(),
{
    if s.contains(id) {
        let p = choose|p: int| 0 <= p < s.len() && s[p] == id;
        lemma_has_first(s, id, p);
    }
}

/// Appending an identifier that the list lacks keeps it free of
/// repetitions and adds that one member.
pub proof fn lemma_push_members(s: Seq<u64>, id: u64)
    ensures
        forall|x: u64| s.push(id).contains(x) <==> (x == id || s.contains(x)),
        s.no_duplicates() && !s.contains(id) ==> s.push(id).no_duplicates(),
{
    let t = s.push(id);
    assert forall|x: u64| t.contains(x) <==> (x == id || s.contains(x)) by {
        if t.contains(x) {
            let a = choose|a: int| 0 <= a < t.len() && t[a] == x;
            if a < s.len() {
                assert(s[a] == x);
            }
        }
        if s.contains(x) {
            let a = choose|a: int| 0 <= a < s.len() && s[a] == x;
            assert(t[a] == x);
        }
        assert(t[s.len() as int] == id);
    }
    if s.no_duplicates() && !s.contains(id) {
        assert forall|a: int, b: int| 0 <= a < t.len() && 0 <= b < t.len() && a != b implies t[a]
            != t[b] by {
            if a < s.len() {
                assert(s[a] == t[a]);
                assert(s.contains(t[a]));
            }
            if b < s.len() {
                assert(s[b] == t[b]);
                assert(s.contains(t[b]));
            }
        }
    }
}

/// Appending an identifier to a list that lacks it and taking its first
/// occurrence off again gives the list back.
pub proof fn lemma_push_then_remove(s: Seq<u64>, id: u64)
    requires
        !s.contains(id),
    ensures
        without_first(s.push(id), id) == s,
{
    let t = s.push(id);
    let last = s.len() as int;
    assert(t[last] == id);
    assert forall|j: int| 0 <= j < last implies t[j] != id by {
        assert(t[j] == s[j]);
        assert(s.contains(s[j]));
    }
    lemma_without_first_at(t, id, last);
    assert(t.remove(last) =~= s);
}

/// An ordered list of identifiers. Its view is the sequence it holds.
pub struct IdList {
    list: soroban_sdk::Vec<u64>,
}

impl View for IdList {
    type V = Seq<u64>;

    /// The identifiers held, in order.
    closed spec fn view(&self) -> Seq<u64> {
        host_ids(self.list)
    }
}

impl IdList {
    /// An empty list.
    pub fn new(env: &soroban_sdk::Env) -> (r: Self)
        ensures
            r@ == Seq::<u64>::empty(),
    {
        IdList { list: host_new(env) }
    }

    /// The list that holds `ids`, in their order.
    pub fn from_ids(env: &soroban_sdk::Env, ids: &Vec<u64>) -> (r: Self)
        requires
            ids@.len() <= u32::MAX,
        ensures
            r@ == ids@,
    {
        let mut r = IdList::new(env);
        let mut i: usize = 0;
        while i < ids.len()
            invariant
                i <= ids@.len() <= u32::MAX,
                r@ == ids@.take(i as int),
            decreases ids@.len() - i,
        {
            r.push(ids[i]);
            assert(ids@.take(i as int).push(ids@[i as int]) == ids@.take(i + 1));
            i += 1;
        }
        assert(ids@.take(i as int) == ids@);
        r
    }

    /// The number of identifiers held.
    pub fn len(&self) -> (n: u32)
        ensures
            n as nat == self@.len(),
    {
        host_len(&self.list)
    }

    /// Whether the list holds nothing.
    pub fn is_empty(&self) -> (r: bool)
        ensures
            r == (self@.len() == 0),
    {
        host_len(&self.list) == 0
    }

    /// The identifier at position `i`, if there is one.
    pub fn get(&self, i: u32) -> (item: Option<u64>)
        ensures
            item == if (i as int) < self@.len() {
                Some(self@[i as int])
            } else {
                None
            },
    {
        host_get(&self.list, i)
    }

    /// The first position that holds `id`, if `id` occurs at all.
    pub fn position(&self, id: u64) -> (r: Option<u32>)
        ensures
            match r {
                Some(i) => is_first_at(self@, id, i as int),
                None => !self@.contains(id),
            },
    {
        let n = self.len();
        let mut i: u32 = 0;
        while i < n
            invariant
                n as nat == self@.len(),
                i <= n,
                forall|j: int| 0 <= j < i ==> self@[j] != id,
            decreases n - i,
        {
            let item = self.get(i);
            if item == Some(id) {
                return Some(i);
            }
            i += 1;
        }
        None
    }

    /// Whether `id` occurs in the list.
    pub fn contains(&self, id: u64) -> (r: bool)
        ensures
            r == self@.contains(id),
    {
        self.position(id).is_some()
    }

    /// Appends `id`.
    pub fn push(&mut self, id: u64)
        requires
            old(self)@.len() < u32::MAX,
        ensures
            final(self)@ == old(self)@.push(id),
    {
        host_push_back(&mut self.list, id)
    }

    /// Appends `id` where the list has room for it, and says whether it
    /// did. A list that holds as many identifiers as a position can count
    /// stays as it is.
    pub fn try_push(&mut self, id: u64) -> (pushed: bool)
        ensures
            pushed == (old(self)@.len() < u32::MAX),
            final(self)@ == if pushed {
                old(self)@.push(id)
            } else {
                old(self)@
            },
    {
        if self.len() < u32::MAX {
            self.push(id);
            true
        } else {
            false
        }
    }

    /// Removes the first occurrence of `id` and says whether there was one.
    pub fn remove_first(&mut self, id: u64) -> (removed: bool)
        ensures
            final(self)@ == without_first(old(self)@, id),
            removed == old(self)@.contains(id),
    {
        match self.position(id) {
            Some(i) => {
                proof {
                    lemma_without_first_at(self@, id, i as int);
                }
                let _ = host_remove(&mut self.list, i);
                true
            },
            None => false,
        }
    }

    /// A second handle on the same list of identifiers.
    pub fn duplicate(&self) -> (copy: Self)
        ensures
            copy@ == self@,
    {
        IdList { list: host_clone(&self.list) }
    }

    /// The host vector that holds the identifiers, for keeping in storage.
    pub fn to_host(&self) -> (list: soroban_sdk::Vec<u64>)
        ensures
            host_ids(list) == self@,
    {
        host_clone(&self.list)
    }

    /// The identifiers as an ordinary vector.
    pub fn to_vec(&self) -> (ids: Vec<u64>)
        ensures
            ids@ == self@,
    {
        let n = self.len();
        let mut ids: Vec<u64> = Vec::new();
        let mut i: u32 = 0;
        while i < n
            invariant
                n as nat == self@.len(),
                i <= n,
                ids@ == self@.take(i as int),
            decreases n - i,
        {
            let item = self.get(i);
            match item {
                Some(id) => {
                    ids.push(id);
                    assert(self@.take(i as int).push(self@[i as int]) == self@.take(i + 1));
                },
                None => {},
            }
            i += 1;
        }
        assert(self@.take(n as int) == self@);
        ids
    }
}

} // verus!
