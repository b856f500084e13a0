//! Which connection is active for which driver. A selection, never a secret.
use crate::secrets::key::{ConnectionId, DriverId};
use crate::text::{before, lemma_precedes_total, lemma_precedes_transitive, precedes, same};
use vstd::prelude::*;

verus! {

/// The active connection of each driver that has one.
#[derive(Debug, PartialEq, Eq)]
pub struct ActiveConnections {
    /// Drivers and connections, in the order of the drivers' names.
    active: Vec<(String, ConnectionId)>,
}

spec fn in_order(s: Seq<(String, ConnectionId)>) -> bool {
    forall|i: int, j: int| 0 <= i < j < s.len() ==> precedes(#[trigger] s[i].0@, #[trigger] s[j].0@)
}

spec fn as_map(s: Seq<(String, ConnectionId)>) -> Map<Seq<char>, Seq<char>>
    decreases s.len(),
{
    if s.len() == 0 {
        Map::empty()
    } else {
        as_map(s.drop_last()).insert(s.last().0@, s.last().1@)
    }
}

proof fn lemma_as_map(s: Seq<(String, ConnectionId)>)
    requires
        in_order(s),
    ensures
        forall|i: int|
            #![trigger s[i]]
            0 <= i < s.len() ==> as_map(s).contains_key(s[i].0@) && as_map(s)[s[i].0@] == s[i].1@,
        forall|k: Seq<char>| #[trigger]
            as_map(s).contains_key(k) ==> exists|i: int|
                0 <= i < s.len() && #[trigger] s[i].0@ == k,
    decreases s.len(),
{
    if s.len() > 0 {
        let t = s.drop_last();
        assert(in_order(t)) by {
            assert forall|i: int, j: int| 0 <= i < j < t.len() implies precedes(
                #[trigger] t[i].0@,
                #[trigger] t[j].0@,
            ) by {
                assert(precedes(s[i].0@, s[j].0@));
            }
        }
        lemma_as_map(t);
        assert forall|i: int| #![trigger s[i]] 0 <= i < s.len() implies as_map(s).contains_key(
            s[i].0@,
        ) && as_map(s)[s[i].0@] == s[i].1@ by {
            if i < t.len() {
                assert(t[i] == s[i]);
                assert(precedes(s[i].0@, s[s.len() - 1].0@));
                lemma_precedes_total(s[i].0@, s.last().0@);
            }
        }
        assert forall|k: Seq<char>| #[trigger] as_map(s).contains_key(k) implies exists|i: int|
            0 <= i < s.len() && #[trigger] s[i].0@ == k by {
            if k != s.last().0@ {
                assert(as_map(t).contains_key(k));
                let i = choose|i: int| 0 <= i < t.len() && #[trigger] t[i].0@ == k;
                assert(s[i].0@ == k);
            } else {
                assert(s[s.len() - 1].0@ == k);
            }
        }
    }
}

impl View for ActiveConnections {
    type V = Map<Seq<char>, Seq<char>>;

    closed spec fn view(&self) -> Map<Seq<char>, Seq<char>> {
        as_map(self.active@)
    }
}

/// Where `key` stands in `s`, or would stand.
fn position(s: &Vec<(String, ConnectionId)>, key: &str) -> (i: usize)
    requires
        in_order(s@),
    ensures
        i <= s.len(),
        forall|j: int| 0 <= j < i ==> precedes(#[trigger] s@[j].0@, key@),
        i < s.len() ==> !precedes(s@[i as int].0@, key@),
{
    let mut i: usize = 0;
    while i < s.len() && before(s[i].0.as_str(), key)
        invariant
            i <= s.len(),
            forall|j: int| 0 <= j < i ==> precedes(#[trigger] s@[j].0@, key@),
        decreases s.len() - i,
    {
        i = i + 1;
    }
    i
}

/// A key that does not stand at its position stands nowhere.
proof fn lemma_absent(s: Seq<(String, ConnectionId)>, key: Seq<char>, i: int)
    requires
        in_order(s),
        0 <= i <= s.len(),
        forall|j: int| 0 <= j < i ==> precedes(#[trigger] s[j].0@, key),
        i < s.len() ==> precedes(key, s[i].0@),
    ensures
        forall|j: int| 0 <= j < s.len() ==> #[trigger] s[j].0@ != key,
        forall|j: int| i <= j < s.len() ==> precedes(key, #[trigger] s[j].0@),
{
    assert forall|j: int| i <= j < s.len() implies precedes(key, #[trigger] s[j].0@) by {
        if j > i {
            assert(precedes(s[i].0@, s[j].0@));
            lemma_precedes_transitive(key, s[i].0@, s[j].0@);
        }
    }
    assert forall|j: int| 0 <= j < s.len() implies #[trigger] s[j].0@ != key by {
        lemma_precedes_total(s[j].0@, key);
    }
}

/// Two ordered lists with the same entries at every key are the same map.
proof fn lemma_same_map(s: Seq<(String, ConnectionId)>, m: Map<Seq<char>, Seq<char>>)
    requires
        in_order(s),
        forall|i: int|
            #![trigger s[i]]
            0 <= i < s.len() ==> m.contains_key(s[i].0@) && m[s[i].0@] == s[i].1@,
        forall|k: Seq<char>| #[trigger]
            m.contains_key(k) ==> exists|i: int| 0 <= i < s.len() && #[trigger] s[i].0@ == k,
    ensures
        as_map(s) == m,
{
    lemma_as_map(s);
    assert forall|k: Seq<char>| as_map(s).contains_key(k) == m.contains_key(k) by {
        if as_map(s).contains_key(k) {
            let i = choose|i: int| 0 <= i < s.len() && #[trigger] s[i].0@ == k;
            assert(m.contains_key(s[i].0@));
        }
        if m.contains_key(k) {
            let i = choose|i: int| 0 <= i < s.len() && #[trigger] s[i].0@ == k;
            assert(as_map(s).contains_key(s[i].0@));
        }
    }
    assert forall|k: Seq<char>| #[trigger] m.contains_key(k) implies as_map(s)[k] == m[k] by {
        let i = choose|i: int| 0 <= i < s.len() && #[trigger] s[i].0@ == k;
        assert(as_map(s)[s[i].0@] == s[i].1@);
    }
    assert(as_map(s) =~= m);
}

impl ActiveConnections {
    #[verifier::type_invariant]
    spec fn inv(self) -> bool {
        in_order(self.active@)
    }

    /// No driver has an active connection.
    #[must_use]
    pub fn new() -> (r: ActiveConnections)
        ensures
            r@ == Map::<Seq<char>, Seq<char>>::empty(),
    {
        ActiveConnections { active: Vec::new() }
    }

    /// The active connection of `driver`, if it has one.
    #[must_use]
    pub fn get(&self, driver: &DriverId) -> (r: Option<&ConnectionId>)
        ensures
            r is Some <==> self@.contains_key(driver@),
            r matches Some(c) ==> c@ == self@[driver@],
    {
        proof {
            use_type_invariant(self);
            lemma_as_map(self.active@);
        }
        let i: usize = position(&self.active, driver.as_str());
        if i < self.active.len() && same(self.active[i].0.as_str(), driver.as_str()) {
            return Some(&self.active[i].1);
        }
        proof {
            if i < self.active@.len() {
                lemma_precedes_total(self.active@[i as int].0@, driver@);
            }
            lemma_absent(self.active@, driver@, i as int);
        }
        None
    }

    /// Makes `connection` the active one of `driver`. The last one set counts.
    pub fn set(&mut self, driver: &DriverId, connection: ConnectionId)
        ensures
            final(self)@ == old(self)@.insert(driver@, connection@),
    {
        proof {
            use_type_invariant(&*self);
            lemma_as_map(self.active@);
        }
        let ghost m = self@.insert(driver@, connection@);
        let mut active: Vec<(String, ConnectionId)> = Vec::new();
        std::mem::swap(&mut self.active, &mut active);
        let ghost was = active@;
        let ghost added = connection@;
        let i: usize = position(&active, driver.as_str());
        if i < active.len() && same(active[i].0.as_str(), driver.as_str()) {
            let name: String = driver.as_str().to_owned();
            active.set(i, (name, connection));
            proof {
                let now = active@;
                assert forall|a: int, b: int| 0 <= a < b < now.len() implies precedes(
                    #[trigger] now[a].0@,
                    #[trigger] now[b].0@,
                ) by {
                    assert(now[a].0@ == was[a].0@);
                    assert(now[b].0@ == was[b].0@);
                }
                assert forall|j: int| #![trigger now[j]] 0 <= j < now.len() implies m.contains_key(
                    now[j].0@,
                ) && m[now[j].0@] == now[j].1@ by {
                    if j != i {
                        assert(now[j] == was[j]);
                        if j < i {
                            lemma_precedes_total(was[j].0@, was[i as int].0@);
                        } else {
                            lemma_precedes_total(was[i as int].0@, was[j].0@);
                        }
                    }
                }
                assert forall|k: Seq<char>| #[trigger] m.contains_key(k) implies exists|j: int|
                    0 <= j < now.len() && #[trigger] now[j].0@ == k by {
                    if k == driver@ {
                        assert(now[i as int].0@ == k);
                    } else {
                        let j = choose|j: int| 0 <= j < was.len() && #[trigger] was[j].0@ == k;
                        assert(now[j].0@ == k);
                    }
                }
                lemma_same_map(now, m);
            }
        } else {
            proof {
                if i < was.len() {
                    lemma_precedes_total(was[i as int].0@, driver@);
                }
                lemma_absent(was, driver@, i as int);
            }
            let name: String = driver.as_str().to_owned();
            active.insert(i, (name, connection));
            proof {
                let now = active@;
                assert forall|a: int, b: int| 0 <= a < b < now.len() implies precedes(
                    #[trigger] now[a].0@,
                    #[trigger] now[b].0@,
                ) by {
                    let wa = if a < i {
                        a
                    } else {
                        a - 1
                    };
                    let wb = if b < i {
                        b
                    } else {
                        b - 1
                    };
                    if a != i {
                        assert(now[a] == was[wa]);
                    }
                    if b != i {
                        assert(now[b] == was[wb]);
                    }
                }
                assert forall|j: int| #![trigger now[j]] 0 <= j < now.len() implies m.contains_key(
                    now[j].0@,
                ) && m[now[j].0@] == now[j].1@ by {
                    if j < i {
                        assert(now[j] == was[j]);
                    } else if j > i {
                        assert(now[j] == was[j - 1]);
                    }
                }
                assert forall|k: Seq<char>| #[trigger] m.contains_key(k) implies exists|j: int|
                    0 <= j < now.len() && #[trigger] now[j].0@ == k by {
                    if k == driver@ {
                        assert(now[i as int].0@ == k);
                    } else {
                        let j = choose|j: int| 0 <= j < was.len() && #[trigger] was[j].0@ == k;
                        if j < i {
                            assert(now[j].0@ == k);
                        } else {
                            assert(now[j + 1].0@ == k);
                        }
                    }
                }
                lemma_same_map(now, m);
            }
        }
        self.active = active;
    }

    /// Leaves `driver` without an active connection.
    pub fn clear(&mut self, driver: &DriverId)
        ensures
            final(self)@ == old(self)@.remove(driver@),
    {
        proof {
            use_type_invariant(&*self);
            lemma_as_map(self.active@);
        }
        let ghost m = self@.remove(driver@);
        let mut active: Vec<(String, ConnectionId)> = Vec::new();
        std::mem::swap(&mut self.active, &mut active);
        let ghost was = active@;
        let i: usize = position(&active, driver.as_str());
        if i < active.len() && same(active[i].0.as_str(), driver.as_str()) {
            let _ = active.remove(i);
            proof {
                let now = active@;
                assert forall|a: int, b: int| 0 <= a < b < now.len() implies precedes(
                    #[trigger] now[a].0@,
                    #[trigger] now[b].0@,
                ) by {
                    let wa = if a < i {
                        a
                    } else {
                        a + 1
                    };
                    let wb = if b < i {
                        b
                    } else {
                        b + 1
                    };
                    assert(now[a] == was[wa]);
                    assert(now[b] == was[wb]);
                }
                assert forall|j: int| #![trigger now[j]] 0 <= j < now.len() implies m.contains_key(
                    now[j].0@,
                ) && m[now[j].0@] == now[j].1@ by {
                    if j < i {
                        assert(now[j] == was[j]);
                        lemma_precedes_total(was[j].0@, was[i as int].0@);
                    } else {
                        assert(now[j] == was[j + 1]);
                        lemma_precedes_total(was[i as int].0@, was[j + 1].0@);
                    }
                }
                assert forall|k: Seq<char>| #[trigger] m.contains_key(k) implies exists|j: int|
                    0 <= j < now.len() && #[trigger] now[j].0@ == k by {
                    let j = choose|j: int| 0 <= j < was.len() && #[trigger] was[j].0@ == k;
                    if j < i {
                        assert(now[j].0@ == k);
                    } else {
                        assert(j != i);
                        assert(now[j - 1].0@ == k);
                    }
                }
                lemma_same_map(now, m);
            }
        } else {
            proof {
                if i < was.len() {
                    lemma_precedes_total(was[i as int].0@, driver@);
                }
                lemma_absent(was, driver@, i as int);
                assert(m =~= as_map(was));
            }
        }
        self.active = active;
    }

    /// The drivers that have an active connection, each with it, in the order of their names.
    #[must_use]
    pub fn entries(&self) -> (r: Vec<(DriverId, ConnectionId)>)
        ensures
            forall|i: int|
                #![trigger r@[i]]
                0 <= i < r@.len() ==> self@.contains_key(r@[i].0@) && self@[r@[i].0@] == r@[i].1@,
            forall|k: Seq<char>| #[trigger]
                self@.contains_key(k) ==> exists|i: int|
                    0 <= i < r@.len() && #[trigger] r@[i].0@ == k,
            forall|i: int, j: int|
                0 <= i < j < r@.len() ==> precedes(#[trigger] r@[i].0@, #[trigger] r@[j].0@),
    {
        proof {
            use_type_invariant(self);
            lemma_as_map(self.active@);
        }
        let mut r: Vec<(DriverId, ConnectionId)> = Vec::new();
        let mut i: usize = 0;
        while i < self.active.len()
            invariant
                i <= self.active.len(),
                r@.len() == i,
                forall|j: int|
                    #![trigger r@[j]]
                    0 <= j < i ==> r@[j].0@ == self.active@[j].0@ && r@[j].1@ == self.active@[j].1@,
            decreases self.active.len() - i,
        {
            r.push((DriverId::new(self.active[i].0.as_str()), self.active[i].1.clone()));
            i = i + 1;
        }
        proof {
            let s = self.active@;
            assert forall|i: int| #![trigger r@[i]] 0 <= i < r@.len() implies self@.contains_key(
                r@[i].0@,
            ) && self@[r@[i].0@] == r@[i].1@ by {
                assert(self@.contains_key(s[i].0@));
            }
            assert forall|k: Seq<char>| #[trigger] self@.contains_key(k) implies exists|i: int|
                0 <= i < r@.len() && #[trigger] r@[i].0@ == k by {
                let i = choose|i: int| 0 <= i < s.len() && #[trigger] s[i].0@ == k;
                assert(r@[i].0@ == k);
            }
            assert forall|i: int, j: int| 0 <= i < j < r@.len() implies precedes(
                #[trigger] r@[i].0@,
                #[trigger] r@[j].0@,
            ) by {
                assert(precedes(s[i].0@, s[j].0@));
            }
        }
        r
    }

    /// Whether no driver has an active connection.
    #[must_use]
    pub fn is_empty(&self) -> (r: bool)
        ensures
            r == (self@ == Map::<Seq<char>, Seq<char>>::empty()),
    {
        proof {
            use_type_invariant(self);
            lemma_as_map(self.active@);
            if self.active@.len() > 0 {
                assert(self@.contains_key(self.active@[0].0@));
            }
        }
        self.active.len() == 0
    }
}

impl Default for ActiveConnections {
    fn default() -> (r: ActiveConnections)
        ensures
            r@ == Map::<Seq<char>, Seq<char>>::empty(),
    {
        ActiveConnections::new()
    }
}

/// The last one set counts: an earlier choice for the driver leaves no trace, and no other driver
/// is touched.
pub proof fn law_last_writer_wins(
    m: Map<Seq<char>, Seq<char>>,
    driver: Seq<char>,
    first: Seq<char>,
    last: Seq<char>,
)
    ensures
        m.insert(driver, first).insert(driver, last) == m.insert(driver, last),
        forall|other: Seq<char>|
            other != driver ==> (#[trigger] m.insert(driver, last).contains_key(other)
                <==> m.contains_key(other)),
        forall|other: Seq<char>|
            other != driver && m.contains_key(other) ==> #[trigger] m.insert(driver, last)[other]
                == m[other],
{
    assert(m.insert(driver, first).insert(driver, last) =~= m.insert(driver, last));
}

/// Clearing undoes setting, and clearing twice is clearing once.
pub proof fn law_clear_undoes_set(
    m: Map<Seq<char>, Seq<char>>,
    driver: Seq<char>,
    chosen: Seq<char>,
)
    ensures
        m.insert(driver, chosen).remove(driver) == m.remove(driver),
        m.remove(driver).remove(driver) == m.remove(driver),
        !m.remove(driver).contains_key(driver),
{
    assert(m.insert(driver, chosen).remove(driver) =~= m.remove(driver));
    assert(m.remove(driver).remove(driver) =~= m.remove(driver));
}

} // verus!
