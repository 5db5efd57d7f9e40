//! Static register map: a bidirectional address-to-name lookup, built once at
//! configuration time and read-only afterwards.

use vstd::prelude::*;

verus! {

/// Byte-vector equality.
pub fn bytes_eq(a: &Vec<u8>, b: &Vec<u8>) -> (r: bool)
    ensures
        r <==> a@ == b@,
{
    if a.len() != b.len() {
        proof {
            assert(a@.len() != b@.len());
        }
        return false;
    }
    let mut i: usize = 0;
    while i < a.len()
        invariant
            0 <= i <= a@.len(),
            a@.len() == b@.len(),
            forall|j: int| 0 <= j < i ==> a@[j] == b@[j],
        decreases a@.len() - i,
    {
        if a[i] != b[i] {
            return false;
        }
        i = i + 1;
    }
    proof {
        assert(a@ =~= b@);
    }
    true
}

/// The name mapped to `addr`, if any: first match in entry order.
pub open spec fn spec_name_of(entries: Seq<(u16, Vec<u8>)>, addr: u16) -> Option<Seq<u8>>
    decreases entries.len(),
{
    if entries.len() == 0 {
        None
    } else if entries[0].0 == addr {
        Some(entries[0].1@)
    } else {
        spec_name_of(entries.drop_first(), addr)
    }
}

/// The address mapped to `name`, if any: first match in entry order.
pub open spec fn spec_addr_of(entries: Seq<(u16, Vec<u8>)>, name: Seq<u8>) -> Option<u16>
    decreases entries.len(),
{
    if entries.len() == 0 {
        None
    } else if entries[0].1@ == name {
        Some(entries[0].0)
    } else {
        spec_addr_of(entries.drop_first(), name)
    }
}

/// Address to register-name lookup, bidirectional: no two entries share an
/// address and no two entries share a name.
pub struct RegisterMap {
    pub entries: Vec<(u16, Vec<u8>)>,
}

impl RegisterMap {
    /// Well-formedness: addresses and names are each unique.
    pub open spec fn wf(self) -> bool {
        forall|i: int, j: int|
            0 <= i < j < self.entries@.len() ==> (#[trigger] self.entries@[i]).0 != (
            #[trigger] self.entries@[j]).0 && self.entries@[i].1@ != self.entries@[j].1@
    }

    /// The map an address is taken to, as a mathematical view.
    pub open spec fn name_of(self, addr: u16) -> Option<Seq<u8>> {
        spec_name_of(self.entries@, addr)
    }

    /// The address a name is taken to, as a mathematical view.
    pub open spec fn addr_of(self, name: Seq<u8>) -> Option<u16> {
        spec_addr_of(self.entries@, name)
    }

    /// An empty map.
    pub fn new() -> (m: RegisterMap)
        ensures
            m.wf(),
            m.entries@.len() == 0,
    {
        RegisterMap { entries: Vec::new() }
    }

    /// How many registers the map holds.
    pub fn len(&self) -> (n: usize)
        ensures
            n == self.entries@.len(),
    {
        self.entries.len()
    }

    /// Add one address-name pair. Succeeds exactly when neither the address
    /// nor the name is present yet; on failure the map is unchanged.
    pub fn insert(&mut self, addr: u16, name: Vec<u8>) -> (ok: bool)
        requires
            old(self).wf(),
        ensures
            final(self).wf(),
            ok <==> (old(self).name_of(addr) is None && old(self).addr_of(name@) is None),
            ok ==> final(self).entries@ =~= old(self).entries@.push((addr, name)),
            !ok ==> final(self).entries@ =~= old(self).entries@,
    {
        let mut i: usize = 0;
        let mut addr_seen = false;
        let mut name_seen = false;
        while i < self.entries.len()
            invariant
                0 <= i <= self.entries@.len(),
                addr_seen <==> spec_name_of(self.entries@.take(i as int), addr) is Some,
                name_seen <==> spec_addr_of(self.entries@.take(i as int), name@) is Some,
            decreases self.entries@.len() - i,
        {
            proof {
                assert(self.entries@.take(i + 1) =~= self.entries@.take(i as int).push(
                    self.entries@[i as int],
                ));
                lemma_name_of_push(self.entries@.take(i as int), self.entries@[i as int], addr);
                lemma_addr_of_push(self.entries@.take(i as int), self.entries@[i as int], name@);
            }
            if self.entries[i].0 == addr {
                addr_seen = true;
            }
            if bytes_eq(&self.entries[i].1, &name) {
                name_seen = true;
            }
            i = i + 1;
        }
        proof {
            assert(self.entries@.take(self.entries@.len() as int) =~= self.entries@);
        }
        if addr_seen || name_seen {
            return false;
        }
        proof {
            lemma_absent_everywhere(self.entries@, addr, name@);
        }
        self.entries.push((addr, name));
        proof {
            let es = self.entries@;
            assert(es =~= old(self).entries@.push((addr, name)));
            assert forall|i: int, j: int| 0 <= i < j < es.len() implies (#[trigger] es[i]).0 != (
            #[trigger] es[j]).0 && es[i].1@ != es[j].1@ by {
                assert(es[i] == old(self).entries@[i]);
                if j < es.len() - 1 {
                    assert(es[j] == old(self).entries@[j]);
                } else {
                    assert(es[j] == (addr, name));
                }
            }
        }
        true
    }

    /// Look an address up, returning the register's name if the map holds it.
    pub fn lookup_name(&self, addr: u16) -> (r: Option<&Vec<u8>>)
        ensures
            r matches Some(n) ==> self.name_of(addr) == Some(n@),
            r is None <==> self.name_of(addr) is None,
    {
        proof {
            assert(self.entries@.skip(0) =~= self.entries@);
        }
        let mut i: usize = 0;
        while i < self.entries.len()
            invariant
                0 <= i <= self.entries@.len(),
                spec_name_of(self.entries@.skip(i as int), addr) == spec_name_of(
                    self.entries@,
                    addr,
                ),
            decreases self.entries@.len() - i,
        {
            proof {
                assert(self.entries@.skip(i as int)[0] == self.entries@[i as int]);
                assert(self.entries@.skip(i as int).drop_first() =~= self.entries@.skip(i + 1));
            }
            if self.entries[i].0 == addr {
                return Some(&self.entries[i].1);
            }
            i = i + 1;
        }
        proof {
            assert(self.entries@.skip(self.entries@.len() as int).len() == 0);
        }
        None
    }

    /// Look a name up, returning the register's address if the map holds it.
    pub fn lookup_address(&self, name: &Vec<u8>) -> (r: Option<u16>)
        ensures
            r == self.addr_of(name@),
    {
        proof {
            assert(self.entries@.skip(0) =~= self.entries@);
        }
        let mut i: usize = 0;
        while i < self.entries.len()
            invariant
                0 <= i <= self.entries@.len(),
                spec_addr_of(self.entries@.skip(i as int), name@) == spec_addr_of(
                    self.entries@,
                    name@,
                ),
            decreases self.entries@.len() - i,
        {
            proof {
                assert(self.entries@.skip(i as int)[0] == self.entries@[i as int]);
                assert(self.entries@.skip(i as int).drop_first() =~= self.entries@.skip(i + 1));
            }
            if bytes_eq(&self.entries[i].1, name) {
                return Some(self.entries[i].0);
            }
            i = i + 1;
        }
        proof {
            assert(self.entries@.skip(self.entries@.len() as int).len() == 0);
        }
        None
    }
}

/// Appending one entry to the scanned prefix extends a first-match search by
/// exactly that entry.
proof fn lemma_name_of_push(entries: Seq<(u16, Vec<u8>)>, x: (u16, Vec<u8>), addr: u16)
    ensures
        spec_name_of(entries.push(x), addr) is Some <==> (spec_name_of(entries, addr) is Some
            || x.0 == addr),
    decreases entries.len(),
{
    if entries.len() == 0 {
        assert(entries.push(x)[0] == x);
        assert(entries.push(x).drop_first() =~= Seq::<(u16, Vec<u8>)>::empty());
        assert(spec_name_of(Seq::<(u16, Vec<u8>)>::empty(), addr) is None);
    } else {
        assert(entries.push(x)[0] == entries[0]);
        assert(entries.push(x).drop_first() =~= entries.drop_first().push(x));
        lemma_name_of_push(entries.drop_first(), x, addr);
    }
}

/// Appending one entry to the scanned prefix extends a first-match search by
/// exactly that entry.
proof fn lemma_addr_of_push(entries: Seq<(u16, Vec<u8>)>, x: (u16, Vec<u8>), name: Seq<u8>)
    ensures
        spec_addr_of(entries.push(x), name) is Some <==> (spec_addr_of(entries, name) is Some
            || x.1@ == name),
    decreases entries.len(),
{
    if entries.len() == 0 {
        assert(entries.push(x)[0] == x);
        assert(entries.push(x).drop_first() =~= Seq::<(u16, Vec<u8>)>::empty());
        assert(spec_addr_of(Seq::<(u16, Vec<u8>)>::empty(), name) is None);
    } else {
        assert(entries.push(x)[0] == entries[0]);
        assert(entries.push(x).drop_first() =~= entries.drop_first().push(x));
        lemma_addr_of_push(entries.drop_first(), x, name);
    }
}

/// A pair absent from a map stays absent after pushing a different pair is
/// checked: pushing `(addr, name)` onto entries free of both yields a map in
/// which lookups of `addr` and `name` find exactly the new pair.
proof fn lemma_absent_everywhere(entries: Seq<(u16, Vec<u8>)>, addr: u16, name: Seq<u8>)
    requires
        spec_name_of(entries, addr) is None,
        spec_addr_of(entries, name) is None,
    ensures
        forall|j: int| 0 <= j < entries.len() ==> (#[trigger] entries[j]).0 != addr,
        forall|j: int| 0 <= j < entries.len() ==> (#[trigger] entries[j]).1@ != name,
    decreases entries.len(),
{
    if entries.len() > 0 {
        lemma_absent_everywhere(entries.drop_first(), addr, name);
        assert(forall|j: int|
            1 <= j < entries.len() ==> #[trigger] entries[j] == entries.drop_first()[j - 1]);
    }
}

} // verus!
