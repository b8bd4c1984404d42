//! The assembler's symbol table: a mapping from symbolic names to 15-bit
//! addresses, pre-seeded with the fixed register and device aliases, grown by
//! label bindings during the first pass and by on-demand variable allocation
//! afterwards.

use vstd::hash_map::StringHashMap;
use vstd::prelude::*;

verus! {

/// The pre-seeded bindings: the sixteen general-purpose register aliases,
/// the screen and keyboard device addresses, and the calling-convention
/// aliases for the first five registers.
pub open spec fn initial_table() -> Map<Seq<char>, u16> {
    Map::empty().insert("R0"@, 0u16).insert("R1"@, 1u16).insert("R2"@, 2u16).insert(
        "R3"@,
        3u16,
    ).insert("R4"@, 4u16).insert("R5"@, 5u16).insert("R6"@, 6u16).insert("R7"@, 7u16).insert(
        "R8"@,
        8u16,
    ).insert("R9"@, 9u16).insert("R10"@, 10u16).insert("R11"@, 11u16).insert("R12"@, 12u16).insert(
        "R13"@,
        13u16,
    ).insert("R14"@, 14u16).insert("R15"@, 15u16).insert("SCREEN"@, 16384u16).insert(
        "KBD"@,
        24576u16,
    ).insert("SP"@, 0u16).insert("LCL"@, 1u16).insert("ARG"@, 2u16).insert("THIS"@, 3u16).insert(
        "THAT"@,
        4u16,
    )
}

/// The address a name resolves to against table `t` with high-water mark
/// `next`: its existing binding, or the next free address.
pub open spec fn resolve_addr(t: Map<Seq<char>, u16>, next: u16, name: Seq<char>) -> u16 {
    if t.contains_key(name) {
        t[name]
    } else {
        (next + 1) as u16
    }
}

/// The table after a name is resolved: unchanged for a bound name, extended
/// by a fresh binding otherwise.
pub open spec fn resolve_table(t: Map<Seq<char>, u16>, next: u16, name: Seq<char>) -> Map<
    Seq<char>,
    u16,
> {
    if t.contains_key(name) {
        t
    } else {
        t.insert(name, (next + 1) as u16)
    }
}

/// The high-water mark after a name is resolved.
pub open spec fn resolve_next(t: Map<Seq<char>, u16>, next: u16, name: Seq<char>) -> u16 {
    if t.contains_key(name) {
        next
    } else {
        (next + 1) as u16
    }
}

pub struct Symbols {
    next_free_address: u16,
    table: StringHashMap<u16>,
}

impl Symbols {
    /// The bindings held.
    pub closed spec fn table_view(&self) -> Map<Seq<char>, u16> {
        self.table@
    }

    /// The last address handed to a variable; the next allocation returns
    /// one more.
    pub closed spec fn next_free(&self) -> u16 {
        self.next_free_address
    }

    /// A table holding exactly the pre-seeded bindings, with variable
    /// allocation starting one past the last fixed register.
    pub fn new() -> (r: Symbols)
        ensures
            r.table_view() == initial_table(),
            r.next_free() == 15,
    {
        let mut table: StringHashMap<u16> = StringHashMap::new();
        table.insert("R0".to_owned(), 0);
        table.insert("R1".to_owned(), 1);
        table.insert("R2".to_owned(), 2);
        table.insert("R3".to_owned(), 3);
        table.insert("R4".to_owned(), 4);
        table.insert("R5".to_owned(), 5);
        table.insert("R6".to_owned(), 6);
        table.insert("R7".to_owned(), 7);
        table.insert("R8".to_owned(), 8);
        table.insert("R9".to_owned(), 9);
        table.insert("R10".to_owned(), 10);
        table.insert("R11".to_owned(), 11);
        table.insert("R12".to_owned(), 12);
        table.insert("R13".to_owned(), 13);
        table.insert("R14".to_owned(), 14);
        table.insert("R15".to_owned(), 15);
        table.insert("SCREEN".to_owned(), 16384);
        table.insert("KBD".to_owned(), 24576);
        table.insert("SP".to_owned(), 0);
        table.insert("LCL".to_owned(), 1);
        table.insert("ARG".to_owned(), 2);
        table.insert("THIS".to_owned(), 3);
        table.insert("THAT".to_owned(), 4);
        Symbols { next_free_address: 15, table }
    }

    /// Returns the binding of a name, allocating the next free address for a
    /// name not yet bound.
    pub fn get_address(&mut self, symbol: String) -> (addr: u16)
        requires
            old(self).table_view().contains_key(symbol@) || old(self).next_free() < 65535,
        ensures
            addr == resolve_addr(old(self).table_view(), old(self).next_free(), symbol@),
            final(self).table_view() == resolve_table(
                old(self).table_view(),
                old(self).next_free(),
                symbol@,
            ),
            final(self).next_free() == resolve_next(
                old(self).table_view(),
                old(self).next_free(),
                symbol@,
            ),
    {
        let found = self.table.get(symbol.as_str());
        match found {
            Some(address) => *address,
            None => self.add_variable(symbol),
        }
    }

    /// Resolves a name where possible: a bound name always resolves, and a
    /// fresh name resolves while a free address remains below the top of the
    /// address space.
    pub fn try_get_address(&mut self, symbol: String) -> (r: Option<u16>)
        ensures
            r is Some <==> (old(self).table_view().contains_key(symbol@)
                || old(self).next_free() < 65535),
            r is Some ==> r->Some_0 == resolve_addr(
                old(self).table_view(),
                old(self).next_free(),
                symbol@,
            ),
            r is Some ==> final(self).table_view() == resolve_table(
                old(self).table_view(),
                old(self).next_free(),
                symbol@,
            ) && final(self).next_free() == resolve_next(
                old(self).table_view(),
                old(self).next_free(),
                symbol@,
            ),
            r is None ==> final(self).table_view() == old(self).table_view()
                && final(self).next_free() == old(self).next_free(),
    {
        if self.table.contains_key(symbol.as_str()) || self.next_free_address < 65535 {
            Some(self.get_address(symbol))
        } else {
            None
        }
    }

    /// Binds a fresh variable name to the next free address.
    fn add_variable(&mut self, symbol: String) -> (addr: u16)
        requires
            old(self).next_free() < 65535,
        ensures
            addr == old(self).next_free() + 1,
            final(self).next_free() == addr,
            final(self).table_view() == old(self).table_view().insert(symbol@, addr),
    {
        self.next_free_address = self.next_free_address + 1;
        self.table.insert(symbol, self.next_free_address);
        self.next_free_address
    }

    /// Binds a label name to an instruction address, overwriting any earlier
    /// binding; used only by the label pre-pass.
    pub fn add_jump_symbol(&mut self, symbol: String, address: u16)
        ensures
            final(self).table_view() == old(self).table_view().insert(symbol@, address),
            final(self).next_free() == old(self).next_free(),
    {
        self.table.insert(symbol, address);
    }
}

/// Resolving a name settles it: resolving the same name again returns the
/// same address and leaves both the table and the high-water mark unchanged.
pub proof fn lemma_resolve_idempotent(t: Map<Seq<char>, u16>, next: u16, name: Seq<char>)
    ensures
        resolve_addr(
            resolve_table(t, next, name),
            resolve_next(t, next, name),
            name,
        ) == resolve_addr(t, next, name),
        resolve_table(resolve_table(t, next, name), resolve_next(t, next, name), name)
            == resolve_table(t, next, name),
        resolve_next(resolve_table(t, next, name), resolve_next(t, next, name), name)
            == resolve_next(t, next, name),
{
}

/// Two names not yet bound, resolved one after the other, receive strictly
/// increasing addresses: the second is one above the first.
pub proof fn lemma_fresh_addresses_increase(
    t: Map<Seq<char>, u16>,
    next: u16,
    n1: Seq<char>,
    n2: Seq<char>,
)
    requires
        next + 2 <= 65535,
        !t.contains_key(n1),
        !resolve_table(t, next, n1).contains_key(n2),
    ensures
        resolve_addr(t, next, n1) == next + 1,
        resolve_addr(resolve_table(t, next, n1), resolve_next(t, next, n1), n2) == next + 2,
        resolve_addr(resolve_table(t, next, n1), resolve_next(t, next, n1), n2) > resolve_addr(
            t,
            next,
            n1,
        ),
{
}

/// With the pre-seeded table, the first unseen variable name receives
/// address sixteen, one past the last fixed register.
pub proof fn lemma_first_variable_address(name: Seq<char>)
    requires
        !initial_table().contains_key(name),
    ensures
        resolve_addr(initial_table(), 15, name) == 16,
{
}

} // verus!
