//! Symbols: demangling, the table of function symbols read from a PDB file,
//! address-to-symbol and name-to-address resolution, and stack walking
//! along the frame-pointer chain.

use vstd::prelude::*;
use crate::pdbfile::{pdb_reads, pdb_section_list, pdb_symbol_records, read_pdb, PdbContents, PdbRecord};
use crate::text::{lowercase, occurs_in, str_eq, to_lowercase, contains_str, ends_with, decimal, hex, push_decimal, push_hex, starts_with};
use crate::printers::{from_utf8_lossy, utf8_lossy};
use crate::cargo::{join_path, path_join};
use crate::types::{DebugError, StackFrame, SymbolInfo};

verus! {

// ---------------------------------------------------------------------------
// Demangling
// ---------------------------------------------------------------------------

/// What `rustc_demangle::demangle(name).to_string()` gives for `name`.
pub uninterp spec fn demangled(name: Seq<char>) -> Seq<char>;

/// Names that no demangling scheme applies to: they start with neither
/// `_`, `Z` nor `R` and hold no `.llvm.` suffix.
pub open spec fn never_mangled(name: Seq<char>) -> bool {
    &&& (name.len() == 0 || (name[0] != '_' && name[0] != 'Z' && name[0] != 'R'))
    &&& !occurs_in(".llvm."@, name)
}

/// `rustc_demangle::demangle(name)` displayed. Claimed: the result is the
/// named function of the name, and a name that neither the legacy scheme
/// (`_ZN`, `ZN`, `__ZN`) nor the v0 scheme (`_R`, `R`, `__R`) starts, and
/// that holds no `.llvm.` suffix to strip, is shown unchanged. What a
/// mangled name demangles to is left unsaid.
#[verifier::external_body]
fn demangle_text(name: &str) -> (r: String)
    ensures
        r@ == demangled(name@),
        never_mangled(name@) ==> r@ == name@,
{
    rustc_demangle::demangle(name).to_string()
}

/// Demangle a Rust symbol name.
pub fn demangle(name: &str) -> (r: String)
    ensures
        r@ == demangled(name@),
        never_mangled(name@) ==> r@ == name@,
{
    demangle_text(name)
}

// ---------------------------------------------------------------------------
// The symbol table
// ---------------------------------------------------------------------------

/// Function symbols by name, each with its virtual address. A name occurs
/// at most once; the entries keep the order in which names first came.
pub struct PdbSymbolTable {
    entries: Vec<(String, u64)>,
}

/// The entries as plain text and addresses.
pub open spec fn entry_views(s: Seq<(String, u64)>) -> Seq<(Seq<char>, u64)> {
    s.map_values(|e: (String, u64)| (e.0@, e.1))
}

impl View for PdbSymbolTable {
    type V = Seq<(Seq<char>, u64)>;

    closed spec fn view(&self) -> Seq<(Seq<char>, u64)> {
        entry_views(self.entries@)
    }
}

/// No name occurs twice.
pub open spec fn unique_names(s: Seq<(Seq<char>, u64)>) -> bool {
    forall|i: int, j: int| 0 <= i < j < s.len() ==> #[trigger] s[i].0 != #[trigger] s[j].0
}

/// `name` has an entry.
pub open spec fn has_name(s: Seq<(Seq<char>, u64)>, name: Seq<char>) -> bool {
    exists|i: int| 0 <= i < s.len() && #[trigger] s[i].0 == name
}

/// The position of `name`'s entry (meaningful when it has one).
pub open spec fn name_position(s: Seq<(Seq<char>, u64)>, name: Seq<char>) -> int {
    choose|i: int| 0 <= i < s.len() && #[trigger] s[i].0 == name
}

/// The address recorded for `name` (`HashMap::get`).
pub open spec fn symbol_lookup(s: Seq<(Seq<char>, u64)>, name: Seq<char>) -> Option<u64> {
    if has_name(s, name) {
        Some(s[name_position(s, name)].1)
    } else {
        None
    }
}

/// The table after recording `name` at `address` (`HashMap::insert`): an
/// existing entry takes the new address, a new name goes last.
pub open spec fn symbol_insert(s: Seq<(Seq<char>, u64)>, name: Seq<char>, address: u64) -> Seq<(Seq<char>, u64)> {
    if has_name(s, name) {
        s.update(name_position(s, name), (name, address))
    } else {
        s.push((name, address))
    }
}

/// `a + b`, or `u64::MAX` when that overflows (`u64::saturating_add`).
pub open spec fn sat_add(a: u64, b: u64) -> u64 {
    if a + b > u64::MAX {
        u64::MAX
    } else {
        (a + b) as u64
    }
}

/// The virtual address of a section-relative offset in an image loaded at
/// `base`: the section's own address is added when the section (numbered
/// from one) is known; each addition saturates.
pub open spec fn virtual_address(section: u16, offset: u32, sections: Seq<u32>, base: u64) -> u64 {
    if section == 0 || section - 1 >= sections.len() {
        sat_add(base, offset as u64)
    } else {
        sat_add(sat_add(base, sections[section - 1] as u64), offset as u64)
    }
}

/// The name, section and offset of a record that names a function: a
/// public symbol flagged as a function, or a procedure.
pub open spec fn function_of(r: PdbRecord) -> Option<(Seq<char>, u16, u32)> {
    match r {
        PdbRecord::Public { function, name, section, offset } => if function {
            Some((name@, section, offset))
        } else {
            None
        },
        PdbRecord::Procedure { name, section, offset } => Some((name@, section, offset)),
        PdbRecord::Other => None,
    }
}

/// The table after one record: a function is recorded under its demangled
/// name and then under its raw name, both at its virtual address.
pub open spec fn add_record(s: Seq<(Seq<char>, u64)>, r: PdbRecord, sections: Seq<u32>, base: u64) -> Seq<(Seq<char>, u64)> {
    match function_of(r) {
        Some((name, section, offset)) => {
            let va = virtual_address(section, offset, sections, base);
            symbol_insert(symbol_insert(s, demangled(name), va), name, va)
        },
        None => s,
    }
}

/// The table the records build, in order, from an empty one.
pub open spec fn table_of(records: Seq<PdbRecord>, sections: Seq<u32>, base: u64) -> Seq<(Seq<char>, u64)>
    decreases records.len(),
{
    if records.len() == 0 {
        Seq::empty()
    } else {
        add_record(table_of(records.drop_last(), sections, base), records.last(), sections, base)
    }
}

/// Recording a name keeps names unique.
pub proof fn lemma_insert_unique(s: Seq<(Seq<char>, u64)>, name: Seq<char>, address: u64)
    requires
        unique_names(s),
    ensures
        unique_names(symbol_insert(s, name, address)),
{
    if has_name(s, name) {
        let p = name_position(s, name);
        assert(s[p].0 == name);
    }
}

/// A read after a write: the name just recorded gives the address just
/// recorded, and every other name gives what it gave before.
pub proof fn law_table_read_after_write(s: Seq<(Seq<char>, u64)>, name: Seq<char>, address: u64, other: Seq<char>)
    requires
        unique_names(s),
    ensures
        symbol_lookup(symbol_insert(s, name, address), name) == Some(address),
        other != name ==> symbol_lookup(symbol_insert(s, name, address), other) == symbol_lookup(s, other),
{
    let t = symbol_insert(s, name, address);
    lemma_insert_unique(s, name, address);
    if has_name(s, name) {
        let p = name_position(s, name);
        assert(s[p].0 == name);
        assert(t[p].0 == name);
    } else {
        assert(t[s.len() as int].0 == name);
    }
    assert(has_name(t, name));
    let q = name_position(t, name);
    assert(t[q].0 == name);
    if has_name(s, name) {
        let p = name_position(s, name);
        if q != p {
            assert(t[q].0 != t[p].0);
        }
    } else {
        if q != s.len() as int {
            assert(t[q] == s[q]);
        }
    }
    if other != name {
        if has_name(s, other) {
            let o = name_position(s, other);
            assert(s[o].0 == other);
            assert(t[o] == s[o]);
            assert(has_name(t, other));
            let o2 = name_position(t, other);
            assert(t[o2].0 == other);
            if o2 != o {
                assert(t[o2].0 != t[o].0);
            }
        } else {
            if has_name(t, other) {
                let o2 = name_position(t, other);
                assert(t[o2].0 == other);
                if has_name(s, name) {
                    assert(t[o2] == s[o2]);
                } else if o2 < s.len() {
                    assert(t[o2] == s[o2]);
                }
            }
        }
    }
}

/// A function record can be found afterwards by its raw name and by its
/// demangled name, both at its virtual address.
pub proof fn law_function_found_by_both_names(s: Seq<(Seq<char>, u64)>, r: PdbRecord, sections: Seq<u32>, base: u64)
    requires
        unique_names(s),
        function_of(r) is Some,
    ensures
        ({
            let (name, section, offset) = function_of(r)->0;
            let t = add_record(s, r, sections, base);
            let va = virtual_address(section, offset, sections, base);
            &&& symbol_lookup(t, name) == Some(va)
            &&& symbol_lookup(t, demangled(name)) == Some(va)
        }),
{
    let (name, section, offset) = function_of(r)->0;
    let va = virtual_address(section, offset, sections, base);
    let s1 = symbol_insert(s, demangled(name), va);
    law_table_read_after_write(s, demangled(name), va, name);
    lemma_insert_unique(s, demangled(name), va);
    law_table_read_after_write(s1, name, va, demangled(name));
}

fn saturating(a: u64, b: u64) -> (r: u64)
    ensures
        r == sat_add(a, b),
{
    if a > u64::MAX - b {
        u64::MAX
    } else {
        a + b
    }
}

/// The virtual address of a section-relative offset.
pub fn resolve_va(section: u16, offset: u32, sections: &Vec<u32>, base: u64) -> (r: u64)
    ensures
        r == virtual_address(section, offset, sections@, base),
{
    if section == 0 {
        return saturating(base, offset as u64);
    }
    let idx = (section - 1) as usize;
    if idx < sections.len() {
        saturating(saturating(base, sections[idx] as u64), offset as u64)
    } else {
        saturating(base, offset as u64)
    }
}

impl PdbSymbolTable {
    /// Names are unique.
    #[verifier::type_invariant]
    spec fn names_are_unique(self) -> bool {
        unique_names(entry_views(self.entries@))
    }

    /// An empty table.
    pub fn new() -> (r: Self)
        ensures
            r@ == Seq::<(Seq<char>, u64)>::empty(),
    {
        let r = PdbSymbolTable { entries: Vec::new() };
        assert(r@ =~= Seq::<(Seq<char>, u64)>::empty());
        r
    }

    /// The number of names.
    pub fn len(&self) -> (r: usize)
        ensures
            r == self@.len(),
    {
        self.entries.len()
    }

    /// The position of `name`'s entry, if it has one.
    fn position(&self, name: &str) -> (r: Option<usize>)
        ensures
            r is Some <==> has_name(self@, name@),
            r matches Some(i) ==> i < self@.len() && i == name_position(self@, name@),
    {
        proof {
            use_type_invariant(self);
        }
        let mut i: usize = 0;
        while i < self.entries.len()
            invariant
                i <= self.entries@.len(),
                self@.len() == self.entries@.len(),
                unique_names(self@),
                forall|j: int| 0 <= j < i ==> #[trigger] self@[j].0 != name@,
            decreases self.entries@.len() - i,
        {
            assert(self@[i as int].0 == self.entries@[i as int].0@);
            if str_eq(self.entries[i].0.as_str(), name) {
                assert(self@[i as int].0 == name@);
                proof {
                    assert(has_name(self@, name@));
                    let k = name_position(self@, name@);
                    assert(self@[k].0 == name@);
                    if k > i as int {
                        assert(self@[i as int].0 != self@[k].0);
                    }
                }
                return Some(i);
            }
            i = i + 1;
        }
        None
    }

    /// The address recorded for `name`.
    pub fn get(&self, name: &str) -> (r: Option<u64>)
        ensures
            r == symbol_lookup(self@, name@),
    {
        match self.position(name) {
            Some(i) => Some(self.entries[i].1),
            None => None,
        }
    }

    /// Records `name` at `address`, replacing an earlier address.
    pub fn insert(&mut self, name: String, address: u64)
        ensures
            final(self)@ == symbol_insert(old(self)@, name@, address),
    {
        proof {
            use_type_invariant(&*self);
        }
        let ghost s = self@;
        let ghost k = name@;
        let found = self.position(name.as_str());
        let mut entries: Vec<(String, u64)> = Vec::new();
        std::mem::swap(&mut entries, &mut self.entries);
        assert(entry_views(entries@) == s);
        match found {
            Some(i) => {
                entries.set(i, (name, address));
                assert(entry_views(entries@) =~= s.update(i as int, (k, address)));
            },
            None => {
                entries.push((name, address));
                assert(entry_views(entries@) =~= s.push((k, address)));
            },
        }
        self.entries = entries;
    }

    /// Applies one record.
    fn add(&mut self, record: &PdbRecord, sections: &Vec<u32>, base: u64)
        ensures
            final(self)@ == add_record(old(self)@, *record, sections@, base),
    {
        let (name, section, offset) = match record {
            PdbRecord::Public { function, name, section, offset } => {
                if !*function {
                    return;
                }
                (name, *section, *offset)
            },
            PdbRecord::Procedure { name, section, offset } => (name, *section, *offset),
            PdbRecord::Other => {
                return;
            },
        };
        let va = resolve_va(section, offset, sections, base);
        let d = demangle(name.as_str());
        self.insert(d, va);
        self.insert(name.clone(), va);
    }

    /// The table a PDB file's records build for an image loaded at `base`.
    pub fn from_contents(contents: &PdbContents, base: u64) -> (r: Self)
        ensures
            r@ == table_of(contents.records@, contents.sections@, base),
    {
        let mut t = PdbSymbolTable::new();
        let mut i: usize = 0;
        while i < contents.records.len()
            invariant
                i <= contents.records@.len(),
                t@ == table_of(contents.records@.subrange(0, i as int), contents.sections@, base),
            decreases contents.records@.len() - i,
        {
            let ghost before = contents.records@.subrange(0, i as int);
            assert(contents.records@.subrange(0, i + 1).drop_last() =~= before);
            t.add(&contents.records[i], &contents.sections, base);
            i = i + 1;
        }
        assert(contents.records@.subrange(0, i as int) =~= contents.records@);
        t
    }
}

/// The symbol table of a PDB file's bytes for an image loaded at `base`,
/// built from all its records; `None` when the file cannot be read as a
/// PDB (see `read_pdb`).
pub fn load_pdb_table(bytes: Vec<u8>, base: u64) -> (r: Option<PdbSymbolTable>)
    ensures
        r is Some <==> pdb_reads(bytes@),
        r matches Some(t) ==> t@ == table_of(pdb_symbol_records(bytes@), pdb_section_list(bytes@), base),
{
    match read_pdb(bytes) {
        Some(contents) => {
            let t = PdbSymbolTable::from_contents(&contents, base);
            Some(t)
        },
        None => None,
    }
}

// ---------------------------------------------------------------------------
// Address to symbol, by the table
// ---------------------------------------------------------------------------

/// Entry `i` is the one an address falls back on: the highest nonzero
/// address at or below it, and the first entry with that address.
pub open spec fn is_fallback(s: Seq<(Seq<char>, u64)>, address: u64, i: int) -> bool {
    &&& 0 <= i < s.len()
    &&& 0 < s[i].1 <= address
    &&& forall|j: int| 0 <= j < s.len() && 0 < #[trigger] s[j].1 <= address ==> s[j].1 <= s[i].1
    &&& forall|j: int| 0 <= j < i ==> #[trigger] s[j].1 != s[i].1
}

/// The fallback entry, when the address lies within 64 KiB after it.
pub open spec fn fallback_entry(s: Seq<(Seq<char>, u64)>, address: u64, i: int) -> bool {
    is_fallback(s, address, i) && address - s[i].1 < 0x10000
}

/// The symbol a table entry resolves to.
pub open spec fn fallback_info(entry: (Seq<char>, u64), info: crate::types::SymbolInfo) -> bool {
    &&& info.name@ == demangled(entry.0)
    &&& info.module@ == "pdb_fallback"@
    &&& info.file is None
    &&& info.line is None
    &&& info.address == entry.1
}

impl PdbSymbolTable {
    /// The symbol an address resolves to by the table: the nearest symbol
    /// at or below it, when the address lies within 64 KiB of its start.
    pub fn nearest(&self, address: u64) -> (r: Option<crate::types::SymbolInfo>)
        ensures
            r is Some <==> exists|i: int| fallback_entry(self@, address, i),
            r matches Some(info) ==> exists|i: int| #[trigger] fallback_entry(self@, address, i) && fallback_info(self@[i], info),
    {
        let mut best: Option<usize> = None;
        let mut best_addr: u64 = 0;
        let mut i: usize = 0;
        let ghost s = self@;
        while i < self.entries.len()
            invariant
                i <= self.entries@.len(),
                s == self@,
                s.len() == self.entries@.len(),
                best is None ==> best_addr == 0,
                forall|j: int| 0 <= j < i && 0 < #[trigger] s[j].1 <= address ==> s[j].1 <= best_addr,
                best matches Some(b) ==> b < i && s[b as int].1 == best_addr && 0 < best_addr <= address
                    && forall|j: int| 0 <= j < b ==> #[trigger] s[j].1 != best_addr,
                best is None ==> forall|j: int| 0 <= j < i ==> !(0 < #[trigger] s[j].1 <= address),
            decreases self.entries@.len() - i,
        {
            let a = self.entries[i].1;
            assert(s[i as int].1 == a);
            if a <= address && a > best_addr {
                best = Some(i);
                best_addr = a;
            }
            i = i + 1;
        }
        match best {
            Some(b) => {
                assert(is_fallback(s, address, b as int));
                if address - best_addr < 0x10000 {
                    let name = demangle(self.entries[b].0.as_str());
                    let info = crate::types::SymbolInfo {
                        name,
                        module: String::from_str("pdb_fallback"),
                        file: None,
                        line: None,
                        address: best_addr,
                    };
                    proof {
                        reveal_strlit("pdb_fallback");
                    }
                    assert(fallback_entry(s, address, b as int));
                    Some(info)
                } else {
                    assert forall|k: int| !fallback_entry(s, address, k) by {
                        if is_fallback(s, address, k) {
                            assert(s[k].1 == best_addr);
                        }
                    }
                    None
                }
            },
            None => {
                assert forall|k: int| !fallback_entry(s, address, k) by {
                    if 0 <= k < s.len() {
                        assert(!(0 < s[k].1 <= address));
                    }
                }
                None
            },
        }
    }
}

// ---------------------------------------------------------------------------
// Name to addresses, by the table
// ---------------------------------------------------------------------------

/// The one-element sequence of a present value.
pub open spec fn opt_seq(o: Option<u64>) -> Seq<u64> {
    match o {
        Some(a) => seq![a],
        None => Seq::empty(),
    }
}

/// The addresses recorded under `name` itself and under its demangled form.
pub open spec fn exact_hits(s: Seq<(Seq<char>, u64)>, name: Seq<char>) -> Seq<u64> {
    opt_seq(symbol_lookup(s, name)) + opt_seq(symbol_lookup(s, demangled(name)))
}

/// `s` ends with `p`.
pub open spec fn ends_with_seq(s: Seq<char>, p: Seq<char>) -> bool {
    p.len() <= s.len() && s.subrange(s.len() - p.len(), s.len() as int) == p
}

/// Ignoring case, the symbol is the name or ends with `::` and the name.
pub open spec fn suffix_match(symbol: Seq<char>, name: Seq<char>) -> bool {
    let ls = lowercase(symbol);
    let ln = lowercase(name);
    ls == ln || ends_with_seq(ls, "::"@ + ln)
}

/// Ignoring case, the name occurs in the symbol.
pub open spec fn substring_match(symbol: Seq<char>, name: Seq<char>) -> bool {
    occurs_in(lowercase(name), lowercase(symbol))
}

/// Some entry's name is a suffix match for `name`.
pub open spec fn any_suffix_match(s: Seq<(Seq<char>, u64)>, name: Seq<char>) -> bool {
    exists|i: int| 0 <= i < s.len() && #[trigger] suffix_match(s[i].0, name)
}

/// The addresses a name lookup finds: those DbgHelp found; failing that,
/// the exact entries; failing that, the entries whose names end in the
/// name; failing that, those whose names hold it.
pub open spec fn lookup_hit(s: Seq<(Seq<char>, u64)>, name: Seq<char>, found: Seq<u64>, a: u64) -> bool {
    if found.len() > 0 {
        found.contains(a)
    } else if exact_hits(s, name).len() > 0 {
        exact_hits(s, name).contains(a)
    } else if any_suffix_match(s, name) {
        exists|i: int| 0 <= i < s.len() && s[i].1 == a && #[trigger] suffix_match(s[i].0, name)
    } else {
        exists|i: int| 0 <= i < s.len() && s[i].1 == a && #[trigger] substring_match(s[i].0, name)
    }
}

/// Strictly increasing.
pub open spec fn strictly_increasing(v: Seq<u64>) -> bool {
    forall|i: int, j: int| 0 <= i < j < v.len() ==> #[trigger] v[i] < #[trigger] v[j]
}

/// The error for a name nothing matched.
pub open spec fn not_found_text(name: Seq<char>) -> Seq<char> {
    "Symbol '"@ + name + "' not found in loaded modules"@
}

/// What a name lookup returns: every address it finds, in increasing order
/// and once each, or the not-found error when there is none.
pub open spec fn lookup_result(
    s: Seq<(Seq<char>, u64)>,
    name: Seq<char>,
    found: Seq<u64>,
    r: Result<Vec<u64>, crate::types::DebugError>,
) -> bool {
    if exists|a: u64| lookup_hit(s, name, found, a) {
        r matches Ok(v) && strictly_increasing(v@) && forall|a: u64| #[trigger] v@.contains(a) <==> lookup_hit(s, name, found, a)
    } else {
        r matches Err(crate::types::DebugError::Internal(m)) && m@ == not_found_text(name)
    }
}

/// The distinct values of `v` in increasing order (`sort_unstable` then
/// `dedup`).
pub fn sorted_distinct(v: &Vec<u64>) -> (r: Vec<u64>)
    ensures
        strictly_increasing(r@),
        forall|a: u64| #[trigger] r@.contains(a) <==> v@.contains(a),
{
    let mut out: Vec<u64> = Vec::new();
    let mut i: usize = 0;
    while i < v.len()
        invariant
            i <= v@.len(),
            strictly_increasing(out@),
            forall|a: u64| #[trigger] out@.contains(a) <==> v@.subrange(0, i as int).contains(a),
        decreases v@.len() - i,
    {
        let x = v[i];
        let mut k: usize = 0;
        while k < out.len() && out[k] < x
            invariant
                k <= out@.len(),
                forall|j: int| 0 <= j < k ==> #[trigger] out@[j] < x,
            decreases out@.len() - k,
        {
            k = k + 1;
        }
        let ghost before = out@;
        assert(v@.subrange(0, i + 1) =~= v@.subrange(0, i as int).push(x));
        if k < out.len() && out[k] == x {
            assert(forall|a: u64| #[trigger] out@.contains(a) <==> v@.subrange(0, i + 1).contains(a)) by {
                assert forall|a: u64| #[trigger] v@.subrange(0, i + 1).contains(a) implies out@.contains(a) by {
                    if a == x {
                        assert(out@[k as int] == x);
                    } else {
                        let j = choose|j: int| 0 <= j < i + 1 && #[trigger] v@.subrange(0, i + 1)[j] == a;
                        assert(v@.subrange(0, i as int)[j] == a);
                    }
                }
                assert forall|a: u64| #[trigger] out@.contains(a) implies v@.subrange(0, i + 1).contains(a) by {
                    assert(v@.subrange(0, i as int).contains(a));
                    let j = choose|j: int| 0 <= j < i && #[trigger] v@.subrange(0, i as int)[j] == a;
                    assert(v@.subrange(0, i + 1)[j] == a);
                }
            }
        } else {
            out.insert(k, x);
            assert(out@ == before.insert(k as int, x));
            assert(strictly_increasing(out@)) by {
                assert forall|p: int, q: int| 0 <= p < q < out@.len() implies #[trigger] out@[p] < #[trigger] out@[q] by {
                    if q < k {
                    } else if q == k {
                        assert(out@[p] == before[p]);
                    } else if p < k {
                        assert(out@[q] == before[q - 1]);
                        if k < before.len() {
                            assert(before[k as int] > x);
                            assert(before[k as int] <= before[q - 1]);
                        }
                    } else if p == k {
                        assert(out@[q] == before[q - 1]);
                        assert(before[k as int] > x);
                        assert(before[k as int] <= before[q - 1]);
                    } else {
                        assert(out@[p] == before[p - 1]);
                        assert(out@[q] == before[q - 1]);
                    }
                }
            }
            assert forall|a: u64| #[trigger] out@.contains(a) <==> v@.subrange(0, i + 1).contains(a) by {
                if out@.contains(a) {
                    let j = choose|j: int| 0 <= j < out@.len() && #[trigger] out@[j] == a;
                    if j == k {
                        assert(v@.subrange(0, i + 1)[i as int] == a);
                    } else {
                        let b = if j < k { j } else { j - 1 };
                        assert(before[b] == a);
                        assert(before.contains(a));
                        let m = choose|m: int| 0 <= m < i && #[trigger] v@.subrange(0, i as int)[m] == a;
                        assert(v@.subrange(0, i + 1)[m] == a);
                    }
                }
                if v@.subrange(0, i + 1).contains(a) {
                    let m = choose|m: int| 0 <= m < i + 1 && #[trigger] v@.subrange(0, i + 1)[m] == a;
                    if m == i {
                        assert(out@[k as int] == a);
                    } else {
                        assert(v@.subrange(0, i as int)[m] == a);
                        assert(before.contains(a));
                        let j = choose|j: int| 0 <= j < before.len() && #[trigger] before[j] == a;
                        if j < k {
                            assert(out@[j] == a);
                        } else {
                            assert(out@[j + 1] == a);
                        }
                    }
                }
            }
        }
        i = i + 1;
    }
    assert(v@.subrange(0, i as int) =~= v@);
    out
}

/// The addresses of the table's entries whose names match `name`, the
/// suffix way or the substring way.
fn matching_addresses(table: &PdbSymbolTable, name: &str, lower_name: &str, by_suffix: bool) -> (r: Vec<u64>)
    requires
        lower_name@ == lowercase(name@),
    ensures
        forall|a: u64| #[trigger] r@.contains(a) <==> exists|i: int| 0 <= i < table@.len() && table@[i].1 == a && (if by_suffix {
            suffix_match(table@[i].0, name@)
        } else {
            substring_match(table@[i].0, name@)
        }),
{
    let mut suffix = String::from_str("::");
    suffix.append(lower_name);
    proof {
        reveal_strlit("::");
    }
    let mut out: Vec<u64> = Vec::new();
    let mut i: usize = 0;
    let ghost s = table@;
    while i < table.entries.len()
        invariant
            i <= table.entries@.len(),
            s == table@,
            s.len() == table.entries@.len(),
            suffix@ == "::"@ + lowercase(name@),
            lower_name@ == lowercase(name@),
            forall|a: u64| #[trigger] out@.contains(a) <==> exists|j: int| 0 <= j < i && s[j].1 == a && (if by_suffix {
                suffix_match(s[j].0, name@)
            } else {
                substring_match(s[j].0, name@)
            }),
        decreases table.entries@.len() - i,
    {
        let entry_name = table.entries[i].0.as_str();
        let addr = table.entries[i].1;
        assert(s[i as int] == (entry_name@, addr));
        let lower = to_lowercase(entry_name);
        let hit = if by_suffix {
            ends_with(lower.as_str(), suffix.as_str()) || str_eq(lower.as_str(), lower_name)
        } else {
            contains_str(lower.as_str(), lower_name)
        };
        let ghost pred = if by_suffix {
            suffix_match(s[i as int].0, name@)
        } else {
            substring_match(s[i as int].0, name@)
        };
        assert(hit == pred);
        let ghost old_out = out@;
        if hit {
            out.push(addr);
        }
        assert forall|a: u64| #[trigger] out@.contains(a) <==> exists|j: int| 0 <= j < i + 1 && s[j].1 == a && (if by_suffix {
            suffix_match(s[j].0, name@)
        } else {
            substring_match(s[j].0, name@)
        }) by {
            if hit && a == addr {
                assert(out@[out@.len() - 1] == a);
            }
            if out@.contains(a) && !(hit && a == addr) {
                let k = choose|k: int| 0 <= k < out@.len() && #[trigger] out@[k] == a;
                assert(old_out[k] == a);
                assert(old_out.contains(a));
            }
            if !hit || a != addr {
                if old_out.contains(a) {
                    let k = choose|k: int| 0 <= k < old_out.len() && #[trigger] old_out[k] == a;
                    assert(out@[k] == a);
                }
            }
        }
        i = i + 1;
    }
    out
}

impl PdbSymbolTable {
    /// The addresses `name` resolves to, given what DbgHelp `found` for it
    /// (its nonzero addresses): see `lookup_hit`.
    pub fn lookup_name(&self, name: &str, found: Vec<u64>) -> (r: Result<Vec<u64>, crate::types::DebugError>)
        ensures
            lookup_result(self@, name@, found@, r),
    {
        let ghost s = self@;
        let mut results = found;
        if results.len() == 0 {
            let demangled_name = demangle(name);
            match self.get(name) {
                Some(a) => {
                    results.push(a);
                },
                None => {},
            }
            match self.get(demangled_name.as_str()) {
                Some(a) => {
                    results.push(a);
                },
                None => {},
            }
            assert(results@ =~= exact_hits(s, name@));
            if results.len() == 0 {
                let lower_name = to_lowercase(name);
                results = matching_addresses(self, name, lower_name.as_str(), true);
                if results.len() == 0 {
                    assert(!any_suffix_match(s, name@)) by {
                        if any_suffix_match(s, name@) {
                            let i = choose|i: int| 0 <= i < s.len() && #[trigger] suffix_match(s[i].0, name@);
                            assert(results@.contains(s[i].1));
                        }
                    }
                    results = matching_addresses(self, name, lower_name.as_str(), false);
                } else {
                    assert(any_suffix_match(s, name@)) by {
                        assert(results@.contains(results@[0]));
                    }
                }
            }
        }
        assert(forall|a: u64| #[trigger] results@.contains(a) <==> lookup_hit(s, name@, found@, a));
        if results.len() == 0 {
            assert forall|a: u64| !lookup_hit(s, name@, found@, a) by {
                assert(!results@.contains(a));
            }
            let mut m = String::from_str("Symbol '");
            m.append(name);
            m.append("' not found in loaded modules");
            proof {
                reveal_strlit("Symbol '");
                reveal_strlit("' not found in loaded modules");
            }
            Err(crate::types::DebugError::Internal(m))
        } else {
            assert(lookup_hit(s, name@, found@, results@[0])) by {
                assert(results@.contains(results@[0]));
            }
            Ok(sorted_distinct(&results))
        }
    }
}

// ---------------------------------------------------------------------------
// Names as DbgHelp writes them
// ---------------------------------------------------------------------------

/// What `String::from_utf16_lossy` makes of UTF-16 code units.
pub uninterp spec fn utf16_lossy(units: Seq<u16>) -> Seq<char>;

/// The UTF-16 code units of a character: itself below U+10000, else the
/// surrogate pair for it.
pub open spec fn utf16_units(c: char) -> Seq<u16> {
    let v = c as u32 as int;
    if v < 0x10000 {
        seq![v as u16]
    } else {
        seq![(0xD800 + (v - 0x10000) / 0x400) as u16, (0xDC00 + (v - 0x10000) % 0x400) as u16]
    }
}

/// The UTF-16 encoding of a text, character by character.
pub open spec fn utf16_of(s: Seq<char>) -> Seq<u16>
    decreases s.len(),
{
    if s.len() == 0 {
        Seq::empty()
    } else {
        utf16_of(s.drop_last()) + utf16_units(s.last())
    }
}

/// `String::from_utf16_lossy`. Claimed: the result is the named function
/// of the units, and units that are the UTF-16 encoding of a text decode to
/// that text; how unpaired surrogates are replaced is left unsaid.
#[verifier::external_body]
fn from_utf16_lossy(units: &Vec<u16>) -> (r: String)
    ensures
        r@ == utf16_lossy(units@),
        forall|t: Seq<char>| units@ == #[trigger] utf16_of(t) ==> r@ == t,
{
    String::from_utf16_lossy(units.as_slice())
}

/// `str::encode_utf16`, collected. Claimed: the text's UTF-16 encoding.
#[verifier::external_body]
fn encode_utf16(s: &str) -> (r: Vec<u16>)
    ensures
        r@ == utf16_of(s@),
{
    s.encode_utf16().collect()
}

/// A NUL-terminated wide string for the Windows API.
pub open spec fn wide_text(s: Seq<char>) -> Seq<u16> {
    utf16_of(s).push(0)
}

/// `s` as a NUL-terminated wide string.
pub fn to_wide(s: &str) -> (r: Vec<u16>)
    ensures
        r@ == wide_text(s@),
{
    let mut w = encode_utf16(s);
    w.push(0);
    w
}

/// The smaller of two numbers.
pub open spec fn min_int(a: int, b: int) -> int {
    if a <= b {
        a
    } else {
        b
    }
}

/// The name bytes look like UTF-16LE text: at least two bytes, and every
/// second byte zero.
pub open spec fn is_wide(raw: Seq<u8>) -> bool {
    &&& raw.len() >= 2
    &&& forall|k: int| 0 <= k < raw.len() && k % 2 == 1 ==> #[trigger] raw[k] == 0
}

/// Little-endian code units of byte pairs (a trailing odd byte is dropped).
pub open spec fn le_units(bytes: Seq<u8>) -> Seq<u16> {
    Seq::new((bytes.len() / 2) as nat, |k: int| (bytes[2 * k] + 256 * bytes[2 * k + 1]) as u16)
}

/// The text of the name field of a `SYMBOL_INFO` whose length field says
/// `n`: UTF-16LE of `n` code units when the first `n` bytes look wide, the
/// first `n` bytes as UTF-8 otherwise; both cut at the end of the field.
pub open spec fn symbol_text(field: Seq<u8>, n: nat) -> Seq<char> {
    let raw = field.subrange(0, min_int(n as int, field.len() as int));
    if is_wide(raw) {
        utf16_lossy(le_units(field.subrange(0, min_int((2 * n) as int, field.len() as int))))
    } else {
        utf8_lossy(raw)
    }
}

/// The text of a `SYMBOL_INFO` name field (see `symbol_text`). Bytes that
/// are not UTF-8 are replaced, where a direct reinterpretation would be
/// undefined.
pub fn symbol_name(field: &Vec<u8>, name_len: u32) -> (r: String)
    ensures
        r@ == symbol_text(field@, name_len as nat),
{
    let len = field.len();
    let n: usize = if (name_len as u64) < (len as u64) {
        name_len as usize
    } else {
        len
    };
    let mut raw: Vec<u8> = Vec::new();
    let mut i: usize = 0;
    while i < n
        invariant
            i <= n <= field@.len(),
            raw@ == field@.subrange(0, i as int),
        decreases n - i,
    {
        raw.push(field[i]);
        assert(raw@ =~= field@.subrange(0, i + 1));
        i = i + 1;
    }
    assert(raw@ == field@.subrange(0, min_int(name_len as int, field@.len() as int)));
    let mut wide = n >= 2;
    let mut k: usize = 1;
    while k < n
        invariant
            n == raw@.len(),
            wide == (n >= 2 && forall|j: int| 0 <= j < k && j % 2 == 1 ==> #[trigger] raw@[j] == 0),
            k <= n + 1,
            k % 2 == 1,
        decreases n + 1 - k,
    {
        if raw[k] != 0 {
            wide = false;
        }
        assert((k + 1) % 2 == 0);
        k = k + 2;
    }
    if !wide {
        assert(!is_wide(raw@));
        return from_utf8_lossy(&raw);
    }
    assert(is_wide(raw@));
    let m: usize = if (name_len as u64) * 2 < (len as u64) {
        (name_len as usize) * 2
    } else {
        len
    };
    let ghost wbytes = field@.subrange(0, m as int);
    assert(wbytes == field@.subrange(0, min_int((2 * name_len) as int, field@.len() as int)));
    let mut units: Vec<u16> = Vec::new();
    let mut j: usize = 0;
    while j < m / 2
        invariant
            m <= field@.len(),
            wbytes == field@.subrange(0, m as int),
            j <= m / 2,
            units@ == le_units(wbytes).subrange(0, j as int),
        decreases m / 2 - j,
    {
        assert(2 * j + 1 < m) by (nonlinear_arith)
            requires
                j < m / 2,
        ;
        let b0 = field[2 * j] as u16;
        let b1 = field[2 * j + 1] as u16;
        units.push(b0 + 256 * b1);
        assert(units@ =~= le_units(wbytes).subrange(0, j + 1));
        j = j + 1;
    }
    assert(units@ =~= le_units(wbytes));
    from_utf16_lossy(&units)
}

// ---------------------------------------------------------------------------
// Paths
// ---------------------------------------------------------------------------

/// `p` without a leading `\\?\` verbatim prefix.
pub open spec fn without_verbatim(p: Seq<char>) -> Seq<char> {
    match after_prefix_seq(p, "\\\\?\\"@) {
        Some(rest) => rest,
        None => p,
    }
}

/// `s` after the prefix `p`, when `s` starts with it.
pub open spec fn after_prefix_seq(s: Seq<char>, p: Seq<char>) -> Option<Seq<char>> {
    if p.len() <= s.len() && s.subrange(0, p.len() as int) == p {
        Some(s.subrange(p.len() as int, s.len() as int))
    } else {
        None
    }
}

/// The image path with a `\\?\` verbatim prefix removed, which
/// `SymLoadModuleExW` does not handle.
pub fn clean_image_path(path: &str) -> (r: &str)
    ensures
        r@ == without_verbatim(path@),
{
    let prefix = "\\\\?\\";
    if starts_with(path, prefix) {
        path.substring_char(prefix.unicode_len(), path.unicode_len())
    } else {
        path
    }
}

/// A path that is one plain file name: not empty, neither `.` nor `..`,
/// and without a separator or a drive colon. Every platform reads such a
/// path as a single file name in the current directory.
pub open spec fn plain_file_name(p: Seq<char>) -> bool {
    &&& p.len() > 0
    &&& p != "."@
    &&& p != ".."@
    &&& forall|i: int| 0 <= i < p.len() ==> p[i] != '/' && p[i] != '\\' && p[i] != ':'
}

/// The index of the last `.` in `n`, or -1 when it has none.
pub open spec fn last_dot(n: Seq<char>) -> int
    decreases n.len(),
{
    if n.len() == 0 {
        -1
    } else if n.last() == '.' {
        n.len() - 1
    } else {
        last_dot(n.drop_last())
    }
}

/// The stem of a file name: the part before its last `.`, or the whole name
/// when it has no `.` or its only `.` leads.
pub open spec fn file_stem_text(n: Seq<char>) -> Seq<char> {
    let i = last_dot(n);
    if i <= 0 {
        n
    } else {
        n.subrange(0, i)
    }
}

/// `Path::file_stem`, as text. Path syntax is the platform's; what std
/// documents of a plain file name is claimed: the stem is the name before
/// its last `.`, or the whole name when there is none or only a leading one.
/// Of other paths nothing is claimed.
#[verifier::external_body]
fn path_file_stem(path: &str) -> (r: Option<String>)
    ensures
        plain_file_name(path@) ==> (r is Some && r->Some_0@ == file_stem_text(path@)),
{
    std::path::Path::new(path).file_stem().map(|s| s.to_string_lossy().into_owned())
}

/// `Path::parent`, as text. Path syntax is the platform's; what std
/// documents of a plain file name is claimed: its parent is the empty path.
/// Of other paths nothing is claimed.
#[verifier::external_body]
fn path_parent(path: &str) -> (r: Option<String>)
    ensures
        plain_file_name(path@) ==> (r is Some && r->Some_0@.len() == 0),
{
    std::path::Path::new(path).parent().map(|p| p.to_string_lossy().into_owned())
}

/// The PDB path of an image given its directory (`.` when it has none) and
/// its stem: `<dir>/<stem>.pdb`.
pub open spec fn pdb_path(parent: Option<Seq<char>>, stem: Seq<char>) -> Seq<char> {
    path_join(
        match parent {
            Some(d) => d,
            None => "."@,
        },
        stem + ".pdb"@,
    )
}

/// Where the PDB of an image lies: beside it, with the image's stem and the
/// extension `.pdb`; `None` when the path names no file.
pub fn pdb_path_for(exe_path: &str) -> (r: Option<String>)
    ensures
        r matches Some(p) ==> exists|parent: Option<Seq<char>>, stem: Seq<char>| p@ == #[trigger] pdb_path(parent, stem),
        plain_file_name(exe_path@) ==> (r is Some && r->Some_0@ == file_stem_text(exe_path@) + ".pdb"@),
{
    let stem = match path_file_stem(exe_path) {
        Some(s) => s,
        None => {
            return None;
        },
    };
    let parent = path_parent(exe_path);
    let mut file = stem.clone();
    file.append(".pdb");
    proof {
        reveal_strlit(".");
    }
    let joined = match &parent {
        Some(d) => join_path(d.as_str(), file.as_str()),
        None => join_path(".", file.as_str()),
    };
    let ghost pv: Option<Seq<char>> = match parent {
        Some(d) => Some(d@),
        None => None,
    };
    assert(joined@ == pdb_path(pv, stem@));
    Some(joined)
}

// ---------------------------------------------------------------------------
// DbgHelp
// ---------------------------------------------------------------------------

/// A symbol as `SymFromAddrW` reports it: the bytes of its name field, the
/// name length it gives, the module's base and the symbol's address.
pub struct RawSymbol {
    pub name: Vec<u8>,
    pub name_len: u32,
    pub module_base: u64,
    pub address: u64,
}

/// Why a thread's registers could not be read: which call failed, with
/// the error code it left.
#[derive(Debug, Clone, Copy, PartialEq, Eq, Structural)]
pub enum ThreadContextError {
    OpenThread(u32),
    GetContext(u32),
}

/// The Windows services the DbgHelp symbol engine calls: DbgHelp's
/// functions, process and thread handles, reads of the debuggee's memory
/// and of files. The engine's decisions hold whatever these return.
pub trait DbgHelpApi: Send + Sync {
    /// `OpenProcess` for querying and reading: the handle, or the error code.
    fn open_process(&self, process_id: u32) -> Result<isize, u32>;

    /// `GetLastError`.
    fn last_error(&self) -> u32;

    /// `SymInitializeW` without invading the process; whether it succeeded.
    fn sym_initialize(&self, process: isize, search_path: Option<&Vec<u16>>) -> bool;

    /// `SymLoadModuleExW`: the module's base, zero on failure.
    fn sym_load_module(&self, process: isize, image_path: &Vec<u16>, base: u64) -> u64;

    /// `SymUnloadModule64`; whether it succeeded.
    fn sym_unload_module(&self, process: isize, base: u64) -> bool;

    /// Whether `reply` is what `SymFromAddrW` answered for `address`. What
    /// it answers rests on the state of DbgHelp, so nothing is assumed of
    /// it here: a service may say which answers it gives, and one that does
    /// not admits any.
    closed spec fn answers_addr(&self, process: isize, address: u64, reply: Option<RawSymbol>) -> bool {
        true
    }

    /// Whether `reply` is what the line lookup answered for `address`.
    closed spec fn answers_line(&self, process: isize, address: u64, reply: Option<(String, u32)>) -> bool {
        true
    }

    /// Whether `reply` is what `SymFromNameW` answered for the wide name.
    closed spec fn answers_name(&self, process: isize, name: Seq<u16>, reply: Option<u64>) -> bool {
        true
    }

    /// Whether `reply` is what reading the registers of the thread answered.
    closed spec fn answers_context(&self, thread_id: u32, reply: Result<(u64, u64), ThreadContextError>) -> bool {
        true
    }

    /// Whether `reply` is what a read of one word at `address` answered.
    closed spec fn answers_read(&self, process: isize, address: u64, reply: Option<u64>) -> bool {
        true
    }

    /// Whether `reply` is what `SymEnumSymbolsW` answered for the mask.
    closed spec fn answers_mask(&self, process: isize, mask: Seq<u16>, reply: Seq<u64>) -> bool {
        true
    }

    /// `SymFromAddrW`: the symbol, or `None` when the call fails.
    fn sym_from_addr(&self, process: isize, address: u64) -> (r: Option<RawSymbol>)
        ensures
            self.answers_addr(process, address, r),
    ;

    /// `SymGetLineFromAddrW64`: the source file and line, when known.
    fn sym_line_from_addr(&self, process: isize, address: u64) -> (r: Option<(String, u32)>)
        ensures
            self.answers_line(process, address, r),
    ;

    /// `SymFromNameW`: the symbol's address, or `None` when the call fails.
    fn sym_from_name(&self, process: isize, name: &Vec<u16>) -> (r: Option<u64>)
        ensures
            self.answers_name(process, name@, r),
    ;

    /// `SymEnumSymbolsW` over all modules: the address of each symbol
    /// matching the wildcard mask, in the order reported.
    fn sym_enum_symbols(&self, process: isize, mask: &Vec<u16>) -> (r: Vec<u64>)
        ensures
            self.answers_mask(process, mask@, r@),
    ;

    /// `SymCleanup`; whether it succeeded.
    fn sym_cleanup(&self, process: isize) -> bool;

    /// `CloseHandle`.
    fn close_handle(&self, handle: isize);

    /// `ReadProcessMemory` of one little-endian 64-bit word.
    fn read_u64(&self, process: isize, address: u64) -> (r: Option<u64>)
        ensures
            self.answers_read(process, address, r),
    ;

    /// The instruction and frame pointers of a thread (`OpenThread`,
    /// `GetThreadContext`).
    fn thread_context(&self, thread_id: u32) -> (r: Result<(u64, u64), ThreadContextError>)
        ensures
            self.answers_context(thread_id, r),
    ;

    /// The bytes of a file, or `None` when it is missing or unreadable.
    fn read_file(&self, path: &str) -> Option<Vec<u8>>;
}

/// A call the DbgHelp engine made of its services while it changed its
/// state, with the reply it got.
pub enum DbgHelpCall {
    OpenProcess { process_id: u32, reply: Result<isize, u32> },
    LastError { reply: u32 },
    Initialize { process: isize, search_path: Option<Seq<u16>>, reply: bool },
    LoadModule { process: isize, image_path: Seq<u16>, base: u64, reply: u64 },
    UnloadModule { process: isize, base: u64, reply: bool },
    ReadFile { path: Seq<char>, reply: Option<Seq<u8>> },
}

/// Symbol engine backed by Windows DbgHelp, with a PDB-derived table to
/// fall back on.
pub struct DbgHelpSymbolEngine<A: DbgHelpApi> {
    pub api: A,
    pub process_handle: isize,
    pub symbol_path: Option<Vec<u16>>,
    pub main_module_base: Option<u64>,
    pub pdb_symbols: PdbSymbolTable,
    /// The calls made by the methods that change the engine, in order.
    pub calls: Ghost<Seq<DbgHelpCall>>,
}

/// The wide search path as a sequence.
pub open spec fn path_view(p: Option<Vec<u16>>) -> Option<Seq<u16>> {
    match p {
        Some(w) => Some(w@),
        None => None,
    }
}

/// `after` is `before` followed by more calls.
pub open spec fn extends(before: Seq<DbgHelpCall>, after: Seq<DbgHelpCall>) -> bool {
    before.len() <= after.len() && after.take(before.len() as int) == before
}

/// The calls of `after` that follow those of `before`.
pub open spec fn added(before: Seq<DbgHelpCall>, after: Seq<DbgHelpCall>) -> Seq<DbgHelpCall> {
    after.skip(before.len() as int)
}

/// Calls appended to a record extend it by exactly those calls.
proof fn lemma_appended(before: Seq<DbgHelpCall>, more: Seq<DbgHelpCall>)
    ensures
        extends(before, before + more),
        added(before, before + more) == more,
{
    assert((before + more).take(before.len() as int) =~= before);
    assert((before + more).skip(before.len() as int) =~= more);
}

/// A record that extends another is it followed by the added calls.
proof fn lemma_extends(before: Seq<DbgHelpCall>, after: Seq<DbgHelpCall>)
    requires
        extends(before, after),
    ensures
        after == before + added(before, after),
{
    assert(after =~= before + added(before, after));
}

/// What loading the PDB beside an image asks and does: when `pdb_path_for`
/// names a file (it does for a plain file name: its stem with `.pdb`), that
/// file is read; bytes that read as a PDB replace the table by the one
/// built from all its records, and anything else leaves the table as it
/// was.
pub open spec fn pdb_load_record(
    calls: Seq<DbgHelpCall>,
    exe: Seq<char>,
    base: u64,
    before: Seq<(Seq<char>, u64)>,
    after: Seq<(Seq<char>, u64)>,
) -> bool {
    &&& calls.len() <= 1
    &&& calls.len() == 0 ==> after == before && !plain_file_name(exe)
    &&& calls.len() == 1 ==> {
        &&& calls[0] is ReadFile
        &&& exists|parent: Option<Seq<char>>, stem: Seq<char>| calls[0]->ReadFile_path == #[trigger] pdb_path(parent, stem)
        &&& plain_file_name(exe) ==> calls[0]->ReadFile_path == file_stem_text(exe) + ".pdb"@
        &&& match calls[0]->ReadFile_reply {
            Some(bytes) => if pdb_reads(bytes) {
                after == table_of(pdb_symbol_records(bytes), pdb_section_list(bytes), base)
            } else {
                after == before
            },
            None => after == before,
        }
    }
}

/// What `initialize` asks and does: `OpenProcess`, whose error code is the
/// error reported; else the handle is kept and DbgHelp initialized on it.
pub open spec fn init_record(
    calls: Seq<DbgHelpCall>,
    pid: u32,
    exe: Option<Seq<char>>,
    base: Option<u64>,
    search: Option<Seq<u16>>,
    handle_before: isize,
    handle_after: isize,
    main_before: Option<u64>,
    main_after: Option<u64>,
    table_before: Seq<(Seq<char>, u64)>,
    table_after: Seq<(Seq<char>, u64)>,
    r: Result<(), DebugError>,
) -> bool {
    &&& calls.len() >= 1
    &&& calls[0] is OpenProcess
    &&& calls[0]->OpenProcess_process_id == pid
    &&& match calls[0]->OpenProcess_reply {
        Err(code) => {
            &&& calls.len() == 1
            &&& handle_after == handle_before
            &&& main_after == main_before
            &&& table_after == table_before
            &&& r matches Err(e) && win32_coded(e, code, numbered("OpenProcess failed for PID "@, pid))
        },
        Ok(h) => handle_after == h && attached_record(calls.skip(1), pid, h, exe, base, search, main_before, main_after, table_before, table_after, r),
    }
}

/// The rest of `initialize` once the process is open: `SymInitializeW`
/// with the search path, whose failure is followed by `GetLastError` and
/// reported with its code; on success the image is loaded (see
/// `loaded_record`) and the call succeeds.
pub open spec fn attached_record(
    calls: Seq<DbgHelpCall>,
    pid: u32,
    h: isize,
    exe: Option<Seq<char>>,
    base: Option<u64>,
    search: Option<Seq<u16>>,
    main_before: Option<u64>,
    main_after: Option<u64>,
    table_before: Seq<(Seq<char>, u64)>,
    table_after: Seq<(Seq<char>, u64)>,
    r: Result<(), DebugError>,
) -> bool {
    &&& calls.len() >= 1
    &&& calls[0] is Initialize
    &&& calls[0]->Initialize_process == h
    &&& calls[0]->Initialize_search_path == search
    &&& if !calls[0]->Initialize_reply {
        &&& calls.len() == 2
        &&& calls[1] is LastError
        &&& main_after == main_before
        &&& table_after == table_before
        &&& r matches Err(e) && win32_coded(e, calls[1]->LastError_reply, numbered("SymInitializeW failed for PID "@, pid))
    } else {
        r is Ok && loaded_record(calls.skip(1), h, exe, base, main_before, main_after, table_before, table_after)
    }
}

/// The image's part of `initialize`: with its path and base, its module is
/// loaded (the path without a verbatim prefix) and a nonzero base becomes
/// the main module's; with its path, the PDB beside it is loaded (at base
/// zero when none is given); without a path nothing is asked.
pub open spec fn loaded_record(
    calls: Seq<DbgHelpCall>,
    h: isize,
    exe: Option<Seq<char>>,
    base: Option<u64>,
    main_before: Option<u64>,
    main_after: Option<u64>,
    table_before: Seq<(Seq<char>, u64)>,
    table_after: Seq<(Seq<char>, u64)>,
) -> bool {
    match exe {
        Some(path) => match base {
            Some(b) => {
                &&& calls.len() >= 1
                &&& calls[0] is LoadModule
                &&& calls[0]->LoadModule_process == h
                &&& calls[0]->LoadModule_image_path == wide_text(without_verbatim(path))
                &&& calls[0]->LoadModule_base == b
                &&& main_after == if calls[0]->LoadModule_reply != 0 {
                    Some(calls[0]->LoadModule_reply)
                } else {
                    main_before
                }
                &&& pdb_load_record(calls.skip(1), path, b, table_before, table_after)
            },
            None => main_after == main_before && pdb_load_record(calls, path, 0, table_before, table_after),
        },
        None => calls.len() == 0 && main_after == main_before && table_after == table_before,
    }
}

/// The text of an optional path.
pub open spec fn opt_text(p: Option<&str>) -> Option<Seq<char>> {
    match p {
        Some(t) => Some(t@),
        None => None,
    }
}

/// The next link of the frame-pointer chain from the frame at `fp`, given
/// the two words read there: the next frame pointer and the return
/// address, when both were read and they make a step of the chain.
pub fn next_frame(fp: u64, first: Option<u64>, second: Option<u64>) -> (r: Option<(u64, u64)>)
    requires
        fp != 0,
        fp <= u64::MAX - 8,
    ensures
        r == match (first, second) {
            (Some(x), Some(y)) => if chain_step(fp, x, y) {
                Some((x, y))
            } else {
                None
            },
            _ => None,
        },
{
    match (first, second) {
        (Some(next_fp), Some(ret)) => {
            if next_fp == 0 || next_fp == fp || next_fp % 8 != 0 || next_fp > 0x7FFF00000000 || (fp >= 0x10000
                && next_fp < fp - 0x10000) || ret < 0x1000 || ret > 0x7FFF00000000 {
                None
            } else {
                Some((next_fp, ret))
            }
        },
        _ => None,
    }
}

/// `e` is a Win32 error with the code `code` and the message `m`.
pub open spec fn win32_coded(e: DebugError, code: u32, m: Seq<char>) -> bool {
    e matches DebugError::Win32Error { code: c, message } && c == code && message@ == m
}

/// `OpenProcess`, recorded.
fn call_open_process<A: DbgHelpApi>(api: &A, log: &mut Ghost<Seq<DbgHelpCall>>, process_id: u32) -> (r: Result<isize, u32>)
    ensures
        final(log)@ == old(log)@.push(DbgHelpCall::OpenProcess { process_id, reply: r }),
{
    let r = api.open_process(process_id);
    proof {
        log@ = log@.push(DbgHelpCall::OpenProcess { process_id, reply: r });
    }
    r
}

/// `GetLastError`, recorded.
fn call_last_error<A: DbgHelpApi>(api: &A, log: &mut Ghost<Seq<DbgHelpCall>>) -> (r: u32)
    ensures
        final(log)@ == old(log)@.push(DbgHelpCall::LastError { reply: r }),
{
    let r = api.last_error();
    proof {
        log@ = log@.push(DbgHelpCall::LastError { reply: r });
    }
    r
}

/// `SymInitializeW`, recorded.
fn call_initialize<A: DbgHelpApi>(api: &A, log: &mut Ghost<Seq<DbgHelpCall>>, process: isize, search_path: &Option<Vec<u16>>) -> (r: bool)
    ensures
        final(log)@ == old(log)@.push(DbgHelpCall::Initialize { process, search_path: path_view(*search_path), reply: r }),
{
    let r = match search_path {
        Some(p) => api.sym_initialize(process, Some(p)),
        None => api.sym_initialize(process, None),
    };
    proof {
        log@ = log@.push(DbgHelpCall::Initialize { process, search_path: path_view(*search_path), reply: r });
    }
    r
}

/// `SymLoadModuleExW`, recorded.
fn call_load_module<A: DbgHelpApi>(api: &A, log: &mut Ghost<Seq<DbgHelpCall>>, process: isize, image_path: &Vec<u16>, base: u64) -> (r: u64)
    ensures
        final(log)@ == old(log)@.push(DbgHelpCall::LoadModule { process, image_path: image_path@, base, reply: r }),
{
    let r = api.sym_load_module(process, image_path, base);
    proof {
        log@ = log@.push(DbgHelpCall::LoadModule { process, image_path: image_path@, base, reply: r });
    }
    r
}

/// `SymUnloadModule64`, recorded.
fn call_unload_module<A: DbgHelpApi>(api: &A, log: &mut Ghost<Seq<DbgHelpCall>>, process: isize, base: u64) -> (r: bool)
    ensures
        final(log)@ == old(log)@.push(DbgHelpCall::UnloadModule { process, base, reply: r }),
{
    let r = api.sym_unload_module(process, base);
    proof {
        log@ = log@.push(DbgHelpCall::UnloadModule { process, base, reply: r });
    }
    r
}

/// The read of a file, recorded.
fn call_read_file<A: DbgHelpApi>(api: &A, log: &mut Ghost<Seq<DbgHelpCall>>, path: &str) -> (r: Option<Vec<u8>>)
    ensures
        final(log)@ == old(log)@.push(DbgHelpCall::ReadFile { path: path@, reply: bytes_view(r) }),
{
    let r = api.read_file(path);
    proof {
        log@ = log@.push(DbgHelpCall::ReadFile { path: path@, reply: bytes_view(r) });
    }
    r
}

/// A file's bytes as a sequence.
pub open spec fn bytes_view(b: Option<Vec<u8>>) -> Option<Seq<u8>> {
    match b {
        Some(v) => Some(v@),
        None => None,
    }
}

/// `e` is a Win32 error with the message `m`.
pub open spec fn win32_error(e: DebugError, m: Seq<char>) -> bool {
    e matches DebugError::Win32Error { message, .. } && message@ == m
}

/// `e` is an internal error with the message `m`.
pub open spec fn internal_error(e: DebugError, m: Seq<char>) -> bool {
    e matches DebugError::Internal(t) && t@ == m
}

/// What `resolve` returns given what `SymFromAddrW` and the line lookup
/// reported: DbgHelp's symbol, else the table's, else an error.
pub open spec fn resolve_outcome(
    table: Seq<(Seq<char>, u64)>,
    address: u64,
    found: Option<RawSymbol>,
    line: Option<(String, u32)>,
    r: Result<SymbolInfo, DebugError>,
) -> bool {
    match found {
        Some(raw) => r matches Ok(info) && {
            &&& info.name@ == demangled(symbol_text(raw.name@, raw.name_len as nat))
            &&& info.module@ == "0x"@ + hex(raw.module_base as nat, false)
            &&& info.address == raw.address
            &&& match line {
                Some(l) => info.file matches Some(f) && f@ == l.0@ && info.line == Some(l.1),
                None => info.file is None && info.line is None,
            }
        },
        None => if exists|i: int| fallback_entry(table, address, i) {
            r matches Ok(info) && exists|i: int| #[trigger] fallback_entry(table, address, i) && fallback_info(table[i], info)
        } else {
            r matches Err(e) && internal_error(e, "SymFromAddrW failed for 0x"@ + hex(address as nat, false))
        },
    }
}

/// The frame-pointer chain goes on from the frame at `rbp` to the one at
/// `next_rbp` returning to `ret`: the frame pointer is nonzero (a zero one
/// ends the walk) and its second word lies within the address space, the
/// next frame pointer is nonzero,
/// different, 8-aligned, in the user range and not more than 64 KiB below;
/// the return address is in the user range.
pub open spec fn chain_step(rbp: u64, next_rbp: u64, ret: u64) -> bool {
    &&& rbp != 0
    &&& rbp <= u64::MAX - 8
    &&& next_rbp != 0
    &&& next_rbp != rbp
    &&& next_rbp % 8 == 0
    &&& next_rbp <= 0x7FFF00000000
    &&& next_rbp + 0x10000 >= rbp
    &&& 0x1000 <= ret <= 0x7FFF00000000
}

/// The frames a walk from `rip`, `rbp` yields: at most 64, numbered from
/// zero, the first at the given pointers, each next one a step along the
/// chain; no frame below address 0x1000, and no symbol looked up for
/// system addresses.
pub open spec fn walk_shape(f: Seq<StackFrame>, rip: u64, rbp: u64) -> bool {
    &&& f.len() <= 64
    &&& (f.len() == 0 <==> rip < 0x1000)
    &&& f.len() > 0 ==> f[0].return_address == rip && f[0].frame_pointer == rbp
    &&& forall|i: int| 0 <= i < f.len() ==> {
        &&& #[trigger] f[i].frame_number == i
        &&& f[i].stack_pointer == 0
        &&& f[i].return_address >= 0x1000
        &&& f[i].return_address >= 0x7FFF00000000 ==> f[i].symbol is None
    }
    &&& forall|i: int| 0 <= i < f.len() - 1 ==> chain_step(#[trigger] f[i].frame_pointer, f[i + 1].frame_pointer, f[i + 1].return_address)
}

/// Each frame after the first was read from the one before: its frame
/// pointer is the word the read at the previous frame pointer answered,
/// and its return address the word the read 8 bytes above answered.
pub open spec fn walk_reads<A: DbgHelpApi>(api: &A, process: isize, f: Seq<StackFrame>) -> bool {
    forall|i: int|
        0 <= i < f.len() - 1 ==> {
            &&& api.answers_read(process, #[trigger] f[i].frame_pointer, Some(f[i + 1].frame_pointer))
            &&& api.answers_read(process, (f[i].frame_pointer + 8) as u64, Some(f[i + 1].return_address))
        }
}

/// The chain cannot go on from the frame at `rbp`: the frame pointer is
/// zero or its second word lies past the address space, or the two words
/// read there are missing or do not make a step of the chain.
pub open spec fn chain_ends<A: DbgHelpApi>(api: &A, process: isize, rbp: u64) -> bool {
    ||| rbp == 0
    ||| rbp > u64::MAX - 8
    ||| exists|a: Option<u64>, b: Option<u64>|
        #![trigger api.answers_read(process, rbp, a), api.answers_read(process, (rbp + 8) as u64, b)]
        {
            &&& api.answers_read(process, rbp, a)
            &&& api.answers_read(process, (rbp + 8) as u64, b)
            &&& !(a matches Some(x) && b matches Some(y) && chain_step(rbp, x, y))
        }
}

/// The symbol a frame at `address` shows: none for a system address;
/// otherwise the symbol `resolve` gives for it when it finds one, for
/// what DbgHelp answered.
pub open spec fn frame_symbol<A: DbgHelpApi>(
    api: &A,
    process: isize,
    table: Seq<(Seq<char>, u64)>,
    address: u64,
    symbol: Option<SymbolInfo>,
) -> bool {
    if address >= 0x7FFF00000000 {
        symbol is None
    } else {
        exists|found: Option<RawSymbol>, line: Option<(String, u32)>, r: Result<SymbolInfo, DebugError>|
            {
                &&& api.answers_addr(process, address, found)
                &&& found is Some ==> api.answers_line(process, address, line)
                &&& found is None ==> line is None
                &&& #[trigger] resolve_outcome(table, address, found, line, r)
                &&& symbol == match r {
                    Ok(info) => Some(info),
                    Err(_) => None::<SymbolInfo>,
                }
            }
    }
}

fn internal(m: &str) -> (e: DebugError)
    ensures
        internal_error(e, m@),
{
    DebugError::Internal(String::from_str(m))
}

fn win32(code: u32, m: String) -> (e: DebugError)
    ensures
        win32_error(e, m@),
        win32_coded(e, code, m@),
{
    DebugError::Win32Error { code, message: m }
}

/// A message followed by a decimal number.
pub open spec fn numbered(m: Seq<char>, n: u32) -> Seq<char> {
    m + decimal(n as nat)
}

fn numbered_text(m: &str, n: u32) -> (r: String)
    ensures
        r@ == numbered(m@, n),
{
    let mut t = String::from_str(m);
    push_decimal(&mut t, n as u64);
    t
}

impl<A: DbgHelpApi> DbgHelpSymbolEngine<A> {
    /// An engine over the given DbgHelp services, not yet attached to a
    /// process, with an empty symbol table.
    pub fn new(api: A) -> (r: Self)
        ensures
            r.process_handle == 0,
            r.symbol_path is None,
            r.main_module_base is None,
            r.pdb_symbols@.len() == 0,
            r.calls@.len() == 0,
    {
        DbgHelpSymbolEngine {
            api,
            process_handle: 0,
            symbol_path: None,
            main_module_base: None,
            pdb_symbols: PdbSymbolTable::new(),
            calls: Ghost(Seq::empty()),
        }
    }

    /// Restrict symbol loading to the given directory (no symbol-server
    /// network access). Must be called before `initialize`.
    pub fn set_symbol_path(&mut self, path: &str)
        ensures
            final(self).symbol_path matches Some(w) && w@ == wide_text(path@),
            final(self).process_handle == old(self).process_handle,
            final(self).main_module_base == old(self).main_module_base,
            final(self).pdb_symbols@ == old(self).pdb_symbols@,
    {
        self.symbol_path = Some(to_wide(path));
    }

    /// The symbol at `address` given what DbgHelp reported for it.
    pub fn resolve_with(&self, address: u64, found: Option<RawSymbol>, line: Option<(String, u32)>) -> (r: Result<SymbolInfo, DebugError>)
        ensures
            resolve_outcome(self.pdb_symbols@, address, found, line, r),
    {
        match found {
            Some(raw) => {
                let text = symbol_name(&raw.name, raw.name_len);
                let mut module = String::from_str("0x");
                push_hex(&mut module, raw.module_base, 0, false);
                proof {
                    reveal_strlit("0x");
                }
                let (file, line_number) = match line {
                    Some((f, n)) => (Some(f), Some(n)),
                    None => (None, None),
                };
                Ok(SymbolInfo { name: demangle(text.as_str()), module, file, line: line_number, address: raw.address })
            },
            None => {
                match self.pdb_symbols.nearest(address) {
                    Some(info) => Ok(info),
                    None => {
                        let mut m = String::from_str("SymFromAddrW failed for 0x");
                        push_hex(&mut m, address, 0, false);
                        proof {
                            reveal_strlit("SymFromAddrW failed for 0x");
                        }
                        Err(DebugError::Internal(m))
                    },
                }
            },
        }
    }

    /// Loads the table from the PDB beside the image, when there is one and
    /// it reads as a PDB; otherwise the table stays as it was.
    fn load_pdb_symbols(&mut self, exe_path: &str, base_address: u64)
        ensures
            extends(old(self).calls@, final(self).calls@),
            pdb_load_record(added(old(self).calls@, final(self).calls@), exe_path@, base_address, old(self).pdb_symbols@, final(self).pdb_symbols@),
            final(self).process_handle == old(self).process_handle,
            final(self).symbol_path == old(self).symbol_path,
            final(self).main_module_base == old(self).main_module_base,
    {
        let ghost before = self.calls@;
        proof {
            lemma_appended(before, Seq::empty());
            assert(before + Seq::<DbgHelpCall>::empty() =~= before);
        }
        let path = match pdb_path_for(exe_path) {
            Some(p) => p,
            None => {
                return;
            },
        };
        let read = call_read_file(&self.api, &mut self.calls, path.as_str());
        proof {
            lemma_appended(before, seq![DbgHelpCall::ReadFile { path: path@, reply: bytes_view(read) }]);
            assert(self.calls@ =~= before + seq![DbgHelpCall::ReadFile { path: path@, reply: bytes_view(read) }]);
        }
        let bytes = match read {
            Some(b) => b,
            None => {
                return;
            },
        };
        match load_pdb_table(bytes, base_address) {
            Some(t) => {
                self.pdb_symbols = t;
            },
            None => {},
        }
    }

    /// Walk the stack along the frame-pointer chain from the given
    /// instruction and frame pointers (e.g. from `GetThreadContext`). A
    /// chain link whose second word lies past the end of the address space
    /// ends the walk like a failed read.
    pub fn walk_stack_from_context(&self, rip: u64, rbp: u64) -> (r: Result<Vec<StackFrame>, DebugError>)
        ensures
            self.process_handle == 0 ==> (r matches Err(e) && internal_error(e, "DbgHelp not initialized"@)),
            self.process_handle != 0 ==> (r matches Ok(frames) && {
                &&& walk_shape(frames@, rip, rbp)
                &&& walk_reads(&self.api, self.process_handle, frames@)
                &&& forall|k: int|
                    0 <= k < frames@.len() ==> frame_symbol(
                        &self.api,
                        self.process_handle,
                        self.pdb_symbols@,
                        #[trigger] frames@[k].return_address,
                        frames@[k].symbol,
                    )
                &&& 0 < frames@.len() < 64 ==> chain_ends(&self.api, self.process_handle, frames@.last().frame_pointer)
            }),
    {
        if self.process_handle == 0 {
            return Err(internal("DbgHelp not initialized"));
        }
        let ghost h = self.process_handle;
        let ghost table = self.pdb_symbols@;
        let mut frames: Vec<StackFrame> = Vec::new();
        let mut pc = rip;
        let mut fp = rbp;
        let mut i: u32 = 0;
        let mut done = false;
        while i < 64 && !done
            invariant
                h == self.process_handle,
                h != 0,
                table == self.pdb_symbols@,
                i <= 64,
                frames@.len() == i,
                i > 0 ==> rip >= 0x1000,
                !done && i > 0 ==> chain_step(frames@[i - 1].frame_pointer, fp, pc),
                !done && i > 0 ==> self.api.answers_read(h, frames@[i - 1].frame_pointer, Some(fp)),
                !done && i > 0 ==> self.api.answers_read(h, (frames@[i - 1].frame_pointer + 8) as u64, Some(pc)),
                !done && i == 0 ==> pc == rip && fp == rbp,
                done && i == 0 ==> rip < 0x1000,
                done && i > 0 ==> chain_ends(&self.api, h, frames@[i - 1].frame_pointer),
                forall|k: int| 0 <= k < i ==> #[trigger] frames@[k].frame_number == k,
                forall|k: int| 0 <= k < i ==> #[trigger] frames@[k].stack_pointer == 0,
                forall|k: int| 0 <= k < i ==> #[trigger] frames@[k].return_address >= 0x1000,
                forall|k: int| 0 <= k < i ==> (#[trigger] frames@[k].return_address >= 0x7FFF00000000 ==> frames@[k].symbol is None),
                forall|k: int|
                    0 <= k < i ==> frame_symbol(&self.api, h, table, #[trigger] frames@[k].return_address, frames@[k].symbol),
                i > 0 ==> frames@[0].return_address == rip && frames@[0].frame_pointer == rbp,
                forall|k: int| 0 <= k < i - 1 ==> chain_step(#[trigger] frames@[k].frame_pointer, frames@[k + 1].frame_pointer, frames@[k + 1].return_address),
                walk_reads(&self.api, h, frames@),
            decreases 64 - i, if done { 0int } else { 1int },
        {
            if pc < 0x1000 {
                done = true;
            } else {
                let symbol = if pc < 0x7FFF00000000 {
                    let res = SymbolEngine::resolve(self, pc);
                    let sym = match res {
                        Ok(info) => Some(info),
                        Err(_) => None,
                    };
                    proof {
                        let (found, line) = choose|found: Option<RawSymbol>, line: Option<(String, u32)>|
                            {
                                &&& self.api.answers_addr(h, pc, found)
                                &&& found is Some ==> self.api.answers_line(h, pc, line)
                                &&& found is None ==> line is None
                                &&& #[trigger] resolve_outcome(table, pc, found, line, res)
                            };
                        assert(resolve_outcome(table, pc, found, line, res));
                    }
                    sym
                } else {
                    None
                };
                let ghost prev = frames@;
                let frame = StackFrame { frame_number: i, return_address: pc, frame_pointer: fp, stack_pointer: 0, symbol };
                assert(frame_symbol(&self.api, h, table, pc, frame.symbol));
                frames.push(frame);
                assert(frames@ == prev.push(frame));
                i = i + 1;
                assert forall|k: int| 0 <= k < i implies {
                    &&& #[trigger] frames@[k].frame_number == k
                    &&& frames@[k].stack_pointer == 0
                    &&& frames@[k].return_address >= 0x1000
                    &&& frames@[k].return_address >= 0x7FFF00000000 ==> frames@[k].symbol is None
                } by {
                    if k < i - 1 {
                        assert(frames@[k] == prev[k]);
                        assert(prev[k].frame_number == k);
                    }
                }
                assert forall|k: int| 0 <= k < i implies frame_symbol(&self.api, h, table, #[trigger] frames@[k].return_address, frames@[k].symbol) by {
                    if k < i - 1 {
                        assert(frames@[k] == prev[k]);
                        assert(frame_symbol(&self.api, h, table, prev[k].return_address, prev[k].symbol));
                    }
                }
                assert forall|k: int| 0 <= k < i - 1 implies chain_step(#[trigger] frames@[k].frame_pointer, frames@[k + 1].frame_pointer, frames@[k + 1].return_address) by {
                    assert(frames@[k] == prev[k]);
                    if k < i - 2 {
                        assert(frames@[k + 1] == prev[k + 1]);
                    }
                }
                assert forall|k: int| 0 <= k < frames@.len() - 1 implies {
                    &&& self.api.answers_read(h, #[trigger] frames@[k].frame_pointer, Some(frames@[k + 1].frame_pointer))
                    &&& self.api.answers_read(h, (frames@[k].frame_pointer + 8) as u64, Some(frames@[k + 1].return_address))
                } by {
                    assert(frames@[k] == prev[k]);
                    if k < i - 2 {
                        assert(frames@[k + 1] == prev[k + 1]);
                    }
                }
                if fp == 0 || fp > u64::MAX - 8 {
                    done = true;
                } else {
                    let first = self.api.read_u64(self.process_handle, fp);
                    let second = self.api.read_u64(self.process_handle, fp + 8);
                    match next_frame(fp, first, second) {
                        Some((next_fp, ret)) => {
                            fp = next_fp;
                            pc = ret;
                        },
                        None => {
                            done = true;
                        },
                    }
                }
            }
        }
        Ok(frames)
    }
}

/// Trait for symbol resolution backends.
pub trait SymbolEngine: Send + Sync {
    /// Initialize symbol handling for the given process.
    fn initialize(
        &mut self,
        process_id: u32,
        exe_path: Option<&str>,
        base_address: Option<u64>,
        process_handle: Option<isize>,
    ) -> Result<(), DebugError>;

    /// Resolve a symbol by address.
    fn resolve(&self, address: u64) -> Result<SymbolInfo, DebugError>;

    /// Walk the call stack for the given thread.
    fn walk_stack(&self, thread_id: u32) -> Result<Vec<StackFrame>, DebugError>;

    /// Load symbols for a newly loaded module.
    fn load_module(&mut self, base: u64, path: &str) -> Result<(), DebugError>;

    /// Unload symbols for a module that has been unloaded.
    fn unload_module(&mut self, base: u64) -> Result<(), DebugError>;

    /// Resolve symbol(s) by name. Returns all matching addresses.
    fn resolve_by_name(&self, name: &str) -> Result<Vec<u64>, DebugError>;

    /// Cleanup symbol resources.
    fn cleanup(&mut self) -> Result<(), DebugError>;
}

/// Stub symbol engine for MVP development.
pub struct StubSymbolEngine;

/// The stub's answer to every lookup.
pub open spec fn not_implemented(e: DebugError) -> bool {
    internal_error(e, "symbol resolution not yet implemented"@)
}

impl SymbolEngine for StubSymbolEngine {
    fn initialize(
        &mut self,
        process_id: u32,
        exe_path: Option<&str>,
        base_address: Option<u64>,
        process_handle: Option<isize>,
    ) -> (r: Result<(), DebugError>)
        ensures
            r is Ok,
    {
        Ok(())
    }

    fn resolve(&self, address: u64) -> (r: Result<SymbolInfo, DebugError>)
        ensures
            r matches Err(e) && not_implemented(e),
    {
        Err(internal("symbol resolution not yet implemented"))
    }

    fn walk_stack(&self, thread_id: u32) -> (r: Result<Vec<StackFrame>, DebugError>)
        ensures
            r matches Ok(v) && v@.len() == 0,
    {
        Ok(Vec::new())
    }

    fn load_module(&mut self, base: u64, path: &str) -> (r: Result<(), DebugError>)
        ensures
            r is Ok,
    {
        Ok(())
    }

    fn unload_module(&mut self, base: u64) -> (r: Result<(), DebugError>)
        ensures
            r is Ok,
    {
        Ok(())
    }

    fn resolve_by_name(&self, name: &str) -> (r: Result<Vec<u64>, DebugError>)
        ensures
            r matches Err(e) && not_implemented(e),
    {
        Err(internal("symbol resolution not yet implemented"))
    }

    fn cleanup(&mut self) -> (r: Result<(), DebugError>)
        ensures
            r is Ok,
    {
        Ok(())
    }
}

/// What loading a module asks and answers: `SymLoadModuleExW` with the
/// image path as a wide string; a zero base is followed by `GetLastError`,
/// and a nonzero code is the error reported; anything else succeeds.
pub open spec fn load_record(calls: Seq<DbgHelpCall>, process: isize, path: Seq<char>, base: u64, r: Result<(), DebugError>) -> bool {
    &&& calls.len() >= 1
    &&& calls[0] matches DbgHelpCall::LoadModule { process: p, image_path, base: b, reply }
    &&& p == process && image_path == wide_text(path) && b == base
    &&& if calls[0]->LoadModule_reply != 0 {
        calls.len() == 1 && r is Ok
    } else {
        &&& calls.len() == 2
        &&& calls[1] is LastError
        &&& if calls[1]->LastError_reply != 0 {
            r matches Err(e) && win32_coded(e, calls[1]->LastError_reply, "SymLoadModuleExW failed for "@ + path)
        } else {
            r is Ok
        }
    }
}

/// What unloading a module asks and answers: `SymUnloadModule64`; a failure
/// is followed by `GetLastError`, whose code is the error reported.
pub open spec fn unload_record(calls: Seq<DbgHelpCall>, process: isize, base: u64, r: Result<(), DebugError>) -> bool {
    &&& calls.len() >= 1
    &&& calls[0] == DbgHelpCall::UnloadModule { process, base, reply: r is Ok }
    &&& match r {
        Ok(_) => calls.len() == 1,
        Err(e) => calls.len() == 2 && calls[1] is LastError && win32_coded(e, calls[1]->LastError_reply, "SymUnloadModule64 failed"@),
    }
}

/// The names looked up exactly: the name itself, its
/// `rust_app_example::` form, and that form's closure.
pub open spec fn name_variants(name: Seq<char>) -> Seq<Seq<char>> {
    seq![name, "rust_app_example::"@ + name, "rust_app_example::"@ + name + "::{closure}"@]
}

/// An exact lookup found the name at a nonzero address.
pub open spec fn is_hit(o: Option<u64>) -> bool {
    o matches Some(a) && a != 0
}

/// The exact lookups made: in order, up to and including the first hit,
/// all three when none hits.
pub open spec fn exact_lookups(answers: Seq<Option<u64>>) -> bool {
    &&& 1 <= answers.len() <= 3
    &&& forall|i: int| 0 <= i < answers.len() - 1 ==> !is_hit(#[trigger] answers[i])
    &&& answers.len() < 3 ==> is_hit(answers.last())
}

/// The nonzero values of `s`, in order.
pub open spec fn nonzero(s: Seq<u64>) -> Seq<u64>
    decreases s.len(),
{
    if s.len() == 0 {
        Seq::empty()
    } else {
        nonzero(s.drop_last()) + if s.last() != 0 {
            seq![s.last()]
        } else {
            Seq::empty()
        }
    }
}

/// What DbgHelp found for a name: the exact hit, or else every nonzero
/// address the wildcard enumeration gave.
pub open spec fn dbghelp_hits(answers: Seq<Option<u64>>, all: Seq<u64>) -> Seq<u64> {
    if is_hit(answers.last()) {
        seq![answers.last()->0]
    } else {
        nonzero(all)
    }
}

/// The failures `initialize` reports: the process cannot be opened, or
/// DbgHelp cannot be initialized for it.
pub open spec fn init_error(e: DebugError, process_id: u32) -> bool {
    ||| win32_error(e, numbered("OpenProcess failed for PID "@, process_id))
    ||| win32_error(e, numbered("SymInitializeW failed for PID "@, process_id))
}

impl<A: DbgHelpApi> SymbolEngine for DbgHelpSymbolEngine<A> {
    /// Opens a fresh handle to the process, initializes DbgHelp without
    /// invading it, loads the image's module when its path and base are
    /// known, and loads the PDB beside the image as the fallback table.
    fn initialize(
        &mut self,
        process_id: u32,
        exe_path: Option<&str>,
        base_address: Option<u64>,
        process_handle: Option<isize>,
    ) -> (r: Result<(), DebugError>)
        ensures
            r matches Err(e) ==> init_error(e, process_id) && final(self).pdb_symbols@ == old(self).pdb_symbols@
                && final(self).main_module_base == old(self).main_module_base,
            extends(old(self).calls@, final(self).calls@),
            init_record(
                added(old(self).calls@, final(self).calls@),
                process_id,
                opt_text(exe_path),
                base_address,
                path_view(old(self).symbol_path),
                old(self).process_handle,
                final(self).process_handle,
                old(self).main_module_base,
                final(self).main_module_base,
                old(self).pdb_symbols@,
                final(self).pdb_symbols@,
                r,
            ),
            final(self).symbol_path == old(self).symbol_path,
    {
        let ghost before = self.calls@;
        let opened = call_open_process(&self.api, &mut self.calls, process_id);
        let ghost open_call = DbgHelpCall::OpenProcess { process_id, reply: opened };
        match opened {
            Ok(h) => {
                self.process_handle = h;
            },
            Err(code) => {
                proof {
                    lemma_appended(before, seq![open_call]);
                    assert(self.calls@ =~= before + seq![open_call]);
                }
                return Err(win32(code, numbered_text("OpenProcess failed for PID ", process_id)));
            },
        }
        let ok = call_initialize(&self.api, &mut self.calls, self.process_handle, &self.symbol_path);
        let ghost init_call = DbgHelpCall::Initialize { process: self.process_handle, search_path: path_view(self.symbol_path), reply: ok };
        if !ok {
            let code = call_last_error(&self.api, &mut self.calls);
            proof {
                let done = seq![open_call, init_call, DbgHelpCall::LastError { reply: code }];
                lemma_appended(before, done);
                assert(self.calls@ =~= before + done);
                assert(done.skip(1) =~= seq![init_call, DbgHelpCall::LastError { reply: code }]);
            }
            return Err(win32(code, numbered_text("SymInitializeW failed for PID ", process_id)));
        }
        let ghost head = seq![open_call, init_call];
        let ghost mut module_calls: Seq<DbgHelpCall> = Seq::empty();
        proof {
            assert(self.calls@ =~= before + head + module_calls);
        }
        match (exe_path, base_address) {
            (Some(path), Some(base)) => {
                let wide = to_wide(clean_image_path(path));
                let module_base = call_load_module(&self.api, &mut self.calls, self.process_handle, &wide, base);
                proof {
                    module_calls = seq![DbgHelpCall::LoadModule { process: self.process_handle, image_path: wide@, base, reply: module_base }];
                    assert(self.calls@ =~= before + head + module_calls);
                }
                if module_base != 0 {
                    self.main_module_base = Some(module_base);
                }
            },
            _ => {},
        }
        let ghost mid = self.calls@;
        let ghost main_mid = self.main_module_base;
        match exe_path {
            Some(path) => {
                let base = match base_address {
                    Some(b) => b,
                    None => 0,
                };
                self.load_pdb_symbols(path, base);
            },
            None => {
                proof {
                    lemma_appended(mid, Seq::empty());
                    assert(mid + Seq::<DbgHelpCall>::empty() =~= mid);
                }
            },
        }
        proof {
            let pdb_calls = added(mid, self.calls@);
            lemma_extends(mid, self.calls@);
            let done = head + module_calls + pdb_calls;
            assert(self.calls@ =~= before + done);
            lemma_appended(before, done);
            assert(done.skip(1) =~= seq![init_call] + module_calls + pdb_calls);
            assert(done.skip(1).skip(1) =~= module_calls + pdb_calls);
            if module_calls.len() == 1 {
                assert((module_calls + pdb_calls).skip(1) =~= pdb_calls);
            } else {
                assert(module_calls + pdb_calls =~= pdb_calls);
            }
        }
        Ok(())
    }

    /// DbgHelp's symbol with its source line, else the nearest symbol of the
    /// PDB table.
    fn resolve(&self, address: u64) -> (r: Result<SymbolInfo, DebugError>)
        ensures
            exists|found: Option<RawSymbol>, line: Option<(String, u32)>|
                {
                    &&& self.api.answers_addr(self.process_handle, address, found)
                    &&& found is Some ==> self.api.answers_line(self.process_handle, address, line)
                    &&& found is None ==> line is None
                    &&& #[trigger] resolve_outcome(self.pdb_symbols@, address, found, line, r)
                },
    {
        let found = self.api.sym_from_addr(self.process_handle, address);
        let line = match &found {
            Some(_) => self.api.sym_line_from_addr(self.process_handle, address),
            None => None,
        };
        let ghost f = found;
        let ghost l = line;
        let r = self.resolve_with(address, found, line);
        assert(resolve_outcome(self.pdb_symbols@, address, f, l, r));
        r
    }

    /// The stack of a thread, walked from its registers.
    fn walk_stack(&self, thread_id: u32) -> (r: Result<Vec<StackFrame>, DebugError>)
        ensures
            self.process_handle == 0 ==> (r matches Err(e) && internal_error(e, "DbgHelp not initialized"@)),
            r matches Err(e) ==> self.process_handle == 0 || win32_error(e, numbered("OpenThread failed for TID "@, thread_id))
                || win32_error(e, numbered("GetThreadContext failed for TID "@, thread_id)),
            self.process_handle != 0 && r is Err ==> exists|c: ThreadContextError|
                #[trigger] self.api.answers_context(thread_id, Err(c)) && match c {
                    ThreadContextError::OpenThread(code) => win32_coded(
                        r->Err_0,
                        code,
                        numbered("OpenThread failed for TID "@, thread_id),
                    ),
                    ThreadContextError::GetContext(code) => win32_coded(
                        r->Err_0,
                        code,
                        numbered("GetThreadContext failed for TID "@, thread_id),
                    ),
                },
            r matches Ok(frames) ==> exists|rip: u64, rbp: u64|
                {
                    &&& #[trigger] self.api.answers_context(thread_id, Ok((rip, rbp)))
                    &&& walk_shape(frames@, rip, rbp)
                    &&& walk_reads(&self.api, self.process_handle, frames@)
                    &&& forall|k: int|
                        0 <= k < frames@.len() ==> frame_symbol(
                            &self.api,
                            self.process_handle,
                            self.pdb_symbols@,
                            #[trigger] frames@[k].return_address,
                            frames@[k].symbol,
                        )
                    &&& 0 < frames@.len() < 64 ==> chain_ends(&self.api, self.process_handle, frames@.last().frame_pointer)
                },
    {
        if self.process_handle == 0 {
            return Err(internal("DbgHelp not initialized"));
        }
        match self.api.thread_context(thread_id) {
            Ok((rip, rbp)) => {
                let r = self.walk_stack_from_context(rip, rbp);
                r
            },
            Err(ThreadContextError::OpenThread(code)) => Err(win32(code, numbered_text("OpenThread failed for TID ", thread_id))),
            Err(ThreadContextError::GetContext(code)) => Err(
                win32(code, numbered_text("GetThreadContext failed for TID ", thread_id)),
            ),
        }
    }

    /// Loads the module's symbols; a failure that leaves an error code is
    /// reported, one that leaves none is not.
    fn load_module(&mut self, base: u64, path: &str) -> (r: Result<(), DebugError>)
        ensures
            extends(old(self).calls@, final(self).calls@),
            load_record(added(old(self).calls@, final(self).calls@), old(self).process_handle, path@, base, r),
            final(self).process_handle == old(self).process_handle,
            final(self).symbol_path == old(self).symbol_path,
            final(self).pdb_symbols@ == old(self).pdb_symbols@,
            final(self).main_module_base == old(self).main_module_base,
    {
        let ghost before = self.calls@;
        let wide = to_wide(path);
        let result = call_load_module(&self.api, &mut self.calls, self.process_handle, &wide, base);
        let ghost first = DbgHelpCall::LoadModule { process: self.process_handle, image_path: wide@, base, reply: result };
        if result == 0 {
            let code = call_last_error(&self.api, &mut self.calls);
            proof {
                lemma_appended(before, seq![first, DbgHelpCall::LastError { reply: code }]);
                assert(self.calls@ =~= before + seq![first, DbgHelpCall::LastError { reply: code }]);
            }
            if code != 0 {
                let mut m = String::from_str("SymLoadModuleExW failed for ");
                m.append(path);
                proof {
                    reveal_strlit("SymLoadModuleExW failed for ");
                }
                return Err(DebugError::Win32Error { code, message: m });
            }
        } else {
            proof {
                lemma_appended(before, seq![first]);
                assert(self.calls@ =~= before + seq![first]);
            }
        }
        Ok(())
    }

    /// Unloads the module's symbols.
    fn unload_module(&mut self, base: u64) -> (r: Result<(), DebugError>)
        ensures
            extends(old(self).calls@, final(self).calls@),
            unload_record(added(old(self).calls@, final(self).calls@), old(self).process_handle, base, r),
            final(self).process_handle == old(self).process_handle,
            final(self).symbol_path == old(self).symbol_path,
            final(self).pdb_symbols@ == old(self).pdb_symbols@,
            final(self).main_module_base == old(self).main_module_base,
    {
        let ghost before = self.calls@;
        let ok = call_unload_module(&self.api, &mut self.calls, self.process_handle, base);
        let ghost first = DbgHelpCall::UnloadModule { process: self.process_handle, base, reply: ok };
        if !ok {
            let code = call_last_error(&self.api, &mut self.calls);
            proof {
                lemma_appended(before, seq![first, DbgHelpCall::LastError { reply: code }]);
                assert(self.calls@ =~= before + seq![first, DbgHelpCall::LastError { reply: code }]);
                reveal_strlit("SymUnloadModule64 failed");
            }
            return Err(win32(code, String::from_str("SymUnloadModule64 failed")));
        }
        proof {
            lemma_appended(before, seq![first]);
            assert(self.calls@ =~= before + seq![first]);
        }
        Ok(())
    }

    /// The addresses of a name: DbgHelp's lookup of the name and of its
    /// `rust_app_example::` forms, else its wildcard enumeration, else the
    /// PDB table (see `lookup_hit`); sorted, each once.
    fn resolve_by_name(&self, name: &str) -> (r: Result<Vec<u64>, DebugError>)
        ensures
            self.process_handle == 0 ==> (r matches Err(e) && internal_error(e, "DbgHelp not initialized"@)),
            self.process_handle != 0 ==> exists|answers: Seq<Option<u64>>, all: Seq<u64>|
                {
                    &&& exact_lookups(answers)
                    &&& forall|i: int|
                        0 <= i < answers.len() ==> self.api.answers_name(
                            self.process_handle,
                            wide_text(name_variants(name@)[i]),
                            #[trigger] answers[i],
                        )
                    &&& !is_hit(answers.last()) ==> self.api.answers_mask(
                        self.process_handle,
                        wide_text("*"@ + name@ + "*"@),
                        all,
                    )
                    &&& #[trigger] lookup_result(self.pdb_symbols@, name@, dbghelp_hits(answers, all), r)
                },
    {
        if self.process_handle == 0 {
            return Err(internal("DbgHelp not initialized"));
        }
        let mut found: Vec<u64> = Vec::new();
        let mut qualified = String::from_str("rust_app_example::");
        qualified.append(name);
        let mut closure = qualified.clone();
        closure.append("::{closure}");
        let mut variants: Vec<String> = Vec::new();
        variants.push(name.to_owned());
        variants.push(qualified);
        variants.push(closure);
        proof {
            reveal_strlit("rust_app_example::");
            reveal_strlit("::{closure}");
        }
        let ghost names = name_variants(name@);
        assert(variants@.len() == 3);
        assert(variants@[0]@ == names[0] && variants@[1]@ == names[1] && variants@[2]@ == names[2]);
        let ghost mut answers: Seq<Option<u64>> = Seq::empty();
        let mut v: usize = 0;
        while v < variants.len() && found.len() == 0
            invariant
                variants@.len() == 3,
                forall|k: int| 0 <= k < 3 ==> #[trigger] variants@[k]@ == names[k],
                v <= 3,
                answers.len() == v,
                forall|i: int|
                    0 <= i < v ==> self.api.answers_name(self.process_handle, wide_text(names[i]), #[trigger] answers[i]),
                found@.len() == 0 ==> forall|i: int| 0 <= i < v ==> !is_hit(#[trigger] answers[i]),
                found@.len() > 0 ==> v >= 1 && is_hit(answers.last()) && found@ == seq![answers.last()->0]
                    && forall|i: int| 0 <= i < v - 1 ==> !is_hit(#[trigger] answers[i]),
            decreases 3 - v,
        {
            let wide = to_wide(variants[v].as_str());
            let reply = self.api.sym_from_name(self.process_handle, &wide);
            proof {
                answers = answers.push(reply);
            }
            match reply {
                Some(a) => {
                    if a != 0 {
                        found.push(a);
                    }
                },
                None => {},
            }
            v = v + 1;
        }
        let ghost mut all_seen: Seq<u64> = Seq::empty();
        if found.len() == 0 {
            let mut mask = String::from_str("*");
            mask.append(name);
            mask.append("*");
            let wide = to_wide(mask.as_str());
            let all = self.api.sym_enum_symbols(self.process_handle, &wide);
            proof {
                all_seen = all@;
            }
            let mut k: usize = 0;
            while k < all.len()
                invariant
                    k <= all@.len(),
                    found@ == nonzero(all@.subrange(0, k as int)),
                decreases all@.len() - k,
            {
                assert(all@.subrange(0, k + 1).drop_last() =~= all@.subrange(0, k as int));
                if all[k] != 0 {
                    found.push(all[k]);
                }
                k = k + 1;
            }
            assert(all@.subrange(0, all@.len() as int) =~= all@);
        }
        assert(exact_lookups(answers));
        assert(found@ == dbghelp_hits(answers, all_seen));
        let ghost f = found@;
        let r = self.pdb_symbols.lookup_name(name, found);
        assert(lookup_result(self.pdb_symbols@, name@, dbghelp_hits(answers, all_seen), r));
        r
    }

    /// Releases DbgHelp and the process handle, once.
    fn cleanup(&mut self) -> (r: Result<(), DebugError>)
        ensures
            r is Ok,
            final(self).process_handle == 0,
            final(self).pdb_symbols@ == old(self).pdb_symbols@,
            final(self).main_module_base == old(self).main_module_base,
            final(self).symbol_path == old(self).symbol_path,
    {
        if self.process_handle != 0 {
            let _ = self.api.sym_cleanup(self.process_handle);
            self.api.close_handle(self.process_handle);
            self.process_handle = 0;
        }
        Ok(())
    }
}

} // verus!
