//! Reading the function symbols of a PDB file: the section table, the global
//! symbol stream and each module's symbol stream, through the `pdb` crate.

use vstd::prelude::*;
use pdb::FallibleIterator;

verus! {

#[verifier::external_type_specification]
#[verifier::external_body]
pub struct ExSymbol<'t>(pdb::Symbol<'t>);

/// A symbol record as far as the symbol table cares: public symbols and
/// procedures with their name and section-relative offset; anything else,
/// or a record that does not parse, is `Other`.
#[derive(Debug, Clone)]
pub enum PdbRecord {
    Public { function: bool, name: String, section: u16, offset: u32 },
    Procedure { name: String, section: u16, offset: u32 },
    Other,
}

/// What a PDB file holds for the symbol table: the virtual address of each
/// section, then the records of the global stream followed by those of each
/// module's stream, in file order.
pub struct PdbContents {
    pub sections: Vec<u32>,
    pub records: Vec<PdbRecord>,
}

/// What `PDB::sections` reads from the file's bytes: `None` when the file
/// does not open or its section headers cannot be read, `Some(None)` when
/// it has none, else the virtual address of each header.
pub uninterp spec fn pdb_sections(bytes: Seq<u8>) -> Option<Option<Seq<u32>>>;

/// The records the global symbol stream yields, in order, until it ends or
/// a record cannot be read; `None` when the file does not open or the
/// stream cannot be read (`PDB::global_symbols`).
pub uninterp spec fn pdb_global_records(bytes: Seq<u8>) -> Option<Seq<PdbRecord>>;

/// How many modules the debug information lists before the list ends or an
/// entry cannot be read; `None` when the file does not open or its debug
/// information or module list cannot be read (`DebugInformation::modules`).
pub uninterp spec fn pdb_module_count(bytes: Seq<u8>) -> Option<nat>;

/// The records the symbol stream of the module at `index` yields, in order,
/// until it ends or a record cannot be read; `None` when the module's
/// information or stream cannot be read (`PDB::module_info`).
pub uninterp spec fn pdb_module_records(bytes: Seq<u8>, index: nat) -> Option<Seq<PdbRecord>>;

/// The section addresses as a sequence.
pub open spec fn sections_view(r: Option<Option<Vec<u32>>>) -> Option<Option<Seq<u32>>> {
    match r {
        Some(Some(v)) => Some(Some(v@)),
        Some(None) => Some(None),
        None => None,
    }
}

/// The records as a sequence.
pub open spec fn records_view(r: Option<Vec<PdbRecord>>) -> Option<Seq<PdbRecord>> {
    match r {
        Some(v) => Some(v@),
        None => None,
    }
}

/// A count as a natural number.
pub open spec fn count_view(r: Option<usize>) -> Option<nat> {
    match r {
        Some(n) => Some(n as nat),
        None => None,
    }
}

/// The section addresses the file gives, none when they cannot be read.
pub open spec fn pdb_section_list(bytes: Seq<u8>) -> Seq<u32> {
    match pdb_sections(bytes) {
        Some(Some(s)) => s,
        _ => Seq::empty(),
    }
}

/// The records of the first `n` modules in order; a module whose stream
/// cannot be read gives none.
pub open spec fn module_records(bytes: Seq<u8>, n: nat) -> Seq<PdbRecord>
    decreases n,
{
    if n == 0 {
        Seq::empty()
    } else {
        module_records(bytes, (n - 1) as nat) + match pdb_module_records(bytes, (n - 1) as nat) {
            Some(r) => r,
            None => Seq::empty(),
        }
    }
}

/// The file reads as a PDB for the symbol table: its global symbols and its
/// module list can be read.
pub open spec fn pdb_reads(bytes: Seq<u8>) -> bool {
    pdb_global_records(bytes) is Some && pdb_module_count(bytes) is Some
}

/// All the file's symbol records: the global stream's, then each module's.
pub open spec fn pdb_symbol_records(bytes: Seq<u8>) -> Seq<PdbRecord> {
    pdb_global_records(bytes)->0 + module_records(bytes, pdb_module_count(bytes)->0)
}

/// `Symbol::parse`, with the fields of a public symbol or a procedure
/// carried over and the name decoded as UTF-8 with replacement characters.
#[verifier::external_body]
fn symbol_record<'t>(symbol: &pdb::Symbol<'t>) -> (r: PdbRecord) {
    match symbol.parse() {
        Ok(pdb::SymbolData::Public(p)) => PdbRecord::Public {
            function: p.function,
            name: p.name.to_string().into_owned(),
            section: p.offset.section,
            offset: p.offset.offset,
        },
        Ok(pdb::SymbolData::Procedure(p)) => PdbRecord::Procedure {
            name: p.name.to_string().into_owned(),
            section: p.offset.section,
            offset: p.offset.offset,
        },
        _ => PdbRecord::Other,
    }
}

/// `PDB::open` on the bytes, then `PDB::sections`, each header taken by its
/// virtual address. Claimed: the result is the named function of the bytes.
#[verifier::external_body]
fn read_sections(bytes: &Vec<u8>) -> (r: Option<Option<Vec<u32>>>)
    ensures
        sections_view(r) == pdb_sections(bytes@),
{
    let mut file = pdb::PDB::open(std::io::Cursor::new(bytes.as_slice())).ok()?;
    match file.sections() {
        Ok(Some(headers)) => Some(Some(headers.iter().map(|h| h.virtual_address).collect())),
        Ok(None) => Some(None),
        Err(_) => None,
    }
}

/// `PDB::open` on the bytes, `PDB::global_symbols`, and each record its
/// iterator yields until it ends or fails. Claimed: the result is the named
/// function of the bytes.
#[verifier::external_body]
fn read_global_records(bytes: &Vec<u8>) -> (r: Option<Vec<PdbRecord>>)
    ensures
        records_view(r) == pdb_global_records(bytes@),
{
    let mut file = pdb::PDB::open(std::io::Cursor::new(bytes.as_slice())).ok()?;
    let table = file.global_symbols().ok()?;
    let mut symbols = table.iter();
    let mut records = Vec::new();
    while let Ok(Some(symbol)) = symbols.next() {
        records.push(symbol_record(&symbol));
    }
    Some(records)
}

/// `PDB::open` on the bytes, `PDB::debug_information` and
/// `DebugInformation::modules`, counted until the list ends or fails.
/// Claimed: the result is the named function of the bytes.
#[verifier::external_body]
fn read_module_count(bytes: &Vec<u8>) -> (r: Option<usize>)
    ensures
        count_view(r) == pdb_module_count(bytes@),
{
    let mut file = pdb::PDB::open(std::io::Cursor::new(bytes.as_slice())).ok()?;
    let dbi = file.debug_information().ok()?;
    let modules = dbi.modules().ok()?;
    Some(modules.iterator().map_while(Result::ok).count())
}

/// `PDB::open` on the bytes, the module at `index` of the debug
/// information's list, `PDB::module_info`, `ModuleInfo::symbols`, and each
/// record until the stream ends or fails. Claimed: the result is the named
/// function of the bytes and the index.
#[verifier::external_body]
fn read_module_records(bytes: &Vec<u8>, index: usize) -> (r: Option<Vec<PdbRecord>>)
    ensures
        records_view(r) == pdb_module_records(bytes@, index as nat),
{
    let mut file = pdb::PDB::open(std::io::Cursor::new(bytes.as_slice())).ok()?;
    let dbi = file.debug_information().ok()?;
    let module = dbi.modules().ok()?.iterator().map_while(Result::ok).nth(index)?;
    let info = file.module_info(&module).ok()??;
    let mut symbols = info.symbols().ok()?;
    let mut records = Vec::new();
    while let Ok(Some(symbol)) = symbols.next() {
        records.push(symbol_record(&symbol));
    }
    Some(records)
}

/// What the symbol table needs of a PDB file: its section addresses and
/// its symbol records. `None` when its global symbols, its debug
/// information or its module list cannot be read (a file that is no PDB
/// among them); a module whose stream cannot be read is skipped. Section
/// headers that cannot be read count as none.
pub fn read_pdb(bytes: Vec<u8>) -> (r: Option<PdbContents>)
    ensures
        r is Some <==> pdb_reads(bytes@),
        r matches Some(c) ==> c.sections@ == pdb_section_list(bytes@) && c.records@ == pdb_symbol_records(bytes@),
{
    let sections = match read_sections(&bytes) {
        Some(Some(s)) => s,
        _ => Vec::new(),
    };
    let mut records = match read_global_records(&bytes) {
        Some(r) => r,
        None => {
            return None;
        },
    };
    let count = match read_module_count(&bytes) {
        Some(n) => n,
        None => {
            return None;
        },
    };
    let ghost globals = records@;
    let mut i: usize = 0;
    while i < count
        invariant
            i <= count,
            records@ == globals + module_records(bytes@, i as nat),
        decreases count - i,
    {
        match read_module_records(&bytes, i) {
            Some(more) => {
                let mut more = more;
                records.append(&mut more);
            },
            None => {},
        }
        proof {
            assert(module_records(bytes@, (i + 1) as nat) == module_records(bytes@, i as nat) + match pdb_module_records(bytes@, i as nat) {
                Some(r) => r,
                None => Seq::<PdbRecord>::empty(),
            });
        }
        i = i + 1;
    }
    Some(PdbContents { sections, records })
}

} // verus!
