//! Pretty printers for standard Rust types read out of the debuggee's memory,
//! and the registry that finds them by type name.

use vstd::prelude::*;
use vstd::utf8::{decode_utf8, valid_utf8};
use crate::budget::{FormatBudget, min_nat};
use crate::text::{decimal, hex, push_decimal, push_hex, str_eq};
use crate::types::{DebugError, PrettyValue};

verus! {

/// Reading bytes from the debuggee's address space.
pub trait MemoryReader: Send + Sync {
    /// The bytes a read of `len` bytes at `address` yields, or `None` when
    /// the read fails.
    spec fn spec_read_bytes(&self, address: usize, len: usize) -> Option<Seq<u8>>;

    /// Read `len` bytes starting at `address`.
    fn read_bytes(&self, address: usize, len: usize) -> (r: Result<Vec<u8>, DebugError>)
        ensures
            r is Ok <==> self.spec_read_bytes(address, len) is Some,
            r matches Ok(v) ==> self.spec_read_bytes(address, len) == Some(v@),
    ;
}

/// The name for what `String::from_utf8_lossy` makes of `bytes`.
pub uninterp spec fn utf8_lossy(bytes: Seq<u8>) -> Seq<char>;

/// `String::from_utf8_lossy(bytes)`, as an owned string. Claimed: the result
/// is the named function of the bytes, and for valid UTF-8 it is the text
/// the bytes encode. What replaces invalid sequences is left unsaid.
#[verifier::external_body]
pub(crate) fn from_utf8_lossy(bytes: &Vec<u8>) -> (r: String)
    ensures
        r@ == utf8_lossy(bytes@),
        valid_utf8(bytes@) ==> r@ == decode_utf8(bytes@),
{
    String::from_utf8_lossy(bytes.as_slice()).to_string()
}

/// The text bytes decode to: the text they encode when they are valid
/// UTF-8, else what `String::from_utf8_lossy` makes of them.
pub open spec fn lossy_text(bytes: Seq<u8>) -> Seq<char> {
    if valid_utf8(bytes) {
        decode_utf8(bytes)
    } else {
        utf8_lossy(bytes)
    }
}

/// The little-endian value of a byte sequence.
pub open spec fn le_value(b: Seq<u8>) -> nat
    decreases b.len(),
{
    if b.len() == 0 {
        0
    } else {
        (b[0] + 256 * le_value(b.drop_first())) as nat
    }
}

/// `u64::from_le_bytes` of eight bytes.
pub fn le_u64(b: &Vec<u8>) -> (r: u64)
    requires
        b@.len() == 8,
    ensures
        r == le_value(b@),
{
    proof {
        reveal_with_fuel(le_value, 9);
        assert(b@.drop_first().drop_first().drop_first().drop_first().drop_first().drop_first().drop_first().drop_first() =~= Seq::<u8>::empty());
    }
    let v: u64 = b[0] as u64 + 256 * (b[1] as u64 + 256 * (b[2] as u64 + 256 * (b[3] as u64 + 256 * (
    b[4] as u64 + 256 * (b[5] as u64 + 256 * (b[6] as u64 + 256 * (b[7] as u64)))))));
    v
}

/// Whether the budget has run out.
pub open spec fn exhausted(b: FormatBudget) -> bool {
    b.max_depth == 0 || b.max_elements == 0 || b.max_bytes == 0
}

/// `v` is the scalar `s`.
pub open spec fn is_scalar(v: PrettyValue, s: Seq<char>) -> bool {
    v matches PrettyValue::Scalar(x) && x@ == s
}

/// `v` is the raw text `s`.
pub open spec fn is_raw(v: PrettyValue, s: Seq<char>) -> bool {
    v matches PrettyValue::Raw(x) && x@ == s
}

/// `v` is the payload-free enum variant `name`.
pub open spec fn is_unit_variant(v: PrettyValue, name: Seq<char>) -> bool {
    v matches PrettyValue::Enum { name: n, payload: None } && n@ == name
}

/// What the `Option` printer makes of discriminant `disc` at `address`.
pub open spec fn option_value(v: PrettyValue, disc: u8, address: usize) -> bool {
    if disc == 0 {
        is_unit_variant(v, "None"@)
    } else {
        v matches PrettyValue::Enum { name: n, payload: Some(p) } && n@ == "Some"@ && is_raw(
            *p,
            "(value at 0x"@ + hex((address + 1) as nat, false) + ")"@,
        )
    }
}

/// Trait for pretty-printing a specific Rust type.
pub trait PrettyPrinter<R: MemoryReader>: Send + Sync {
    /// The inputs `format` accepts: the reads it makes return as many bytes
    /// as it decodes, and its address arithmetic stays in range.
    spec fn format_ok(&self, reader: &R, address: usize, budget: FormatBudget) -> bool;

    /// Format the value at `address` in the target process.
    fn format(&self, reader: &R, address: usize, budget: &mut FormatBudget) -> Result<
        PrettyValue,
        DebugError,
    >
        requires
            self.format_ok(reader, address, *old(budget)),
    ;
}

/// Pretty printer for `Option<T>`.
pub struct OptionPrinter;

/// Pretty printer for `Vec<T>`.
pub struct VecPrinter;

/// Pretty printer for `String`.
pub struct StringPrinter;

/// Pretty printer for `HashMap<K, V>`.
pub struct HashMapPrinter;

/// Pretty printer for `Result<T, E>`.
pub struct ResultPrinter;

/// The inputs the `Option` printer accepts: a successful discriminant read
/// yields a byte, and a non-zero one leaves room for the payload address.
pub open spec fn option_format_ok<R: MemoryReader>(reader: &R, address: usize, budget: FormatBudget) -> bool {
    !exhausted(budget) ==> (reader.spec_read_bytes(address, 1) matches Some(b) ==> b.len() >= 1 && (
    b[0] != 0 ==> address < usize::MAX))
}

/// What the `Option` printer does: nothing when the budget is used up,
/// otherwise one discriminant read, and the budget stays as it was.
pub open spec fn option_outcome<R: MemoryReader>(
    reader: &R,
    address: usize,
    before: FormatBudget,
    after: FormatBudget,
    r: Result<PrettyValue, DebugError>,
) -> bool {
    &&& after == before
    &&& exhausted(before) ==> r == Ok::<PrettyValue, DebugError>(PrettyValue::Truncated)
    &&& !exhausted(before) ==> (reader.spec_read_bytes(address, 1) is None <==> r is Err)
    &&& !exhausted(before) ==> (reader.spec_read_bytes(address, 1) matches Some(b) ==> (r matches Ok(v)
        && option_value(v, b[0], address)))
}

impl<R: MemoryReader> PrettyPrinter<R> for OptionPrinter {
    open spec fn format_ok(&self, reader: &R, address: usize, budget: FormatBudget) -> bool {
        option_format_ok(reader, address, budget)
    }

    /// Reads the discriminant byte: zero is `None`, anything else `Some`
    /// with the payload's address.
    fn format(&self, reader: &R, address: usize, budget: &mut FormatBudget) -> (r: Result<
        PrettyValue,
        DebugError,
    >)
        ensures
            option_outcome(reader, address, *old(budget), *final(budget), r),
    {
        if budget.is_exhausted() {
            return Ok(PrettyValue::Truncated);
        }
        let bytes = reader.read_bytes(address, 1)?;
        let disc = bytes[0];
        if disc == 0 {
            Ok(PrettyValue::Enum { name: String::from_str("None"), payload: None })
        } else {
            let mut text = String::from_str("(value at 0x");
            push_hex(&mut text, (address + 1) as u64, 0, false);
            text.append(")");
            Ok(
                PrettyValue::Enum {
                    name: String::from_str("Some"),
                    payload: Some(Box::new(PrettyValue::Raw(text))),
                },
            )
        }
    }
}

/// The pointer and length of a `Vec` or `String` header at `address`:
/// two eight-byte little-endian words.
pub open spec fn header<R: MemoryReader>(reader: &R, address: usize) -> Option<(nat, nat)> {
    match reader.spec_read_bytes(address, 8) {
        Some(p) => match reader.spec_read_bytes((address + 8) as usize, 8) {
            Some(l) => Some((le_value(p), le_value(l))),
            None => None,
        },
        None => None,
    }
}

/// Header reads that succeed yield eight bytes each, and the second word's
/// address is in range.
pub open spec fn header_ok<R: MemoryReader>(reader: &R, address: usize) -> bool {
    reader.spec_read_bytes(address, 8) matches Some(p) ==> p.len() == 8 && address + 8 <= usize::MAX
        && (reader.spec_read_bytes((address + 8) as usize, 8) matches Some(l) ==> l.len() == 8)
}

fn read_header<R: MemoryReader>(reader: &R, address: usize) -> (r: Result<(u64, u64), DebugError>)
    requires
        header_ok(reader, address),
    ensures
        header(reader, address) is None <==> r is Err,
        r matches Ok(h) ==> header(reader, address) == Some((h.0 as nat, h.1 as nat)),
{
    let ptr_bytes = reader.read_bytes(address, 8)?;
    let len_bytes = reader.read_bytes(address + 8, 8)?;
    Ok((le_u64(&ptr_bytes), le_u64(&len_bytes)))
}

/// How many elements the `Vec` printer shows: the length cut to 32 bits,
/// at most the budget's element allowance.
pub open spec fn vec_limit(len: nat, budget: FormatBudget) -> nat {
    min_nat(len % 0x1_0000_0000, budget.max_elements as nat)
}

/// The one-byte read of element `i` of a `Vec` whose buffer is at `ptr`.
pub open spec fn element_read<R: MemoryReader>(reader: &R, ptr: nat, i: nat) -> Option<Seq<u8>> {
    reader.spec_read_bytes((ptr + i) as usize, 1)
}

/// The element reads the `Vec` printer makes succeed up to `n`.
pub open spec fn element_reads_ok<R: MemoryReader>(reader: &R, ptr: nat, n: nat) -> bool {
    forall|i: nat| i < n ==> (#[trigger] element_read(reader, ptr, i)) is Some
}

/// The element reads: each one, reached after the earlier ones succeeded,
/// has its address in range and yields at least one byte.
pub open spec fn elements_ok<R: MemoryReader>(reader: &R, ptr: nat, limit: nat) -> bool {
    forall|i: nat|
        i < limit && element_reads_ok(reader, ptr, i) ==> ptr + i <= usize::MAX && (
        #[trigger] element_read(reader, ptr, i) matches Some(b) ==> b.len() >= 1)
}

/// The items the `Vec` printer produces once every read succeeded.
pub open spec fn vec_items<R: MemoryReader>(
    v: Seq<PrettyValue>,
    reader: &R,
    ptr: nat,
    len: nat,
    limit: nat,
    exh: bool,
) -> bool {
    let body = if limit == 0 {
        0
    } else if exh {
        1
    } else {
        limit
    };
    &&& v.len() == body + (if len > limit {
        1int
    } else {
        0int
    })
    &&& (limit > 0 && exh ==> v[0] == PrettyValue::Truncated)
    &&& (!exh ==> forall|i: int|
        0 <= i < limit ==> is_scalar(
            #[trigger] v[i],
            decimal(element_read(reader, ptr, i as nat)->0[0] as nat),
        ))
    &&& (len > limit ==> is_raw(v[v.len() - 1], "... and "@ + decimal((len - limit) as nat) + " more"@))
}

/// What the `Vec` printer does: nothing when the budget is used up;
/// otherwise it reads the header, takes up to the length in elements from
/// the budget, and reads one byte per element unless that left the budget
/// used up, in which case the items are one truncation marker. A remainder
/// beyond the limit is summarised as `... and N more`.
pub open spec fn vec_outcome<R: MemoryReader>(
    reader: &R,
    address: usize,
    before: FormatBudget,
    after: FormatBudget,
    r: Result<PrettyValue, DebugError>,
) -> bool {
    if exhausted(before) {
        after == before && r == Ok::<PrettyValue, DebugError>(PrettyValue::Truncated)
    } else {
        match header(reader, address) {
            None => after == before && r is Err,
            Some((ptr, len)) => {
                let limit = vec_limit(len, before);
                let exh = limit == before.max_elements;
                &&& after == (FormatBudget {
                    max_elements: (before.max_elements - limit) as u32,
                    ..before
                })
                &&& if limit > 0 && !exh && !element_reads_ok(reader, ptr, limit) {
                    r is Err
                } else {
                    r matches Ok(PrettyValue::Sequence(v)) && vec_items(v@, reader, ptr, len, limit, exh)
                }
            },
        }
    }
}

/// The inputs the `Vec` printer accepts.
pub open spec fn vec_format_ok<R: MemoryReader>(reader: &R, address: usize, budget: FormatBudget) -> bool {
    !exhausted(budget) ==> header_ok(reader, address) && (header(reader, address) matches Some(
        (ptr, len),
    ) ==> (vec_limit(len, budget) != budget.max_elements ==> elements_ok(
        reader,
        ptr,
        vec_limit(len, budget),
    )))
}

impl<R: MemoryReader> PrettyPrinter<R> for VecPrinter {
    open spec fn format_ok(&self, reader: &R, address: usize, budget: FormatBudget) -> bool {
        vec_format_ok(reader, address, budget)
    }

    /// Reads the `(ptr, len, cap)` header and one byte per shown element.
    fn format(&self, reader: &R, address: usize, budget: &mut FormatBudget) -> (r: Result<
        PrettyValue,
        DebugError,
    >)
        ensures
            vec_outcome(reader, address, *old(budget), *final(budget), r),
    {
        if budget.is_exhausted() {
            return Ok(PrettyValue::Truncated);
        }
        let (ptr, len) = read_header(reader, address)?;
        let limit = budget.take_elements((len % 0x1_0000_0000) as u32) as u64;
        let ghost exh = limit == old(budget).max_elements;
        let mut elements: Vec<PrettyValue> = Vec::new();
        // The budget does not change while the elements are read, so it is
        // either used up before the first one (one truncation marker) or not
        // at all.
        if limit > 0 && budget.is_exhausted() {
            elements.push(PrettyValue::Truncated);
        } else {
            let mut i: u64 = 0;
            while i < limit
                invariant
                    !exh,
                    exh == (limit == old(budget).max_elements),
                    !exhausted(*old(budget)),
                    header(reader, address) == Some((ptr as nat, len as nat)),
                    limit == vec_limit(len as nat, *old(budget)),
                    *budget == (FormatBudget {
                        max_elements: (old(budget).max_elements - limit) as u32,
                        ..*old(budget)
                    }),
                    i <= limit,
                    elements_ok(reader, ptr as nat, limit as nat),
                    element_reads_ok(reader, ptr as nat, i as nat),
                    elements@.len() == i,
                    forall|j: int|
                        0 <= j < i ==> is_scalar(
                            #[trigger] elements@[j],
                            decimal(element_read(reader, ptr as nat, j as nat)->0[0] as nat),
                        ),
                decreases limit - i,
            {
                assert(element_read(reader, ptr as nat, i as nat) matches Some(b) ==> b.len() >= 1);
                let elem_addr = (ptr + i) as usize;
                let bytes = match reader.read_bytes(elem_addr, 1) {
                    Ok(b) => b,
                    Err(e) => {
                        assert(!element_reads_ok(reader, ptr as nat, limit as nat)) by {
                            assert(element_read(reader, ptr as nat, i as nat) is None);
                        }
                        return Err(e);
                    },
                };
                let elem = bytes[0];
                elements.push(PrettyValue::Scalar(crate::text::decimal_string(elem as u64)));
                proof {
                    assert forall|k: nat| k < i + 1 implies (#[trigger] element_read(
                        reader,
                        ptr as nat,
                        k,
                    )) is Some by {
                        if k < i {
                            assert(element_read(reader, ptr as nat, k) is Some);
                        }
                    }
                }
                i = i + 1;
            }
        }
        if len > limit {
            let mut text = String::from_str("... and ");
            push_decimal(&mut text, len - limit);
            text.append(" more");
            elements.push(PrettyValue::Raw(text));
        }
        Ok(PrettyValue::Sequence(elements))
    }
}

/// What the `String` printer does: nothing when the budget is used up;
/// otherwise it reads the header, takes up to the length in bytes from the
/// budget, reads that many bytes of text and shows them quoted, with `...`
/// when the text was cut short.
pub open spec fn string_outcome<R: MemoryReader>(
    reader: &R,
    address: usize,
    before: FormatBudget,
    after: FormatBudget,
    r: Result<PrettyValue, DebugError>,
) -> bool {
    if exhausted(before) {
        after == before && r == Ok::<PrettyValue, DebugError>(PrettyValue::Truncated)
    } else {
        match header(reader, address) {
            None => after == before && r is Err,
            Some((ptr, len)) => {
                let to_read = min_nat(len, before.max_bytes as nat);
                &&& after == (FormatBudget { max_bytes: (before.max_bytes - to_read) as usize, ..before })
                &&& match reader.spec_read_bytes(ptr as usize, to_read as usize) {
                    None => r is Err,
                    Some(bytes) => r matches Ok(v) && is_scalar(
                        v,
                        "\""@ + lossy_text(bytes) + (if len > to_read {
                            "..."@
                        } else {
                            ""@
                        }) + "\""@,
                    ),
                }
            },
        }
    }
}

/// The inputs the `String` printer accepts: a well-formed header whose
/// pointer is an address.
pub open spec fn string_format_ok<R: MemoryReader>(reader: &R, address: usize, budget: FormatBudget) -> bool {
    !exhausted(budget) ==> header_ok(reader, address) && (header(reader, address) matches Some(
        (ptr, len),
    ) ==> ptr <= usize::MAX)
}

impl<R: MemoryReader> PrettyPrinter<R> for StringPrinter {
    open spec fn format_ok(&self, reader: &R, address: usize, budget: FormatBudget) -> bool {
        string_format_ok(reader, address, budget)
    }

    /// Reads the `(ptr, len, cap)` header, then the text itself.
    fn format(&self, reader: &R, address: usize, budget: &mut FormatBudget) -> (r: Result<
        PrettyValue,
        DebugError,
    >)
        ensures
            string_outcome(reader, address, *old(budget), *final(budget), r),
    {
        if budget.is_exhausted() {
            return Ok(PrettyValue::Truncated);
        }
        let (ptr, len) = read_header(reader, address)?;
        let requested: usize = if len <= usize::MAX as u64 {
            len as usize
        } else {
            usize::MAX
        };
        let to_read = budget.take_bytes(requested);
        let bytes = reader.read_bytes(ptr as usize, to_read)?;
        let mut text = String::from_str("\"");
        let decoded = from_utf8_lossy(&bytes);
        text.append(decoded.as_str());
        if len > to_read as u64 {
            text.append("...");
        }
        text.append("\"");
        proof {
            if len > to_read as u64 {
                assert(text@ =~= "\""@ + lossy_text(bytes@) + "..."@ + "\""@);
            } else {
                reveal_strlit("");
                assert(text@ =~= "\""@ + lossy_text(bytes@) + ""@ + "\""@);
            }
        }
        Ok(PrettyValue::Scalar(text))
    }
}

/// What the `HashMap` printer does: a summary, or a truncation marker once
/// the budget is used up; it reads nothing.
pub open spec fn hashmap_outcome(
    before: FormatBudget,
    after: FormatBudget,
    r: Result<PrettyValue, DebugError>,
) -> bool {
    &&& after == before
    &&& exhausted(before) ==> r == Ok::<PrettyValue, DebugError>(PrettyValue::Truncated)
    &&& !exhausted(before) ==> (r matches Ok(v) && is_raw(v, "HashMap { ... }"@))
}

impl<R: MemoryReader> PrettyPrinter<R> for HashMapPrinter {
    open spec fn format_ok(&self, reader: &R, address: usize, budget: FormatBudget) -> bool {
        true
    }

    /// A summary line; the entries themselves are not walked.
    fn format(&self, reader: &R, address: usize, budget: &mut FormatBudget) -> (r: Result<
        PrettyValue,
        DebugError,
    >)
        ensures
            hashmap_outcome(*old(budget), *final(budget), r),
    {
        if budget.is_exhausted() {
            return Ok(PrettyValue::Truncated);
        }
        Ok(PrettyValue::Raw(String::from_str("HashMap { ... }")))
    }
}

/// What the `Result` printer does: a summary naming the address, or a
/// truncation marker once the budget is used up; it reads nothing.
pub open spec fn result_outcome(
    address: usize,
    before: FormatBudget,
    after: FormatBudget,
    r: Result<PrettyValue, DebugError>,
) -> bool {
    &&& after == before
    &&& exhausted(before) ==> r == Ok::<PrettyValue, DebugError>(PrettyValue::Truncated)
    &&& !exhausted(before) ==> (r matches Ok(v) && is_raw(
        v,
        "Result { ... } (at 0x"@ + hex(address as nat, false) + ")"@,
    ))
}

impl<R: MemoryReader> PrettyPrinter<R> for ResultPrinter {
    open spec fn format_ok(&self, reader: &R, address: usize, budget: FormatBudget) -> bool {
        true
    }

    /// A summary line naming the value's address.
    fn format(&self, reader: &R, address: usize, budget: &mut FormatBudget) -> (r: Result<
        PrettyValue,
        DebugError,
    >)
        ensures
            result_outcome(address, *old(budget), *final(budget), r),
    {
        if budget.is_exhausted() {
            return Ok(PrettyValue::Truncated);
        }
        let mut text = String::from_str("Result { ... } (at 0x");
        push_hex(&mut text, address as u64, 0, false);
        text.append(")");
        Ok(PrettyValue::Raw(text))
    }
}

/// One of the built-in printers, as a registry holds them.
#[derive(Debug, Clone, Copy, PartialEq, Eq, Structural)]
pub enum BuiltinPrinter {
    OptionPrinter,
    VecPrinter,
    StringPrinter,
    HashMapPrinter,
    ResultPrinter,
}

impl<R: MemoryReader> PrettyPrinter<R> for BuiltinPrinter {
    open spec fn format_ok(&self, reader: &R, address: usize, budget: FormatBudget) -> bool {
        match self {
            BuiltinPrinter::OptionPrinter => option_format_ok(reader, address, budget),
            BuiltinPrinter::VecPrinter => vec_format_ok(reader, address, budget),
            BuiltinPrinter::StringPrinter => string_format_ok(reader, address, budget),
            _ => true,
        }
    }

    /// Formats with the printer this stands for.
    fn format(&self, reader: &R, address: usize, budget: &mut FormatBudget) -> (r: Result<
        PrettyValue,
        DebugError,
    >)
        ensures
            match self {
                BuiltinPrinter::OptionPrinter => option_outcome(reader, address, *old(budget), *final(budget), r),
                BuiltinPrinter::VecPrinter => vec_outcome(reader, address, *old(budget), *final(budget), r),
                BuiltinPrinter::StringPrinter => string_outcome(reader, address, *old(budget), *final(budget), r),
                BuiltinPrinter::HashMapPrinter => hashmap_outcome(*old(budget), *final(budget), r),
                BuiltinPrinter::ResultPrinter => result_outcome(address, *old(budget), *final(budget), r),
            },
    {
        match self {
            BuiltinPrinter::OptionPrinter => OptionPrinter.format(reader, address, budget),
            BuiltinPrinter::VecPrinter => VecPrinter.format(reader, address, budget),
            BuiltinPrinter::StringPrinter => StringPrinter.format(reader, address, budget),
            BuiltinPrinter::HashMapPrinter => HashMapPrinter.format(reader, address, budget),
            BuiltinPrinter::ResultPrinter => ResultPrinter.format(reader, address, budget),
        }
    }
}

/// The map that a list of `(type name, printer)` entries stands for.
pub open spec fn printer_map(s: Seq<(String, BuiltinPrinter)>) -> Map<Seq<char>, BuiltinPrinter>
    decreases s.len(),
{
    if s.len() == 0 {
        Map::empty()
    } else {
        printer_map(s.drop_last()).insert(s.last().0@, s.last().1)
    }
}

/// Registry mapping type names to pretty printers.
pub struct PrinterRegistry {
    printers: Vec<(String, BuiltinPrinter)>,
}

impl View for PrinterRegistry {
    type V = Map<Seq<char>, BuiltinPrinter>;

    /// The printer registered for each type name.
    closed spec fn view(&self) -> Map<Seq<char>, BuiltinPrinter> {
        printer_map(self.printers@)
    }
}

proof fn lemma_printer_map_update(s: Seq<(String, BuiltinPrinter)>, i: int, v: (String, BuiltinPrinter))
    requires
        0 <= i < s.len(),
        v.0@ == s[i].0@,
        forall|j: int| 0 <= j < s.len() && j != i ==> #[trigger] s[j].0@ != s[i].0@,
    ensures
        printer_map(s.update(i, v)) == printer_map(s).insert(v.0@, v.1),
    decreases s.len(),
{
    let u = s.update(i, v);
    if i == s.len() - 1 {
        assert(u.drop_last() =~= s.drop_last());
        assert(printer_map(u) =~= printer_map(s).insert(v.0@, v.1));
    } else {
        lemma_printer_map_update(s.drop_last(), i, v);
        assert(u.drop_last() =~= s.drop_last().update(i, v));
        assert(s[s.len() - 1].0@ != s[i].0@);
        assert(printer_map(u) =~= printer_map(s).insert(v.0@, v.1));
    }
}

proof fn lemma_printer_map_lookup(s: Seq<(String, BuiltinPrinter)>, k: Seq<char>)
    ensures
        printer_map(s).dom().contains(k) <==> exists|i: int| 0 <= i < s.len() && #[trigger] s[i].0@ == k,
        forall|i: int|
            0 <= i < s.len() && #[trigger] s[i].0@ == k && (forall|j: int| 0 <= j < s.len() && j != i
                ==> s[j].0@ != k) ==> printer_map(s)[k] == s[i].1,
    decreases s.len(),
{
    if s.len() > 0 {
        lemma_printer_map_lookup(s.drop_last(), k);
        if exists|i: int| 0 <= i < s.len() && #[trigger] s[i].0@ == k {
            let i = choose|i: int| 0 <= i < s.len() && #[trigger] s[i].0@ == k;
            if i < s.len() - 1 {
                assert(s.drop_last()[i].0@ == k);
            }
        }
        if printer_map(s).dom().contains(k) && s.last().0@ != k {
            let i = choose|i: int| 0 <= i < s.drop_last().len() && #[trigger] s.drop_last()[i].0@ == k;
            assert(s[i].0@ == k);
        }
        assert forall|i: int|
            0 <= i < s.len() && #[trigger] s[i].0@ == k && (forall|j: int| 0 <= j < s.len() && j != i
                ==> s[j].0@ != k) implies printer_map(s)[k] == s[i].1 by {
            if i < s.len() - 1 {
                assert(s.drop_last()[i].0@ == k);
                assert forall|j: int| 0 <= j < s.drop_last().len() && j != i implies s.drop_last()[j].0@
                    != k by {
                    assert(s[j].0@ != k);
                }
            }
        }
    }
}

impl PrinterRegistry {
    /// No type name is registered twice.
    pub closed spec fn wf(&self) -> bool {
        forall|i: int, j: int|
            0 <= i < self.printers@.len() && 0 <= j < self.printers@.len() && i != j
                ==> #[trigger] self.printers@[i].0@ != #[trigger] self.printers@[j].0@
    }

    /// Create an empty registry.
    pub fn new() -> (r: Self)
        ensures
            r.wf(),
            r@ == Map::<Seq<char>, BuiltinPrinter>::empty(),
    {
        PrinterRegistry { printers: Vec::new() }
    }

    fn position(&self, name_of_type: &str) -> (r: Option<usize>)
        ensures
            r matches Some(i) ==> i < self.printers@.len() && self.printers@[i as int].0@ == name_of_type@,
            r is None ==> forall|j: int| 0 <= j < self.printers@.len() ==> #[trigger] self.printers@[j].0@
                != name_of_type@,
    {
        let mut i: usize = 0;
        while i < self.printers.len()
            invariant
                i <= self.printers@.len(),
                forall|j: int| 0 <= j < i ==> #[trigger] self.printers@[j].0@ != name_of_type@,
            decreases self.printers@.len() - i,
        {
            if str_eq(self.printers[i].0.as_str(), name_of_type) {
                return Some(i);
            }
            i = i + 1;
        }
        None
    }

    /// Register a pretty printer for a type name, replacing any earlier one.
    pub fn register(&mut self, name_of_type: &str, printer: BuiltinPrinter)
        requires
            old(self).wf(),
        ensures
            final(self).wf(),
            final(self)@ == old(self)@.insert(name_of_type@, printer),
    {
        let name = String::from_str(name_of_type);
        match self.position(name_of_type) {
            Some(i) => {
                let ghost before = self.printers@;
                self.printers.set(i, (name, printer));
                proof {
                    lemma_printer_map_update(before, i as int, (name, printer));
                    assert forall|a: int, b: int|
                        0 <= a < self.printers@.len() && 0 <= b < self.printers@.len() && a != b
                            implies #[trigger] self.printers@[a].0@ != #[trigger] self.printers@[b].0@ by {
                        assert(before[a].0@ != before[b].0@);
                    }
                }
            },
            None => {
                let ghost before = self.printers@;
                self.printers.push((name, printer));
                proof {
                    assert(self.printers@.drop_last() =~= before);
                    assert forall|a: int, b: int|
                        0 <= a < self.printers@.len() && 0 <= b < self.printers@.len() && a != b
                            implies #[trigger] self.printers@[a].0@ != #[trigger] self.printers@[b].0@ by {
                        if a < before.len() && b < before.len() {
                            assert(before[a].0@ != before[b].0@);
                        }
                    }
                }
            },
        }
    }

    /// Look up a pretty printer by exact type name.
    pub fn lookup(&self, name_of_type: &str) -> (r: Option<&BuiltinPrinter>)
        requires
            self.wf(),
        ensures
            self@.dom().contains(name_of_type@) ==> r == Some(&self@[name_of_type@]),
            !self@.dom().contains(name_of_type@) ==> r is None,
    {
        proof {
            lemma_printer_map_lookup(self.printers@, name_of_type@);
        }
        match self.position(name_of_type) {
            Some(i) => {
                proof {
                    assert(self.printers@[i as int].0@ == name_of_type@);
                    assert forall|j: int| 0 <= j < self.printers@.len() && j != i implies self.printers@[j].0@
                        != name_of_type@ by {
                        assert(self.printers@[j].0@ != self.printers@[i as int].0@);
                    }
                }
                Some(&self.printers[i].1)
            },
            None => None,
        }
    }
}

/// The type names `built_in_registry` registers, each with its printer.
pub open spec fn built_in_names() -> Map<Seq<char>, BuiltinPrinter> {
    map![
        "core::option::Option"@ => BuiltinPrinter::OptionPrinter,
        "std::option::Option"@ => BuiltinPrinter::OptionPrinter,
        "core::vec::Vec"@ => BuiltinPrinter::VecPrinter,
        "std::vec::Vec"@ => BuiltinPrinter::VecPrinter,
        "alloc::vec::Vec"@ => BuiltinPrinter::VecPrinter,
        "core::string::String"@ => BuiltinPrinter::StringPrinter,
        "std::string::String"@ => BuiltinPrinter::StringPrinter,
        "alloc::string::String"@ => BuiltinPrinter::StringPrinter,
        "std::collections::hash::map::HashMap"@ => BuiltinPrinter::HashMapPrinter,
        "std::collections::HashMap"@ => BuiltinPrinter::HashMapPrinter,
        "core::result::Result"@ => BuiltinPrinter::ResultPrinter,
        "std::result::Result"@ => BuiltinPrinter::ResultPrinter
    ]
}

/// Create a registry with all built-in pretty printers pre-registered.
pub fn built_in_registry() -> (r: PrinterRegistry)
    ensures
        r.wf(),
        r@ == built_in_names(),
{
    let mut reg = PrinterRegistry::new();
    reg.register("core::option::Option", BuiltinPrinter::OptionPrinter);
    reg.register("std::option::Option", BuiltinPrinter::OptionPrinter);
    reg.register("core::vec::Vec", BuiltinPrinter::VecPrinter);
    reg.register("std::vec::Vec", BuiltinPrinter::VecPrinter);
    reg.register("alloc::vec::Vec", BuiltinPrinter::VecPrinter);
    reg.register("core::string::String", BuiltinPrinter::StringPrinter);
    reg.register("std::string::String", BuiltinPrinter::StringPrinter);
    reg.register("alloc::string::String", BuiltinPrinter::StringPrinter);
    reg.register("std::collections::hash::map::HashMap", BuiltinPrinter::HashMapPrinter);
    reg.register("std::collections::HashMap", BuiltinPrinter::HashMapPrinter);
    reg.register("core::result::Result", BuiltinPrinter::ResultPrinter);
    reg.register("std::result::Result", BuiltinPrinter::ResultPrinter);
    assert(reg@ =~= built_in_names());
    reg
}

} // verus!

verus! {

/// What the built-in printer `p` returns for the value at `address`.
pub open spec fn printer_outcome<R: MemoryReader>(
    p: BuiltinPrinter,
    reader: &R,
    address: usize,
    before: FormatBudget,
    after: FormatBudget,
    r: Result<PrettyValue, DebugError>,
) -> bool {
    match p {
        BuiltinPrinter::OptionPrinter => option_outcome(reader, address, before, after, r),
        BuiltinPrinter::VecPrinter => vec_outcome(reader, address, before, after, r),
        BuiltinPrinter::StringPrinter => string_outcome(reader, address, before, after, r),
        BuiltinPrinter::HashMapPrinter => hashmap_outcome(before, after, r),
        BuiltinPrinter::ResultPrinter => result_outcome(address, before, after, r),
    }
}

/// Pretty-print the value at `address` in the target process as the type
/// named `name_of_type`: with the built-in printer registered for that name,
/// or, when there is none, a raw note saying so.
pub fn pretty_print_value<R: MemoryReader>(reader: &R, address: usize, name_of_type: &str, budget: &mut FormatBudget) -> (r:
    Result<PrettyValue, DebugError>)
    requires
        built_in_names().dom().contains(name_of_type@) ==> built_in_names()[name_of_type@].format_ok(
            reader,
            address,
            *old(budget),
        ),
    ensures
        built_in_names().dom().contains(name_of_type@) ==> printer_outcome(
            built_in_names()[name_of_type@],
            reader,
            address,
            *old(budget),
            *final(budget),
            r,
        ),
        !built_in_names().dom().contains(name_of_type@) ==> (r matches Ok(PrettyValue::Raw(m)) && m@
            == "No pretty printer for type: "@ + name_of_type@) && *final(budget) == *old(budget),
{
    let registry = built_in_registry();
    match registry.lookup(name_of_type) {
        Some(printer) => printer.format(reader, address, budget),
        None => {
            let mut m = String::from_str("No pretty printer for type: ");
            m.append(name_of_type);
            proof {
                reveal_strlit("No pretty printer for type: ");
            }
            Ok(PrettyValue::Raw(m))
        },
    }
}

} // verus!

verus! {

/// Registering a printer for a name makes looking that name up give it;
/// other names keep their printers, and registering a name again replaces
/// its printer.
pub proof fn law_register_then_lookup(
    m: Map<Seq<char>, BuiltinPrinter>,
    a: Seq<char>,
    p: BuiltinPrinter,
    b: Seq<char>,
    q: BuiltinPrinter,
)
    ensures
        m.insert(a, p).dom().contains(a),
        m.insert(a, p)[a] == p,
        b != a ==> m.insert(a, p).insert(b, q)[a] == p,
        b != a ==> (m.dom().contains(b) <==> m.insert(a, p).dom().contains(b)),
        b != a && m.dom().contains(b) ==> m.insert(a, p)[b] == m[b],
        m.insert(a, p).insert(a, q) == m.insert(a, q),
{
    assert(m.insert(a, p).insert(a, q) =~= m.insert(a, q));
}

} // verus!

