//! Class definitions as stored, the wire shapes they are served in, and the
//! conversions between the two.
use crate::data::CasmHash;
use crate::data::ClassHash;
use crate::data::SierraHash;
use crate::felt::Felt;
use vstd::prelude::*;

verus! {

/// A selector paired with a byte-code offset, as a legacy class stores its
/// entry points.
#[derive(Clone, Copy, PartialEq, Eq, Debug)]
pub struct SelectorAndOffset {
    pub selector: Felt,
    pub offset: u64,
}

/// A selector paired with a function index, as a Sierra class stores its
/// entry points.
#[derive(Clone, Copy, PartialEq, Eq, Debug)]
pub struct SelectorAndFunctionIndex {
    pub selector: Felt,
    pub function_idx: u64,
}

/// The typed entry points of a legacy class.
#[derive(Clone, Debug)]
pub struct CairoEntryPoints {
    pub external: Vec<SelectorAndOffset>,
    pub l1_handler: Vec<SelectorAndOffset>,
    pub constructor: Vec<SelectorAndOffset>,
}

/// The typed entry points of a Sierra class.
#[derive(Clone, Debug)]
pub struct SierraEntryPoints {
    pub external: Vec<SelectorAndFunctionIndex>,
    pub l1_handler: Vec<SelectorAndFunctionIndex>,
    pub constructor: Vec<SelectorAndFunctionIndex>,
}

/// A legacy class definition as held in storage: an ABI, a program, and
/// typed entry points.
#[derive(Clone, Debug)]
pub struct Cairo {
    pub abi: Vec<u8>,
    pub program: Vec<u8>,
    pub entry_points_by_type: CairoEntryPoints,
}

/// A Sierra class definition as held in storage.
#[derive(Clone, Debug)]
pub struct Sierra {
    pub abi: Vec<u8>,
    pub sierra_program: Vec<Felt>,
    pub contract_class_version: Vec<u8>,
    pub entry_points_by_type: SierraEntryPoints,
}

/// An entry point on the wire: selector and offset.
#[derive(Clone, Copy, PartialEq, Eq, Debug)]
pub struct EntryPoint {
    pub selector: Felt,
    pub offset: u64,
}

/// A Sierra entry point on the wire: selector and function index.
#[derive(Clone, Copy, PartialEq, Eq, Debug)]
pub struct SierraEntryPoint {
    pub selector: Felt,
    pub index: u64,
}

/// The typed entry points of a Sierra class on the wire.
#[derive(Clone, Debug)]
pub struct Cairo1EntryPoints {
    pub externals: Vec<SierraEntryPoint>,
    pub l1_handlers: Vec<SierraEntryPoint>,
    pub constructors: Vec<SierraEntryPoint>,
}

/// A legacy class on the wire.
#[derive(Clone, Debug)]
pub struct Cairo0Class {
    pub abi: Vec<u8>,
    pub externals: Vec<EntryPoint>,
    pub l1_handlers: Vec<EntryPoint>,
    pub constructors: Vec<EntryPoint>,
    pub program: Vec<u8>,
}

/// A Sierra class on the wire, with its compiled counterpart.
#[derive(Clone, Debug)]
pub struct Cairo1Class {
    pub abi: Vec<u8>,
    pub program: Vec<Felt>,
    pub entry_points: Cairo1EntryPoints,
    pub compiled: Vec<u8>,
    pub contract_class_version: Vec<u8>,
}

/// A class on the wire, in either form.
#[derive(Clone, Debug)]
pub enum Class {
    Cairo0(Cairo0Class),
    Cairo1(Cairo1Class),
}

/// The classes newly declared by one block, as one response payload.
#[derive(Clone, Debug)]
pub struct ClassesMsg {
    pub domain: u32,
    pub classes: Vec<Class>,
}

/// A class named the way a state update declares it.
#[derive(Clone, Copy, Debug)]
pub enum ClassId {
    Cairo(ClassHash),
    Sierra(SierraHash, CasmHash),
}

impl ClassId {
    /// The class hash under which the definition is stored; for a Sierra
    /// class that is its Sierra hash.
    pub fn class_hash(&self) -> (r: ClassHash)
        ensures
            r == spec_class_hash(*self),
    {
        match self {
            ClassId::Cairo(class_hash) => *class_hash,
            ClassId::Sierra(sierra_hash, _) => ClassHash(sierra_hash.0),
        }
    }
}

/// The class hash a `ClassId` is looked up under.
pub open spec fn spec_class_hash(id: ClassId) -> ClassHash {
    match id {
        ClassId::Cairo(class_hash) => class_hash,
        ClassId::Sierra(sierra_hash, _) => ClassHash(sierra_hash.0),
    }
}

/// A class definition read back from storage, in either form.
#[derive(Clone, Debug)]
pub enum ClassDefinition {
    Cairo(Cairo),
    Sierra { sierra: Sierra, casm: Vec<u8> },
}

/// An offset entry point mapped to its wire shape.
pub open spec fn entry_point_of(x: SelectorAndOffset) -> EntryPoint {
    EntryPoint { selector: x.selector, offset: x.offset }
}

/// An index entry point mapped to its wire shape.
pub open spec fn sierra_entry_point_of(x: SelectorAndFunctionIndex) -> SierraEntryPoint {
    SierraEntryPoint { selector: x.selector, index: x.function_idx }
}

/// The wire form of a legacy class carries the definition unchanged, each
/// entry point mapped to selector and offset.
pub open spec fn cairo0_dto_ok(r: Cairo0Class, d: Cairo) -> bool {
    &&& r.abi@ == d.abi@
    &&& r.program@ == d.program@
    &&& r.externals@ == d.entry_points_by_type.external@.map_values(
        |x: SelectorAndOffset| entry_point_of(x),
    )
    &&& r.l1_handlers@ == d.entry_points_by_type.l1_handler@.map_values(
        |x: SelectorAndOffset| entry_point_of(x),
    )
    &&& r.constructors@ == d.entry_points_by_type.constructor@.map_values(
        |x: SelectorAndOffset| entry_point_of(x),
    )
}

/// The wire form of a Sierra class entry-point table.
pub open spec fn sierra_entry_points_dto_ok(r: Cairo1EntryPoints, d: SierraEntryPoints) -> bool {
    &&& r.externals@ == d.external@.map_values(
        |x: SelectorAndFunctionIndex| sierra_entry_point_of(x),
    )
    &&& r.l1_handlers@ == d.l1_handler@.map_values(
        |x: SelectorAndFunctionIndex| sierra_entry_point_of(x),
    )
    &&& r.constructors@ == d.constructor@.map_values(
        |x: SelectorAndFunctionIndex| sierra_entry_point_of(x),
    )
}

/// The wire form of a Sierra class carries the definition unchanged plus
/// the compiled blob.
pub open spec fn cairo1_dto_ok(r: Cairo1Class, d: Sierra, casm: Seq<u8>) -> bool {
    &&& r.abi@ == d.abi@
    &&& r.program@ == d.sierra_program@
    &&& r.contract_class_version@ == d.contract_class_version@
    &&& r.compiled@ == casm
    &&& sierra_entry_points_dto_ok(r.entry_points, d.entry_points_by_type)
}

fn map_offsets(v: Vec<SelectorAndOffset>) -> (r: Vec<EntryPoint>)
    ensures
        r@ == v@.map_values(|x: SelectorAndOffset| entry_point_of(x)),
{
    let mut r: Vec<EntryPoint> = Vec::new();
    let mut i: usize = 0;
    while i < v.len()
        invariant
            i <= v@.len(),
            r@.len() == i,
            forall|j: int| 0 <= j < i ==> r@[j] == entry_point_of(#[trigger] v@[j]),
        decreases v@.len() - i,
    {
        r.push(EntryPoint { selector: v[i].selector, offset: v[i].offset });
        i = i + 1;
    }
    proof {
        assert(r@ =~= v@.map_values(|x: SelectorAndOffset| entry_point_of(x)));
    }
    r
}

fn map_indices(v: Vec<SelectorAndFunctionIndex>) -> (r: Vec<SierraEntryPoint>)
    ensures
        r@ == v@.map_values(|x: SelectorAndFunctionIndex| sierra_entry_point_of(x)),
{
    let mut r: Vec<SierraEntryPoint> = Vec::new();
    let mut i: usize = 0;
    while i < v.len()
        invariant
            i <= v@.len(),
            r@.len() == i,
            forall|j: int| 0 <= j < i ==> r@[j] == sierra_entry_point_of(#[trigger] v@[j]),
        decreases v@.len() - i,
    {
        r.push(SierraEntryPoint { selector: v[i].selector, index: v[i].function_idx });
        i = i + 1;
    }
    proof {
        assert(r@ =~= v@.map_values(|x: SelectorAndFunctionIndex| sierra_entry_point_of(x)));
    }
    r
}

/// Makes an owned copy of a stored legacy class definition.
pub fn clone_cairo(d: &Cairo) -> (r: Cairo)
    ensures
        r.abi@ == d.abi@,
        r.program@ == d.program@,
        r.entry_points_by_type.external@ == d.entry_points_by_type.external@,
        r.entry_points_by_type.l1_handler@ == d.entry_points_by_type.l1_handler@,
        r.entry_points_by_type.constructor@ == d.entry_points_by_type.constructor@,
{
    Cairo {
        abi: crate::data::copy_vec(&d.abi),
        program: crate::data::copy_vec(&d.program),
        entry_points_by_type: CairoEntryPoints {
            external: crate::data::copy_vec(&d.entry_points_by_type.external),
            l1_handler: crate::data::copy_vec(&d.entry_points_by_type.l1_handler),
            constructor: crate::data::copy_vec(&d.entry_points_by_type.constructor),
        },
    }
}

/// Makes an owned copy of a stored Sierra class definition.
pub fn clone_sierra(d: &Sierra) -> (r: Sierra)
    ensures
        r.abi@ == d.abi@,
        r.sierra_program@ == d.sierra_program@,
        r.contract_class_version@ == d.contract_class_version@,
        r.entry_points_by_type.external@ == d.entry_points_by_type.external@,
        r.entry_points_by_type.l1_handler@ == d.entry_points_by_type.l1_handler@,
        r.entry_points_by_type.constructor@ == d.entry_points_by_type.constructor@,
{
    Sierra {
        abi: crate::data::copy_vec(&d.abi),
        sierra_program: crate::data::copy_vec(&d.sierra_program),
        contract_class_version: crate::data::copy_vec(&d.contract_class_version),
        entry_points_by_type: SierraEntryPoints {
            external: crate::data::copy_vec(&d.entry_points_by_type.external),
            l1_handler: crate::data::copy_vec(&d.entry_points_by_type.l1_handler),
            constructor: crate::data::copy_vec(&d.entry_points_by_type.constructor),
        },
    }
}

impl Cairo {
    /// The wire form of this legacy class definition.
    pub fn into_dto(self) -> (r: Cairo0Class)
        ensures
            cairo0_dto_ok(r, self),
    {
        Cairo0Class {
            abi: self.abi,
            externals: map_offsets(self.entry_points_by_type.external),
            l1_handlers: map_offsets(self.entry_points_by_type.l1_handler),
            constructors: map_offsets(self.entry_points_by_type.constructor),
            program: self.program,
        }
    }
}

impl SierraEntryPoints {
    /// The wire form of this entry-point table.
    pub fn into_dto(self) -> (r: Cairo1EntryPoints)
        ensures
            sierra_entry_points_dto_ok(r, self),
    {
        Cairo1EntryPoints {
            externals: map_indices(self.external),
            l1_handlers: map_indices(self.l1_handler),
            constructors: map_indices(self.constructor),
        }
    }
}

impl Sierra {
    /// The wire form of this Sierra class definition, paired with its
    /// compiled blob.
    pub fn into_dto(self, compiled: Vec<u8>) -> (r: Cairo1Class)
        ensures
            cairo1_dto_ok(r, self, compiled@),
    {
        Cairo1Class {
            abi: self.abi,
            program: self.sierra_program,
            entry_points: self.entry_points_by_type.into_dto(),
            compiled,
            contract_class_version: self.contract_class_version,
        }
    }
}

} // verus!
