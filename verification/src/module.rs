use vstd::prelude::*;

use crate::error::LoweringError;

verus! {

/// The low-level value types appearing in emitted code.
#[derive(Debug, Clone, Copy, PartialEq, Eq, Structural)]
pub enum LlTy {
    Void,
    /// Pointer to the opaque QUBIT struct.
    QubitPtr,
    /// Pointer to the opaque RESULT struct.
    ResultPtr,
    I1,
    I64,
    F64,
    /// Pointer to a byte string (output tags).
    I8Ptr,
}

/// The register an instruction defines: an SSA id with its type.
#[derive(Debug, Clone, Copy, PartialEq, Eq, Structural)]
pub struct Ret {
    pub id: u64,
    pub ty: LlTy,
}

/// A low-level value: an SSA register or a constant. Floats are carried as
/// raw bit patterns; integers of the report dialect as 64-bit patterns.
#[derive(Debug, Clone, PartialEq, Eq)]
pub enum LlVal {
    Reg { id: u64, ty: LlTy },
    ConstF64 { bits: u64 },
    ConstStr { value: String },
    ConstBool { value: bool },
    ConstInt { value: u64 },
    /// A statically assigned resource-handle address, reinterpreted as the
    /// handle pointer type (`ty`) with the given pointer width in bits.
    HandleAddr { addr: u64, width: u32, ty: LlTy },
}

/// Mathematical image of a low-level value.
pub ghost enum LlValV {
    Reg { id: u64, ty: LlTy },
    ConstF64 { bits: u64 },
    ConstStr { value: Seq<char> },
    ConstBool { value: bool },
    ConstInt { value: u64 },
    HandleAddr { addr: u64, width: u32, ty: LlTy },
}

impl View for LlVal {
    type V = LlValV;

    open spec fn view(&self) -> LlValV {
        match self {
            LlVal::Reg { id, ty } => LlValV::Reg { id: *id, ty: *ty },
            LlVal::ConstF64 { bits } => LlValV::ConstF64 { bits: *bits },
            LlVal::ConstStr { value } => LlValV::ConstStr { value: value@ },
            LlVal::ConstBool { value } => LlValV::ConstBool { value: *value },
            LlVal::ConstInt { value } => LlValV::ConstInt { value: *value },
            LlVal::HandleAddr { addr, width, ty } => LlValV::HandleAddr {
                addr: *addr,
                width: *width,
                ty: *ty,
            },
        }
    }
}

/// An instruction of an emitted function body: a call of an intrinsic by
/// name, with its argument values and, for non-void intrinsics, the register
/// it defines. After lowering, every instruction is such a call.
#[derive(Debug, Clone, PartialEq, Eq)]
pub struct Instr {
    pub callee: String,
    pub args: Vec<LlVal>,
    pub ret: Option<Ret>,
}

/// Mathematical image of an instruction.
#[verifier::ext_equal]
pub ghost struct InstrV {
    pub callee: Seq<char>,
    pub args: Seq<LlValV>,
    pub ret: Option<Ret>,
}

impl View for Instr {
    type V = InstrV;

    open spec fn view(&self) -> InstrV {
        InstrV {
            callee: self.callee@,
            args: self.args@.map_values(|v: LlVal| v@),
            ret: self.ret,
        }
    }
}

/// A declared intrinsic: name and fixed signature. Declarations are memoized
/// by name; requesting the same name with the same signature is idempotent.
#[derive(Debug, Clone, PartialEq, Eq)]
pub struct Decl {
    pub name: String,
    pub params: Vec<LlTy>,
    pub ret: LlTy,
}

/// Mathematical image of a declaration.
pub ghost struct DeclV {
    pub name: Seq<char>,
    pub params: Seq<LlTy>,
    pub ret: LlTy,
}

impl View for Decl {
    type V = DeclV;

    open spec fn view(&self) -> DeclV {
        DeclV { name: self.name@, params: self.params@, ret: self.ret }
    }
}

/// A string attribute stamped on an emitted function.
#[derive(Debug, Clone, PartialEq, Eq)]
pub struct Attr {
    pub name: String,
    pub value: String,
}

impl View for Attr {
    type V = (Seq<char>, Seq<char>);

    open spec fn view(&self) -> (Seq<char>, Seq<char>) {
        (self.name@, self.value@)
    }
}

/// A basic block: an ordered run of instructions.
#[derive(Debug, Clone, PartialEq, Eq)]
pub struct Block {
    pub instrs: Vec<Instr>,
}

impl View for Block {
    type V = Seq<InstrV>;

    open spec fn view(&self) -> Seq<InstrV> {
        self.instrs@.map_values(|i: Instr| i@)
    }
}

/// An emitted native function: name, stamped attributes, and its body as an
/// ordered sequence of basic blocks.
#[derive(Debug, Clone, PartialEq, Eq)]
pub struct ModFunc {
    pub name: String,
    pub attrs: Vec<Attr>,
    pub blocks: Vec<Block>,
}

/// The value of one module-level metadata record.
#[derive(Debug, Clone, Copy, PartialEq, Eq, Structural)]
pub enum MetaVal {
    I32(u32),
    I1(bool),
}

/// A module-level metadata record: a merge-behavior code, a record name and
/// a value, mirroring an LLVM module-flags entry.
#[derive(Debug, Clone, PartialEq, Eq)]
pub struct MetaRec {
    pub behavior: u32,
    pub name: String,
    pub value: MetaVal,
}

/// Mathematical image of a metadata record.
pub ghost struct MetaRecV {
    pub behavior: u32,
    pub name: Seq<char>,
    pub value: MetaVal,
}

impl View for MetaRec {
    type V = MetaRecV;

    open spec fn view(&self) -> MetaRecV {
        MetaRecV { behavior: self.behavior, name: self.name@, value: self.value }
    }
}

/// A named module-level metadata entry (key plus record).
#[derive(Debug, Clone, PartialEq, Eq)]
pub struct ModuleFlag {
    pub key: String,
    pub rec: MetaRec,
}

impl View for ModuleFlag {
    type V = (Seq<char>, MetaRecV);

    open spec fn view(&self) -> (Seq<char>, MetaRecV) {
        (self.key@, self.rec@)
    }
}

/// The emitted module: defined functions, intrinsic declarations, and
/// module-level metadata, plus the pointer width of handle types where the
/// target states one.
#[derive(Debug, Clone, PartialEq, Eq)]
pub struct Module {
    pub name: String,
    pub funcs: Vec<ModFunc>,
    pub decls: Vec<Decl>,
    pub flags: Vec<ModuleFlag>,
    /// Statically known pointer width of resource-handle types in bits, if
    /// the target states one.
    pub ptr_width: Option<u32>,
}

/// Whether some declaration in `decls` has the given name.
pub open spec fn spec_has_decl(decls: Seq<Decl>, name: Seq<char>) -> bool {
    exists|j: int| 0 <= j < decls.len() && decls[j].name@ == name
}

/// Looks up a declaration by name, returning the first index that matches.
pub fn find_decl(decls: &Vec<Decl>, name: &str) -> (r: Option<usize>)
    ensures
        match r {
            Some(i) => i < decls@.len() && decls@[i as int].name@ == name@,
            None => !spec_has_decl(decls@, name@),
        },
{
    let target: String = name.to_owned();
    let mut i: usize = 0;
    #[verifier::loop_isolation(false)]
    while i < decls.len()
        invariant
            i <= decls@.len(),
            forall|j: int| 0 <= j < i ==> decls@[j].name@ != name@,
        decreases decls@.len() - i,
    {
        if decls[i].name == target {
            return Some(i);
        }
        i += 1;
    }
    None
}

/// Compares two type lists.
pub fn lltys_eq(a: &Vec<LlTy>, b: &Vec<LlTy>) -> (r: bool)
    ensures
        r <==> a@ == b@,
{
    if a.len() != b.len() {
        return false;
    }
    let mut i: usize = 0;
    #[verifier::loop_isolation(false)]
    while i < a.len()
        invariant
            i <= a@.len(),
            a@.len() == b@.len(),
            forall|j: int| 0 <= j < i ==> a@[j] == b@[j],
        decreases a@.len() - i,
    {
        if a[i] != b[i] {
            return false;
        }
        i += 1;
    }
    assert(a@ =~= b@);
    true
}

/// No two declarations share a name.
pub open spec fn spec_unique_decl_names(decls: Seq<Decl>) -> bool {
    forall|j: int, k: int|
        0 <= j < k < decls.len() ==> #[trigger] decls[j].name@ != #[trigger] decls[k].name@
}

/// Declares the intrinsic `name` with the given signature in `decls`,
/// memoized by name: an existing declaration with the same signature is
/// reused, an existing one with a different signature is a fatal error, and
/// an absent one is appended.
pub fn declare_intrinsic(decls: &mut Vec<Decl>, name: &str, params: Vec<LlTy>, ret: LlTy) -> (r:
    Result<(), LoweringError>)
    requires
        spec_unique_decl_names(old(decls)@),
    ensures
        spec_unique_decl_names(final(decls)@),
        r is Ok <==> spec_declare_ok(old(decls)@, name@, params@, ret),
        match r {
            Ok(()) => spec_decls_after(old(decls)@, final(decls)@, name@, params@, ret),
            Err(e) => {
                &&& e == LoweringError::IntrinsicSignatureConflict
                &&& final(decls)@ == old(decls)@
            },
        },
{
    let idx = find_decl(decls, name);
    match idx {
        Some(i) => {
            let same = lltys_eq(&decls[i].params, &params) && decls[i].ret == ret;
            if same {
                assert forall|j: int|
                    0 <= j < decls@.len() && #[trigger] decls@[j].name@ == name@ implies decls@[
                    j
                ].params@ == params@ && decls@[j].ret == ret by {
                    if j != i {
                        assert(decls@[j].name@ != decls@[i as int].name@);
                    }
                }
                Ok(())
            } else {
                assert(!spec_declare_ok(decls@, name@, params@, ret)) by {
                    assert(decls@[i as int].name@ == name@);
                }
                Err(LoweringError::IntrinsicSignatureConflict)
            }
        },
        None => {
            let name_string: String = name.to_owned();
            decls.push(Decl { name: name_string, params, ret });
            Ok(())
        },
    }
}

/// How a successful declaration of `name` relates the declaration list
/// after the call to the one before it: unchanged when the name was already
/// present, extended by exactly the new entry when it was absent.
pub open spec fn spec_decls_after(
    before: Seq<Decl>,
    after: Seq<Decl>,
    name: Seq<char>,
    params: Seq<LlTy>,
    ret: LlTy,
) -> bool {
    if spec_has_decl(before, name) {
        after == before
    } else {
        &&& after.len() == before.len() + 1
        &&& forall|j: int| 0 <= j < before.len() ==> after[j] == before[j]
        &&& after.last().name@ == name
        &&& after.last().params@ == params
        &&& after.last().ret == ret
    }
}

/// Whether declaring `name` with this signature succeeds: the name is absent
/// or the existing declaration of it carries the same signature.
pub open spec fn spec_declare_ok(
    decls: Seq<Decl>,
    name: Seq<char>,
    params: Seq<LlTy>,
    ret: LlTy,
) -> bool {
    forall|j: int|
        0 <= j < decls.len() && (#[trigger] decls[j].name@) == name ==> decls[j].params@ == params
            && decls[j].ret == ret
}

} // verus!
