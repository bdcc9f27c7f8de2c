//! Places of the CFG: a local followed by dereference, field and index
//! projections. Walking a place over a table of types gives its type, its
//! volatility, and the address computation the back end emits for it.

use vstd::prelude::*;

use crate::abi::{err_view, CodegenError, ErrView, TyId};
use crate::text::{decimal, decimal_u64, push_chars, push_str, string_of};

verus! {

/// A type together with its `volatile` qualifier.
#[derive(Copy, Clone, Debug, PartialEq, Eq, Structural)]
pub struct QualTy {
    pub ty: TyId,
    pub is_volatile: bool,
}

/// A field of a record definition.
#[derive(Copy, Clone, Debug, PartialEq, Eq, Structural)]
pub struct FieldDef {
    pub ty: TyId,
    pub is_volatile: bool,
}

/// Where a field lies in its record.
#[derive(Copy, Clone, Debug, PartialEq, Eq, Structural)]
pub struct FieldPos {
    /// Byte offset of the field (of its storage unit, for a bit-field).
    pub offset: u64,
    /// The field is a bit-field.
    pub is_bitfield: bool,
}

/// A record definition: its kind, its fields, and their layout (or the
/// text of the layout error).
#[derive(Debug)]
pub struct RecordDef {
    pub union: bool,
    pub fields: Vec<FieldDef>,
    pub layout: Result<Vec<FieldPos>, String>,
}

/// What the definition id of a record type leads to.
#[derive(Debug)]
pub enum RecordLookup {
    Found(RecordDef),
    /// No definition has the id.
    Missing,
    /// The definition is not a record.
    NotARecord,
}

/// A type as place projections see it.
#[derive(Debug)]
pub enum PlaceTyKind {
    Ptr(QualTy),
    Array { elem: QualTy, is_vla: bool },
    Record { def: u32, lookup: RecordLookup },
    Other,
}

/// One projection of a place.
#[derive(Copy, Clone, Debug, PartialEq, Eq, Structural)]
pub enum Proj {
    Deref,
    Field(u32),
    /// Indexing by an operand (evaluated by the caller).
    Index,
}

/// The declaration of a local: its type and whether it is volatile.
#[derive(Copy, Clone, Debug, PartialEq, Eq, Structural)]
pub struct LocalDecl {
    pub ty: TyId,
    pub is_volatile: bool,
}

/// A place: a local and the projections applied to it.
#[derive(Debug)]
pub struct Place {
    pub base: u32,
    pub projection: Vec<Proj>,
}

/// A field as a projection reaches it.
#[derive(Copy, Clone, Debug, PartialEq, Eq, Structural)]
pub struct FieldAccess {
    pub union: bool,
    pub ty: TyId,
    pub is_volatile: bool,
    pub pos: FieldPos,
}

/// One step of the address computation of a place.
#[derive(Copy, Clone, Debug, PartialEq, Eq, Structural)]
pub enum AddrStep {
    /// Load a pointer from the current address (a volatile load when set).
    LoadPtr { volatile: bool },
    /// Advance by this many bytes.
    ByteOffset(u64),
    /// `getelementptr` over elements of this type, by the index operand.
    IndexElem(TyId),
    /// `getelementptr` into an array of this type: index 0, then the index
    /// operand.
    IndexArray(TyId),
}

/// `name(n)`, as an id prints.
pub open spec fn id_text(name: Seq<char>, n: u32) -> Seq<char> {
    name + "("@ + decimal(n as nat) + ")"@
}

/// The error for a projection that does not apply to a type.
pub open spec fn invalid_projection(what: Seq<char>, ty: TyId) -> ErrView {
    ErrView::Internal("invalid "@ + what + " projection for place type "@ + id_text("TyId"@, ty.0))
}

/// The error for a place whose base local is not declared.
pub open spec fn missing_local(base: u32) -> ErrView {
    ErrView::Internal("place base local "@ + id_text("Local"@, base) + " is missing"@)
}

/// The entry of `t` in the type table.
pub open spec fn ty_at(types: Seq<PlaceTyKind>, t: TyId) -> PlaceTyKind {
    types[t.0 as int]
}

/// `t` has an entry in the type table.
pub open spec fn ty_in(types: Seq<PlaceTyKind>, t: TyId) -> bool {
    (t.0 as int) < types.len()
}

/// Every type that an entry of the table refers to has an entry.
pub open spec fn types_wf(types: Seq<PlaceTyKind>) -> bool {
    forall|i: int|
        0 <= i < types.len() ==> match #[trigger] types[i] {
            PlaceTyKind::Ptr(q) => ty_in(types, q.ty),
            PlaceTyKind::Array { elem, .. } => ty_in(types, elem.ty),
            PlaceTyKind::Record { lookup: RecordLookup::Found(r), .. } => forall|j: int|
                0 <= j < r.fields@.len() ==> ty_in(types, #[trigger] r.fields@[j].ty),
            _ => true,
        }
}

/// Every local's type has an entry in the table.
pub open spec fn locals_wf(types: Seq<PlaceTyKind>, locals: Seq<LocalDecl>) -> bool {
    forall|i: int| 0 <= i < locals.len() ==> ty_in(types, #[trigger] locals[i].ty)
}

/// Field `idx` of the record type `t`, or why it cannot be reached.
pub open spec fn field_access_spec(types: Seq<PlaceTyKind>, t: TyId, idx: u32) -> Result<FieldAccess, ErrView> {
    match ty_at(types, t) {
        PlaceTyKind::Record { def, lookup } => match lookup {
            RecordLookup::Missing => Err(
                ErrView::Internal("record definition "@ + id_text("DefId"@, def) + " is missing"@),
            ),
            RecordLookup::NotARecord => Err(
                ErrView::Internal("definition "@ + id_text("DefId"@, def) + " is not a record"@),
            ),
            RecordLookup::Found(r) => if idx >= r.fields@.len() {
                Err(
                    ErrView::Internal(
                        "record "@ + id_text("DefId"@, def) + " has no field at index "@ + decimal(idx as nat),
                    ),
                )
            } else {
                match r.layout {
                    Err(e) => Err(ErrView::Lowering(t, e@)),
                    Ok(ps) => if idx >= ps@.len() {
                        Err(
                            ErrView::Internal(
                                "record "@ + id_text("DefId"@, def) + " layout has no field at index "@
                                    + decimal(idx as nat),
                            ),
                        )
                    } else {
                        Ok(
                            FieldAccess {
                                union: r.union,
                                ty: r.fields@[idx as int].ty,
                                is_volatile: r.fields@[idx as int].is_volatile,
                                pos: ps@[idx as int],
                            },
                        )
                    },
                }
            },
        },
        _ => Err(invalid_projection("field"@, t)),
    }
}

/// The type that projection `p` reaches from type `t`.
pub open spec fn step_ty(types: Seq<PlaceTyKind>, t: TyId, p: Proj) -> Result<TyId, ErrView> {
    match p {
        Proj::Deref => match ty_at(types, t) {
            PlaceTyKind::Ptr(q) => Ok(q.ty),
            _ => Err(invalid_projection("dereference"@, t)),
        },
        Proj::Field(i) => match field_access_spec(types, t, i) {
            Ok(f) => Ok(f.ty),
            Err(e) => Err(e),
        },
        Proj::Index => match ty_at(types, t) {
            PlaceTyKind::Array { elem, .. } => Ok(elem.ty),
            PlaceTyKind::Ptr(q) => Ok(q.ty),
            _ => Err(invalid_projection("index"@, t)),
        },
    }
}

/// The type after the first `n` projections of `projs` from `start`.
pub open spec fn walk_ty(types: Seq<PlaceTyKind>, start: TyId, projs: Seq<Proj>, n: nat) -> Result<TyId, ErrView>
    decreases n,
{
    if n == 0 {
        Ok(start)
    } else {
        match walk_ty(types, start, projs, (n - 1) as nat) {
            Ok(t) => step_ty(types, t, projs[n - 1]),
            Err(e) => Err(e),
        }
    }
}

/// Type and volatility after projection `p`. A dereference or an index
/// through a pointer takes the pointee's qualifier; a field adds its own.
/// An array element adds its qualifier; for the object path (`object`) only
/// when the element is itself a pointer, stored in a volatile slot.
pub open spec fn step_vol(types: Seq<PlaceTyKind>, s: (TyId, bool), p: Proj, object: bool) -> Result<(TyId, bool), ErrView> {
    let (t, v) = s;
    match p {
        Proj::Deref => match ty_at(types, t) {
            PlaceTyKind::Ptr(q) => Ok((q.ty, q.is_volatile)),
            _ => Err(invalid_projection("dereference"@, t)),
        },
        Proj::Field(i) => match field_access_spec(types, t, i) {
            Ok(f) => Ok((f.ty, v || f.is_volatile)),
            Err(e) => Err(e),
        },
        Proj::Index => match ty_at(types, t) {
            PlaceTyKind::Array { elem, .. } => Ok(
                (elem.ty, v || (elem.is_volatile && (!object || ty_at(types, elem.ty) is Ptr))),
            ),
            PlaceTyKind::Ptr(q) => Ok((q.ty, q.is_volatile)),
            _ => Err(invalid_projection("index"@, t)),
        },
    }
}

/// Type and volatility after the first `n` projections.
pub open spec fn walk_vol(types: Seq<PlaceTyKind>, start: (TyId, bool), projs: Seq<Proj>, n: nat, object: bool) -> Result<
    (TyId, bool),
    ErrView,
>
    decreases n,
{
    if n == 0 {
        Ok(start)
    } else {
        match walk_vol(types, start, projs, (n - 1) as nat, object) {
            Ok(s) => step_vol(types, s, projs[n - 1], object),
            Err(e) => Err(e),
        }
    }
}

/// The type of a place.
pub open spec fn place_ty_spec(types: Seq<PlaceTyKind>, locals: Seq<LocalDecl>, base: u32, projs: Seq<Proj>) -> Result<TyId, ErrView> {
    if base >= locals.len() {
        Err(missing_local(base))
    } else {
        walk_ty(types, locals[base as int].ty, projs, projs.len())
    }
}

/// Whether an access to a place is volatile.
pub open spec fn place_volatile_spec(types: Seq<PlaceTyKind>, locals: Seq<LocalDecl>, base: u32, projs: Seq<Proj>) -> Result<bool, ErrView> {
    if base >= locals.len() {
        Err(missing_local(base))
    } else {
        let d = locals[base as int];
        match walk_vol(types, (d.ty, d.is_volatile), projs, projs.len(), false) {
            Ok(s) => Ok(s.1),
            Err(e) => Err(e),
        }
    }
}

/// Whether the object reached by the first `n` projections of a place
/// (at most all of them) is volatile.
pub open spec fn prefix_volatile_spec(
    types: Seq<PlaceTyKind>,
    locals: Seq<LocalDecl>,
    base: u32,
    projs: Seq<Proj>,
    n: nat,
) -> Result<bool, ErrView> {
    if base >= locals.len() {
        Err(missing_local(base))
    } else {
        let d = locals[base as int];
        let m = if n < projs.len() {
            n
        } else {
            projs.len()
        };
        match walk_vol(types, (d.ty, d.is_volatile), projs, m, true) {
            Ok(s) => Ok(s.1),
            Err(e) => Err(e),
        }
    }
}

/// The address steps of projection `p` from type `t`, after `steps`,
/// where `vol` is the volatility of the object reached so far.
pub open spec fn addr_step(types: Seq<PlaceTyKind>, t: TyId, steps: Seq<AddrStep>, vol: bool, p: Proj) -> Result<
    (TyId, Seq<AddrStep>),
    ErrView,
> {
    match p {
        Proj::Deref => match ty_at(types, t) {
            PlaceTyKind::Ptr(q) => Ok((q.ty, steps.push(AddrStep::LoadPtr { volatile: vol }))),
            _ => Err(invalid_projection("dereference"@, t)),
        },
        Proj::Field(i) => match field_access_spec(types, t, i) {
            Err(e) => Err(e),
            Ok(f) => if f.pos.is_bitfield {
                Err(ErrView::Internal("cannot take the address of a bit-field"@))
            } else if !f.union && f.pos.offset != 0 {
                Ok((f.ty, steps.push(AddrStep::ByteOffset(f.pos.offset))))
            } else {
                Ok((f.ty, steps))
            },
        },
        Proj::Index => match ty_at(types, t) {
            PlaceTyKind::Array { elem, is_vla } => if is_vla {
                Ok((elem.ty, steps.push(AddrStep::IndexElem(elem.ty))))
            } else {
                Ok((elem.ty, steps.push(AddrStep::IndexArray(t))))
            },
            PlaceTyKind::Ptr(q) => Ok(
                (q.ty, steps.push(AddrStep::LoadPtr { volatile: vol }).push(AddrStep::IndexElem(q.ty))),
            ),
            _ => Err(invalid_projection("index"@, t)),
        },
    }
}

/// Type and address steps after the first `n` projections from the local
/// `d`.
pub open spec fn addr_walk(types: Seq<PlaceTyKind>, d: LocalDecl, projs: Seq<Proj>, n: nat) -> Result<
    (TyId, Seq<AddrStep>),
    ErrView,
>
    decreases n,
{
    if n == 0 {
        Ok((d.ty, Seq::empty()))
    } else {
        match addr_walk(types, d, projs, (n - 1) as nat) {
            Err(e) => Err(e),
            Ok(r) => match walk_vol(types, (d.ty, d.is_volatile), projs, (n - 1) as nat, true) {
                Err(e) => Err(e),
                Ok(s) => addr_step(types, r.0, r.1, s.1, projs[n - 1]),
            },
        }
    }
}

/// The address computation of a place: its type and steps, where the
/// local's storage comes first. `storage` is the number of locals that
/// have storage.
pub open spec fn place_addr_spec(
    types: Seq<PlaceTyKind>,
    locals: Seq<LocalDecl>,
    storage: nat,
    base: u32,
    projs: Seq<Proj>,
) -> Result<(TyId, Seq<AddrStep>), ErrView> {
    if base >= storage {
        Err(ErrView::Internal("missing LLVM storage for local "@ + id_text("Local"@, base)))
    } else if base >= locals.len() {
        Err(missing_local(base))
    } else {
        addr_walk(types, locals[base as int], projs, projs.len())
    }
}

/// An error in the first `k` projections is the error of any longer walk.
proof fn lemma_walk_ty_err(types: Seq<PlaceTyKind>, start: TyId, projs: Seq<Proj>, k: nat, m: nat)
    requires
        k <= m,
        walk_ty(types, start, projs, k) is Err,
    ensures
        walk_ty(types, start, projs, m) == walk_ty(types, start, projs, k),
    decreases m - k,
{
    if k < m {
        lemma_walk_ty_err(types, start, projs, k, (m - 1) as nat);
    }
}

/// An error in the first `k` projections is the error of any longer walk.
proof fn lemma_walk_vol_err(types: Seq<PlaceTyKind>, start: (TyId, bool), projs: Seq<Proj>, k: nat, m: nat, object: bool)
    requires
        k <= m,
        walk_vol(types, start, projs, k, object) is Err,
    ensures
        walk_vol(types, start, projs, m, object) == walk_vol(types, start, projs, k, object),
    decreases m - k,
{
    if k < m {
        lemma_walk_vol_err(types, start, projs, k, (m - 1) as nat, object);
    }
}

/// An error in the first `k` projections is the error of any longer walk.
proof fn lemma_addr_walk_err(types: Seq<PlaceTyKind>, d: LocalDecl, projs: Seq<Proj>, k: nat, m: nat)
    requires
        k <= m,
        addr_walk(types, d, projs, k) is Err,
    ensures
        addr_walk(types, d, projs, m) == addr_walk(types, d, projs, k),
    decreases m - k,
{
    if k < m {
        lemma_addr_walk_err(types, d, projs, k, (m - 1) as nat);
    }
}

/// A field that a projection reaches has an entry in the type table.
proof fn field_ty_in(types: Seq<PlaceTyKind>, t: TyId, idx: u32)
    requires
        types_wf(types),
        ty_in(types, t),
        field_access_spec(types, t, idx) is Ok,
    ensures
        ty_in(types, field_access_spec(types, t, idx)->Ok_0.ty),
{
    let i = t.0 as int;
    assert(0 <= i < types.len());
    match types[i] {
        PlaceTyKind::Record { lookup: RecordLookup::Found(r), .. } => {
            assert(ty_in(types, r.fields@[idx as int].ty));
        },
        _ => {},
    }
}

fn id_chars(name: &str, n: u32) -> (v: Vec<char>)
    ensures
        v@ == id_text(name@, n),
{
    let mut v: Vec<char> = Vec::new();
    push_str(&mut v, name);
    push_str(&mut v, "(");
    let digits = decimal_u64(n as u64);
    push_chars(&mut v, digits.as_slice());
    push_str(&mut v, ")");
    assert(v@ =~= id_text(name@, n));
    v
}

fn internal(v: Vec<char>) -> (e: CodegenError)
    ensures
        err_view(e) == ErrView::Internal(v@),
{
    CodegenError::Internal(string_of(v.as_slice()))
}

fn invalid_projection_error(what: &str, ty: TyId) -> (e: CodegenError)
    ensures
        err_view(e) == invalid_projection(what@, ty),
{
    let mut v: Vec<char> = Vec::new();
    push_str(&mut v, "invalid ");
    push_str(&mut v, what);
    push_str(&mut v, " projection for place type ");
    let id = id_chars("TyId", ty.0);
    push_chars(&mut v, id.as_slice());
    assert(v@ =~= "invalid "@ + what@ + " projection for place type "@ + id_text("TyId"@, ty.0));
    internal(v)
}

fn id_error(prefix: &str, name: &str, n: u32, suffix: &str) -> (e: CodegenError)
    ensures
        err_view(e) == ErrView::Internal(prefix@ + id_text(name@, n) + suffix@),
{
    let mut v: Vec<char> = Vec::new();
    push_str(&mut v, prefix);
    let id = id_chars(name, n);
    push_chars(&mut v, id.as_slice());
    push_str(&mut v, suffix);
    assert(v@ =~= prefix@ + id_text(name@, n) + suffix@);
    internal(v)
}

fn no_field_error(def: u32, what: &str, idx: u32) -> (e: CodegenError)
    ensures
        err_view(e) == ErrView::Internal("record "@ + id_text("DefId"@, def) + what@ + decimal(idx as nat)),
{
    let mut v: Vec<char> = Vec::new();
    push_str(&mut v, "record ");
    let id = id_chars("DefId", def);
    push_chars(&mut v, id.as_slice());
    push_str(&mut v, what);
    let digits = decimal_u64(idx as u64);
    push_chars(&mut v, digits.as_slice());
    assert(v@ =~= "record "@ + id_text("DefId"@, def) + what@ + decimal(idx as nat));
    internal(v)
}

fn missing_local_error(base: u32) -> (e: CodegenError)
    ensures
        err_view(e) == missing_local(base),
{
    id_error("place base local ", "Local", base, " is missing")
}

/// Field `idx` of the record type `ty`.
pub fn field_access(types: &[PlaceTyKind], ty: TyId, idx: u32) -> (r: Result<FieldAccess, CodegenError>)
    requires
        ty_in(types@, ty),
    ensures
        match field_access_spec(types@, ty, idx) {
            Ok(f) => r == Ok::<FieldAccess, CodegenError>(f),
            Err(e) => r is Err && err_view(r->Err_0) == e,
        },
{
    match &types[ty.0 as usize] {
        PlaceTyKind::Record { def, lookup } => match lookup {
            RecordLookup::Missing => Err(id_error("record definition ", "DefId", *def, " is missing")),
            RecordLookup::NotARecord => Err(id_error("definition ", "DefId", *def, " is not a record")),
            RecordLookup::Found(rec) => {
                if idx as usize >= rec.fields.len() {
                    return Err(no_field_error(*def, " has no field at index ", idx));
                }
                match &rec.layout {
                    Err(e) => Err(CodegenError::TypeLowering { ty, reason: e.clone() }),
                    Ok(ps) => {
                        if idx as usize >= ps.len() {
                            return Err(no_field_error(*def, " layout has no field at index ", idx));
                        }
                        let fd = rec.fields[idx as usize];
                        Ok(
                            FieldAccess {
                                union: rec.union,
                                ty: fd.ty,
                                is_volatile: fd.is_volatile,
                                pos: ps[idx as usize],
                            },
                        )
                    },
                }
            },
        },
        _ => Err(invalid_projection_error("field", ty)),
    }
}

/// The type of `place`.
pub fn place_ty(types: &[PlaceTyKind], locals: &[LocalDecl], place: &Place) -> (r: Result<TyId, CodegenError>)
    requires
        types_wf(types@),
        locals_wf(types@, locals@),
    ensures
        match place_ty_spec(types@, locals@, place.base, place.projection@) {
            Ok(t) => r == Ok::<TyId, CodegenError>(t),
            Err(e) => r is Err && err_view(r->Err_0) == e,
        },
{
    if place.base as usize >= locals.len() {
        return Err(missing_local_error(place.base));
    }
    let ghost projs = place.projection@;
    let ghost start = locals@[place.base as int].ty;
    let mut t = locals[place.base as usize].ty;
    for i in 0..place.projection.len()
        invariant
            projs == place.projection@,
            (place.base as int) < locals@.len(),
            start == locals@[place.base as int].ty,
            types_wf(types@),
            ty_in(types@, t),
            walk_ty(types@, start, projs, i as nat) == Ok::<TyId, ErrView>(t),
    {
        proof {
            assert(types_wf(types@));
        }
        match place.projection[i] {
            Proj::Deref => match &types[t.0 as usize] {
                PlaceTyKind::Ptr(q) => {
                    t = q.ty;
                },
                _ => {
                    proof {
                        assert(walk_ty(types@, start, projs, (i + 1) as nat) == step_ty(types@, t, projs[i as int]));
                        lemma_walk_ty_err(types@, start, projs, (i + 1) as nat, projs.len());
                    }
                    return Err(invalid_projection_error("dereference", t));
                },
            },
            Proj::Field(k) => {
                let f = match field_access(types, t, k) {
                    Ok(f) => f,
                    Err(e) => {
                        proof {
                            assert(walk_ty(types@, start, projs, (i + 1) as nat) == step_ty(types@, t, projs[i as int]));
                            lemma_walk_ty_err(types@, start, projs, (i + 1) as nat, projs.len());
                        }
                        return Err(e);
                    },
                };
                proof {
                    field_ty_in(types@, t, k);
                }
                t = f.ty;
            },
            Proj::Index => match &types[t.0 as usize] {
                PlaceTyKind::Array { elem, .. } => {
                    t = elem.ty;
                },
                PlaceTyKind::Ptr(q) => {
                    t = q.ty;
                },
                _ => {
                    proof {
                        assert(walk_ty(types@, start, projs, (i + 1) as nat) == step_ty(types@, t, projs[i as int]));
                        lemma_walk_ty_err(types@, start, projs, (i + 1) as nat, projs.len());
                    }
                    return Err(invalid_projection_error("index", t));
                },
            },
        }
    }
    Ok(t)
}

fn walk_volatile(types: &[PlaceTyKind], d: LocalDecl, projs: &Vec<Proj>, n: usize, object: bool) -> (r: Result<
    (TyId, bool),
    CodegenError,
>)
    requires
        types_wf(types@),
        ty_in(types@, d.ty),
        n <= projs@.len(),
    ensures
        match walk_vol(types@, (d.ty, d.is_volatile), projs@, n as nat, object) {
            Ok(s) => r == Ok::<(TyId, bool), CodegenError>(s),
            Err(e) => r is Err && err_view(r->Err_0) == e,
        },
{
    let ghost start = (d.ty, d.is_volatile);
    let mut t = d.ty;
    let mut v = d.is_volatile;
    for i in 0..n
        invariant
            n <= projs@.len(),
            types_wf(types@),
            start == (d.ty, d.is_volatile),
            ty_in(types@, t),
            walk_vol(types@, start, projs@, i as nat, object) == Ok::<(TyId, bool), ErrView>((t, v)),
    {
        proof {
            assert(walk_vol(types@, start, projs@, (i + 1) as nat, object) == step_vol(
                types@,
                (t, v),
                projs@[i as int],
                object,
            ));
        }
        match projs[i] {
            Proj::Deref => match &types[t.0 as usize] {
                PlaceTyKind::Ptr(q) => {
                    t = q.ty;
                    v = q.is_volatile;
                },
                _ => {
                    proof {
                        lemma_walk_vol_err(types@, start, projs@, (i + 1) as nat, n as nat, object);
                    }
                    return Err(invalid_projection_error("dereference", t));
                },
            },
            Proj::Field(k) => {
                let f = match field_access(types, t, k) {
                    Ok(f) => f,
                    Err(e) => {
                        proof {
                            lemma_walk_vol_err(types@, start, projs@, (i + 1) as nat, n as nat, object);
                        }
                        return Err(e);
                    },
                };
                proof {
                    field_ty_in(types@, t, k);
                }
                t = f.ty;
                v = v || f.is_volatile;
            },
            Proj::Index => match &types[t.0 as usize] {
                PlaceTyKind::Array { elem, .. } => {
                    let slot = elem.is_volatile && (!object || matches!(types[elem.ty.0 as usize], PlaceTyKind::Ptr(_)));
                    t = elem.ty;
                    v = v || slot;
                },
                PlaceTyKind::Ptr(q) => {
                    t = q.ty;
                    v = q.is_volatile;
                },
                _ => {
                    proof {
                        lemma_walk_vol_err(types@, start, projs@, (i + 1) as nat, n as nat, object);
                    }
                    return Err(invalid_projection_error("index", t));
                },
            },
        }
    }
    Ok((t, v))
}

/// Whether an access to `place` is volatile.
pub fn place_is_volatile(types: &[PlaceTyKind], locals: &[LocalDecl], place: &Place) -> (r: Result<bool, CodegenError>)
    requires
        types_wf(types@),
        locals_wf(types@, locals@),
    ensures
        match place_volatile_spec(types@, locals@, place.base, place.projection@) {
            Ok(b) => r == Ok::<bool, CodegenError>(b),
            Err(e) => r is Err && err_view(r->Err_0) == e,
        },
{
    if place.base as usize >= locals.len() {
        return Err(missing_local_error(place.base));
    }
    let d = locals[place.base as usize];
    match walk_volatile(types, d, &place.projection, place.projection.len(), false) {
        Ok(s) => Ok(s.1),
        Err(e) => Err(e),
    }
}

/// Whether the object that the first `prefix_len` projections of `place`
/// reach is volatile: the qualifiers on the object path (the local, struct
/// fields, volatile pointer slots of arrays), used for loads of pointers.
pub fn place_prefix_object_volatile(
    types: &[PlaceTyKind],
    locals: &[LocalDecl],
    place: &Place,
    prefix_len: usize,
) -> (r: Result<bool, CodegenError>)
    requires
        types_wf(types@),
        locals_wf(types@, locals@),
    ensures
        match prefix_volatile_spec(types@, locals@, place.base, place.projection@, prefix_len as nat) {
            Ok(b) => r == Ok::<bool, CodegenError>(b),
            Err(e) => r is Err && err_view(r->Err_0) == e,
        },
{
    if place.base as usize >= locals.len() {
        return Err(missing_local_error(place.base));
    }
    let d = locals[place.base as usize];
    let m = if prefix_len < place.projection.len() {
        prefix_len
    } else {
        place.projection.len()
    };
    match walk_volatile(types, d, &place.projection, m, true) {
        Ok(s) => Ok(s.1),
        Err(e) => Err(e),
    }
}

/// The address computation of `place`: the steps from the storage of its
/// local, and the type of the place. `storage` is the number of locals that
/// have storage. The operand of an index projection is evaluated by the
/// caller when it meets the projection.
pub fn place_addr_plan(types: &[PlaceTyKind], locals: &[LocalDecl], storage: usize, place: &Place) -> (r: Result<
    (TyId, Vec<AddrStep>),
    CodegenError,
>)
    requires
        types_wf(types@),
        locals_wf(types@, locals@),
    ensures
        match place_addr_spec(types@, locals@, storage as nat, place.base, place.projection@) {
            Ok(x) => r matches Ok(y) && y.0 == x.0 && y.1@ == x.1,
            Err(e) => r is Err && err_view(r->Err_0) == e,
        },
{
    if place.base as usize >= storage {
        let mut v: Vec<char> = Vec::new();
        push_str(&mut v, "missing LLVM storage for local ");
        let id = id_chars("Local", place.base);
        push_chars(&mut v, id.as_slice());
        assert(v@ =~= "missing LLVM storage for local "@ + id_text("Local"@, place.base));
        return Err(internal(v));
    }
    if place.base as usize >= locals.len() {
        return Err(missing_local_error(place.base));
    }
    let d = locals[place.base as usize];
    let ghost projs = place.projection@;
    let ghost start = (d.ty, d.is_volatile);
    let mut t = d.ty;
    let mut vol = d.is_volatile;
    let mut steps: Vec<AddrStep> = Vec::new();
    for i in 0..place.projection.len()
        invariant
            projs == place.projection@,
            (place.base as int) < locals@.len(),
            (place.base as int) < storage,
            d == locals@[place.base as int],
            start == (d.ty, d.is_volatile),
            types_wf(types@),
            ty_in(types@, t),
            addr_walk(types@, d, projs, i as nat) == Ok::<(TyId, Seq<AddrStep>), ErrView>((t, steps@)),
            walk_vol(types@, start, projs, i as nat, true) == Ok::<(TyId, bool), ErrView>((t, vol)),
    {
        proof {
            assert(addr_walk(types@, d, projs, (i + 1) as nat) == addr_step(types@, t, steps@, vol, projs[i as int]));
            assert(walk_vol(types@, start, projs, (i + 1) as nat, true) == step_vol(
                types@,
                (t, vol),
                projs[i as int],
                true,
            ));
        }
        match place.projection[i] {
            Proj::Deref => match &types[t.0 as usize] {
                PlaceTyKind::Ptr(q) => {
                    steps.push(AddrStep::LoadPtr { volatile: vol });
                    t = q.ty;
                    vol = q.is_volatile;
                },
                _ => {
                    proof {
                        lemma_addr_walk_err(types@, d, projs, (i + 1) as nat, projs.len());
                    }
                    return Err(invalid_projection_error("dereference", t));
                },
            },
            Proj::Field(k) => {
                let f = match field_access(types, t, k) {
                    Ok(f) => f,
                    Err(e) => {
                        proof {
                            lemma_addr_walk_err(types@, d, projs, (i + 1) as nat, projs.len());
                        }
                        return Err(e);
                    },
                };
                if f.pos.is_bitfield {
                    proof {
                        lemma_addr_walk_err(types@, d, projs, (i + 1) as nat, projs.len());
                    }
                    return Err(CodegenError::Internal("cannot take the address of a bit-field".to_string()));
                }
                if !f.union && f.pos.offset != 0 {
                    steps.push(AddrStep::ByteOffset(f.pos.offset));
                }
                proof {
                    field_ty_in(types@, t, k);
                }
                t = f.ty;
                vol = vol || f.is_volatile;
            },
            Proj::Index => match &types[t.0 as usize] {
                PlaceTyKind::Array { elem, is_vla } => {
                    if *is_vla {
                        steps.push(AddrStep::IndexElem(elem.ty));
                    } else {
                        steps.push(AddrStep::IndexArray(t));
                    }
                    let slot = elem.is_volatile && matches!(types[elem.ty.0 as usize], PlaceTyKind::Ptr(_));
                    t = elem.ty;
                    vol = vol || slot;
                },
                PlaceTyKind::Ptr(q) => {
                    steps.push(AddrStep::LoadPtr { volatile: vol });
                    steps.push(AddrStep::IndexElem(q.ty));
                    t = q.ty;
                    vol = q.is_volatile;
                },
                _ => {
                    proof {
                        lemma_addr_walk_err(types@, d, projs, (i + 1) as nat, projs.len());
                    }
                    return Err(invalid_projection_error("index", t));
                },
            },
        }
    }
    Ok((t, steps))
}

proof fn lemma_addr_walk_ty(types: Seq<PlaceTyKind>, d: LocalDecl, projs: Seq<Proj>, n: nat)
    requires
        addr_walk(types, d, projs, n) is Ok,
    ensures
        walk_ty(types, d.ty, projs, n) == Ok::<TyId, ErrView>(addr_walk(types, d, projs, n)->Ok_0.0),
    decreases n,
{
    if n > 0 {
        lemma_addr_walk_ty(types, d, projs, (n - 1) as nat);
    }
}

proof fn lemma_walk_vol_ty(types: Seq<PlaceTyKind>, start: (TyId, bool), projs: Seq<Proj>, n: nat, object: bool)
    ensures
        match walk_ty(types, start.0, projs, n) {
            Ok(t) => walk_vol(types, start, projs, n, object) is Ok && walk_vol(
                types,
                start,
                projs,
                n,
                object,
            )->Ok_0.0 == t,
            Err(e) => walk_vol(types, start, projs, n, object) == Err::<(TyId, bool), ErrView>(e),
        },
    decreases n,
{
    if n > 0 {
        lemma_walk_vol_ty(types, start, projs, (n - 1) as nat, object);
    }
}

/// The address computation of a place ends at the type of the place: when
/// the back end can compute a place's address, the address has the type
/// that the place's type walk gives.
pub proof fn lemma_addr_plan_has_place_type(
    types: Seq<PlaceTyKind>,
    locals: Seq<LocalDecl>,
    storage: nat,
    base: u32,
    projs: Seq<Proj>,
)
    requires
        place_addr_spec(types, locals, storage, base, projs) is Ok,
    ensures
        place_ty_spec(types, locals, base, projs) == Ok::<TyId, ErrView>(
            place_addr_spec(types, locals, storage, base, projs)->Ok_0.0,
        ),
{
    lemma_addr_walk_ty(types, locals[base as int], projs, projs.len());
}

/// Whether a place is volatile is known exactly when its type is: the
/// volatility walk fails where, and with the error with which, the type
/// walk fails, and so does the object volatility of the whole place.
pub proof fn lemma_place_walks_agree(types: Seq<PlaceTyKind>, locals: Seq<LocalDecl>, base: u32, projs: Seq<Proj>)
    ensures
        place_ty_spec(types, locals, base, projs) is Ok ==> place_volatile_spec(types, locals, base, projs) is Ok
            && prefix_volatile_spec(types, locals, base, projs, projs.len()) is Ok,
        place_ty_spec(types, locals, base, projs) is Err ==> place_volatile_spec(types, locals, base, projs)
            == Err::<bool, ErrView>(place_ty_spec(types, locals, base, projs)->Err_0) && prefix_volatile_spec(
            types,
            locals,
            base,
            projs,
            projs.len(),
        ) == Err::<bool, ErrView>(place_ty_spec(types, locals, base, projs)->Err_0),
{
    if base < locals.len() {
        let d = locals[base as int];
        lemma_walk_vol_ty(types, (d.ty, d.is_volatile), projs, projs.len(), false);
        lemma_walk_vol_ty(types, (d.ty, d.is_volatile), projs, projs.len(), true);
    }
}

} // verus!
