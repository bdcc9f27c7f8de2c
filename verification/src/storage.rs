//! The storage of locals across `StorageLive` and `StorageDead`: lifetime
//! markers for fixed-size locals, and for variable-length arrays a stack
//! allocation whose saved stack position the matching `StorageDead`
//! restores.

use vstd::prelude::*;

use crate::abi::{err_view, ErrView};
use crate::text::{decimal, decimal_u64, push_chars, push_str, string_of};

verus! {

/// What storage handling needs to know of a local.
#[derive(Debug)]
pub enum LocalKind {
    /// A `void` local: a zero-size lifetime.
    Void,
    /// A variable-length array, with the local that holds its length, if
    /// it has one.
    Vla { len_local: Option<u32> },
    /// Any other local, of type `ty`: its size in bytes, or the layout
    /// error's text.
    Sized { ty: crate::abi::TyId, size: Result<u64, String> },
}

/// What one storage statement does.
#[derive(Copy, Clone, Debug, PartialEq, Eq, Structural)]
pub enum StorageAction {
    /// `llvm.lifetime.start` over this many bytes of the local's slot.
    LifetimeStart { local: u32, size: u64 },
    /// `llvm.lifetime.end` over this many bytes of the local's slot.
    LifetimeEnd { local: u32, size: u64 },
    /// Save the stack position, then allocate the array (its length read
    /// from `len_local`) as the local's storage.
    VlaAlloc { local: u32, len_local: u32 },
    /// Restore the stack position saved when the array was allocated.
    VlaRestore { local: u32 },
}

/// The stack positions held for variable-length arrays: one flag per local,
/// set while a saved position waits for its `StorageDead`.
#[derive(Clone, Debug, PartialEq, Eq)]
pub struct VlaStacks {
    pub saved: Vec<bool>,
}

/// `name(n)`, as an id prints.
pub open spec fn local_text(n: u32) -> Seq<char> {
    "Local("@ + decimal(n as nat) + ")"@
}

/// The error for a local that the body does not declare.
pub open spec fn missing_from_body(l: u32) -> Seq<char> {
    "local "@ + local_text(l) + " is missing from body"@
}

/// A lifetime marker for local `l`: its storage and declaration must exist,
/// and its size comes from its layout (zero for `void`).
pub open spec fn marker_spec(kinds: Seq<LocalKind>, storage: nat, l: u32, start: bool) -> Result<StorageAction, ErrView> {
    if l >= storage {
        Err(ErrView::Internal("missing LLVM storage for local "@ + local_text(l)))
    } else if l >= kinds.len() {
        Err(ErrView::Internal(missing_from_body(l)))
    } else {
        let size: Result<u64, ErrView> = match kinds[l as int] {
            LocalKind::Void => Ok(0u64),
            LocalKind::Vla { .. } => Err(ErrView::Internal("VLA locals use stackrestore instead of lifetime markers"@)),
            LocalKind::Sized { size: Ok(n), .. } => Ok(n),
            LocalKind::Sized { ty, size: Err(e) } => Err(ErrView::Lowering(ty, e@)),
        };
        match size {
            Err(e) => Err(e),
            Ok(n) => Ok(
                if start {
                    StorageAction::LifetimeStart { local: l, size: n }
                } else {
                    StorageAction::LifetimeEnd { local: l, size: n }
                },
            ),
        }
    }
}

/// `StorageLive(l)`: the action and the stack positions after it.
pub open spec fn live_spec(kinds: Seq<LocalKind>, storage: nat, saved: Seq<bool>, l: u32) -> Result<
    (StorageAction, Seq<bool>),
    ErrView,
> {
    if l >= kinds.len() {
        Err(ErrView::Internal(missing_from_body(l)))
    } else {
        match kinds[l as int] {
            LocalKind::Vla { len_local } => match len_local {
                None => Err(ErrView::Internal("VLA local "@ + local_text(l) + " is missing vla_len"@)),
                Some(n) => if n >= storage {
                    Err(ErrView::Internal("missing LLVM storage for vla_len local "@ + local_text(n)))
                } else {
                    Ok((StorageAction::VlaAlloc { local: l, len_local: n }, saved.update(l as int, true)))
                },
            },
            _ => match marker_spec(kinds, storage, l, true) {
                Err(e) => Err(e),
                Ok(a) => Ok((a, saved)),
            },
        }
    }
}

/// `StorageDead(l)`: the action and the stack positions after it.
pub open spec fn dead_spec(kinds: Seq<LocalKind>, storage: nat, saved: Seq<bool>, l: u32) -> Result<
    (StorageAction, Seq<bool>),
    ErrView,
> {
    if l >= kinds.len() {
        Err(ErrView::Internal(missing_from_body(l)))
    } else {
        match kinds[l as int] {
            LocalKind::Vla { .. } => if l < saved.len() && saved[l as int] {
                Ok((StorageAction::VlaRestore { local: l }, saved.update(l as int, false)))
            } else {
                Err(ErrView::Internal("VLA local "@ + local_text(l) + " reached StorageDead before StorageLive"@))
            },
            _ => match marker_spec(kinds, storage, l, false) {
                Err(e) => Err(e),
                Ok(a) => Ok((a, saved)),
            },
        }
    }
}

fn internal(v: Vec<char>) -> (e: crate::abi::CodegenError)
    ensures
        err_view(e) == ErrView::Internal(v@),
{
    crate::abi::CodegenError::Internal(string_of(v.as_slice()))
}

fn local_error(head: &str, l: u32, tail: &str) -> (e: crate::abi::CodegenError)
    ensures
        err_view(e) == ErrView::Internal(head@ + local_text(l) + tail@),
{
    let mut v: Vec<char> = Vec::new();
    push_str(&mut v, head);
    push_str(&mut v, "Local(");
    let d = decimal_u64(l as u64);
    push_chars(&mut v, d.as_slice());
    push_str(&mut v, ")");
    push_str(&mut v, tail);
    assert(v@ =~= head@ + local_text(l) + tail@);
    internal(v)
}

fn marker(kinds: &[LocalKind], storage: usize, l: u32, start: bool) -> (r: Result<
    StorageAction,
    crate::abi::CodegenError,
>)
    ensures
        match marker_spec(kinds@, storage as nat, l, start) {
            Ok(a) => r == Ok::<StorageAction, crate::abi::CodegenError>(a),
            Err(e) => r is Err && err_view(r->Err_0) == e,
        },
{
    if l as usize >= storage {
        let e = local_error("missing LLVM storage for local ", l, "");
        proof {
            reveal_strlit("");
            assert("missing LLVM storage for local "@ + local_text(l) + ""@ =~= "missing LLVM storage for local "@
                + local_text(l));
        }
        return Err(e);
    }
    if l as usize >= kinds.len() {
        return Err(local_error("local ", l, " is missing from body"));
    }
    let size: u64 = match &kinds[l as usize] {
        LocalKind::Void => 0,
        LocalKind::Vla { .. } => {
            return Err(crate::abi::CodegenError::Internal("VLA locals use stackrestore instead of lifetime markers".to_string()));
        },
        LocalKind::Sized { size: Ok(n), .. } => *n,
        LocalKind::Sized { ty, size: Err(e) } => {
            return Err(crate::abi::CodegenError::TypeLowering { ty: *ty, reason: e.clone() });
        },
    };
    if start {
        Ok(StorageAction::LifetimeStart { local: l, size })
    } else {
        Ok(StorageAction::LifetimeEnd { local: l, size })
    }
}

impl VlaStacks {
    /// No stack position held, for a body with `n` locals.
    pub fn new(n: usize) -> (s: Self)
        ensures
            s.saved@ == Seq::new(n as nat, |i: int| false),
    {
        let mut saved: Vec<bool> = Vec::new();
        for i in 0..n
            invariant
                saved@ == Seq::new(i as nat, |k: int| false),
        {
            saved.push(false);
            assert(saved@ =~= Seq::new((i + 1) as nat, |k: int| false));
        }
        VlaStacks { saved }
    }

    /// `StorageLive(l)` for a body whose locals are `kinds`, of which the
    /// first `storage` have LLVM storage.
    pub fn storage_live(&mut self, kinds: &[LocalKind], storage: usize, l: u32) -> (r: Result<
        StorageAction,
        crate::abi::CodegenError,
    >)
        requires
            old(self).saved@.len() == kinds@.len(),
        ensures
            match live_spec(kinds@, storage as nat, old(self).saved@, l) {
                Ok((a, s)) => r == Ok::<StorageAction, crate::abi::CodegenError>(a) && final(self).saved@ == s,
                Err(e) => r is Err && err_view(r->Err_0) == e && final(self).saved@ == old(self).saved@,
            },
    {
        if l as usize >= kinds.len() {
            return Err(local_error("local ", l, " is missing from body"));
        }
        match &kinds[l as usize] {
            LocalKind::Vla { len_local } => match len_local {
                None => Err(local_error("VLA local ", l, " is missing vla_len")),
                Some(n) => {
                    if *n as usize >= storage {
                        let e = local_error("missing LLVM storage for vla_len local ", *n, "");
                        proof {
                            reveal_strlit("");
                            assert("missing LLVM storage for vla_len local "@ + local_text(*n) + ""@
                                =~= "missing LLVM storage for vla_len local "@ + local_text(*n));
                        }
                        return Err(e);
                    }
                    self.saved.set(l as usize, true);
                    Ok(StorageAction::VlaAlloc { local: l, len_local: *n })
                },
            },
            _ => marker(kinds, storage, l, true),
        }
    }

    /// `StorageDead(l)` for a body whose locals are `kinds`, of which the
    /// first `storage` have LLVM storage.
    pub fn storage_dead(&mut self, kinds: &[LocalKind], storage: usize, l: u32) -> (r: Result<
        StorageAction,
        crate::abi::CodegenError,
    >)
        ensures
            match dead_spec(kinds@, storage as nat, old(self).saved@, l) {
                Ok((a, s)) => r == Ok::<StorageAction, crate::abi::CodegenError>(a) && final(self).saved@ == s,
                Err(e) => r is Err && err_view(r->Err_0) == e && final(self).saved@ == old(self).saved@,
            },
    {
        if l as usize >= kinds.len() {
            return Err(local_error("local ", l, " is missing from body"));
        }
        match &kinds[l as usize] {
            LocalKind::Vla { .. } => {
                if (l as usize) < self.saved.len() && self.saved[l as usize] {
                    self.saved.set(l as usize, false);
                    Ok(StorageAction::VlaRestore { local: l })
                } else {
                    Err(local_error("VLA local ", l, " reached StorageDead before StorageLive"))
                }
            },
            _ => marker(kinds, storage, l, false),
        }
    }
}

/// A variable-length array's `StorageLive` and then `StorageDead` pair up:
/// the allocation saves a stack position that the `StorageDead` restores
/// and releases, leaving every other local's saved position as it was.
pub proof fn lemma_vla_live_then_dead(kinds: Seq<LocalKind>, storage: nat, saved: Seq<bool>, l: u32)
    requires
        saved.len() == kinds.len(),
        l < kinds.len(),
        kinds[l as int] is Vla,
        live_spec(kinds, storage, saved, l) is Ok,
    ensures
        ({
            let s1 = live_spec(kinds, storage, saved, l)->Ok_0.1;
            &&& dead_spec(kinds, storage, s1, l) == Ok::<(StorageAction, Seq<bool>), ErrView>(
                (StorageAction::VlaRestore { local: l }, saved.update(l as int, false)),
            )
            &&& forall|i: int| 0 <= i < saved.len() && i != l ==> #[trigger] s1[i] == saved[i]
        }),
{
    let s1 = live_spec(kinds, storage, saved, l)->Ok_0.1;
    assert(s1.update(l as int, false) =~= saved.update(l as int, false));
}

/// A variable-length array's `StorageDead` without a pending
/// `StorageLive` is refused.
pub proof fn lemma_vla_dead_needs_live(kinds: Seq<LocalKind>, storage: nat, saved: Seq<bool>, l: u32)
    requires
        saved.len() == kinds.len(),
        l < kinds.len(),
        kinds[l as int] is Vla,
        !saved[l as int],
    ensures
        dead_spec(kinds, storage, saved, l) is Err,
{
}

} // verus!
