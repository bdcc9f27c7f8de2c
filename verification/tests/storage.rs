use rcc_conformance::abi::{CodegenError, TyId};
use rcc_conformance::storage::{LocalKind, StorageAction, VlaStacks};

fn kinds() -> Vec<LocalKind> {
    vec![
        LocalKind::Sized { ty: TyId(1), size: Ok(4) },
        LocalKind::Sized { ty: TyId(2), size: Ok(8) },
        LocalKind::Vla { len_local: Some(1) },
        LocalKind::Void,
        LocalKind::Vla { len_local: None },
        LocalKind::Sized { ty: TyId(5), size: Err("incomplete type".to_string()) },
    ]
}

fn message(e: CodegenError) -> String {
    match e {
        CodegenError::Internal(m) => m,
        other => panic!("expected an internal error, got {other:?}"),
    }
}

#[test]
fn fixed_size_locals_get_lifetime_markers() {
    let k = kinds();
    let mut s = VlaStacks::new(k.len());
    assert_eq!(s.storage_live(&k, 6, 0).unwrap(), StorageAction::LifetimeStart { local: 0, size: 4 });
    assert_eq!(s.storage_dead(&k, 6, 0).unwrap(), StorageAction::LifetimeEnd { local: 0, size: 4 });
    assert_eq!(s.storage_live(&k, 6, 3).unwrap(), StorageAction::LifetimeStart { local: 3, size: 0 });
    assert_eq!(s.saved, vec![false; 6]);
}

#[test]
fn vla_live_then_dead_restores_the_stack() {
    let k = kinds();
    let mut s = VlaStacks::new(k.len());
    assert_eq!(
        message(s.storage_dead(&k, 6, 2).unwrap_err()),
        "VLA local Local(2) reached StorageDead before StorageLive"
    );
    assert_eq!(s.storage_live(&k, 6, 2).unwrap(), StorageAction::VlaAlloc { local: 2, len_local: 1 });
    assert!(s.saved[2]);
    assert_eq!(s.storage_dead(&k, 6, 2).unwrap(), StorageAction::VlaRestore { local: 2 });
    assert!(!s.saved[2]);
    assert!(s.storage_dead(&k, 6, 2).is_err());
}

#[test]
fn storage_errors() {
    let k = kinds();
    let mut s = VlaStacks::new(k.len());
    assert_eq!(message(s.storage_live(&k, 6, 9).unwrap_err()), "local Local(9) is missing from body");
    assert_eq!(message(s.storage_live(&k, 6, 4).unwrap_err()), "VLA local Local(4) is missing vla_len");
    assert_eq!(message(s.storage_live(&k, 1, 2).unwrap_err()), "missing LLVM storage for vla_len local Local(1)");
    assert_eq!(message(s.storage_live(&k, 0, 0).unwrap_err()), "missing LLVM storage for local Local(0)");
    match s.storage_dead(&k, 6, 5).unwrap_err() {
        CodegenError::TypeLowering { ty, reason } => {
            assert_eq!(ty, TyId(5));
            assert_eq!(reason, "incomplete type");
        }
        other => panic!("unexpected {other:?}"),
    }
    assert_eq!(s.saved, vec![false; 6]);
}
